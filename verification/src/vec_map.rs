//! Maps and sets kept in vectors, for keys that are compared by value.
//!
//! Addresses and storage keys are wider than any machine integer, and the
//! verifier knows how a hash map of the standard library behaves only for
//! keys that are integers: with a key of this library nothing could be
//! proved of a lookup after an insertion. So the collections here keep their
//! entries in a vector, under the invariant that no key is held twice, and
//! every operation is proved against the mathematical map or set. The price
//! is that a lookup is linear in the number of entries.
use crate::primitives::{Address, B256, U256};
use vstd::prelude::*;

verus! {

/// A key that can be compared for equality in executable code.
pub trait MapKey: Sized + Copy {
    fn key_eq(&self, other: &Self) -> (same: bool)
        ensures
            same == (*self == *other),
    ;
}

impl MapKey for U256 {
    fn key_eq(&self, other: &Self) -> (same: bool) {
        self.hi == other.hi && self.lo == other.lo
    }
}

impl MapKey for Address {
    fn key_eq(&self, other: &Self) -> (same: bool) {
        self.hi == other.hi && self.lo == other.lo
    }
}

impl MapKey for B256 {
    fn key_eq(&self, other: &Self) -> (same: bool) {
        self.hi == other.hi && self.lo == other.lo
    }
}

/// The place of one storage word: an account and a key in its storage.
#[derive(Clone, Copy, Debug, PartialEq, Eq, Structural, Hash)]
pub struct SlotId {
    pub address: Address,
    pub key: U256,
}

impl MapKey for SlotId {
    fn key_eq(&self, other: &Self) -> (same: bool) {
        self.address.key_eq(&other.address) && self.key.key_eq(&other.key)
    }
}

/// Whether `keys` holds `k` at position `i`.
pub open spec fn key_at<K>(keys: Seq<K>, k: K, i: int) -> bool {
    0 <= i < keys.len() && keys[i] == k
}

/// The map that sends each key of `keys` to the value at the same position
/// in `vals`.
pub open spec fn map_of<K, V>(keys: Seq<K>, vals: Seq<V>) -> Map<K, V> {
    Map::new(
        |k: K| exists|i: int| key_at(keys, k, i),
        |k: K| vals[choose|i: int| key_at(keys, k, i)],
    )
}

proof fn lemma_map_of_at<K, V>(keys: Seq<K>, vals: Seq<V>, i: int)
    requires
        keys.no_duplicates(),
        0 <= i < keys.len(),
    ensures
        map_of(keys, vals).contains_key(keys[i]),
        map_of(keys, vals)[keys[i]] == vals[i],
{
    assert(key_at(keys, keys[i], i));
}

proof fn lemma_map_of_absent<K, V>(keys: Seq<K>, vals: Seq<V>, k: K)
    requires
        forall|j: int| 0 <= j < keys.len() ==> keys[j] != k,
    ensures
        !map_of(keys, vals).contains_key(k),
{
    assert(forall|j: int| !key_at(keys, k, j));
}

proof fn lemma_map_of_update<K, V>(keys: Seq<K>, vals: Seq<V>, i: int, v: V)
    requires
        keys.no_duplicates(),
        0 <= i < keys.len() <= vals.len(),
    ensures
        map_of(keys, vals.update(i, v)) == map_of(keys, vals).insert(keys[i], v),
{
    let m1 = map_of(keys, vals.update(i, v));
    let m2 = map_of(keys, vals).insert(keys[i], v);
    assert(key_at(keys, keys[i], i));
    assert forall|k: K| m1.contains_key(k) implies #[trigger] m1[k] == m2[k] by {
        let j = choose|j: int| key_at(keys, k, j);
        lemma_map_of_at(keys, vals.update(i, v), j);
        lemma_map_of_at(keys, vals, j);
    }
    assert(m1 =~= m2);
}

proof fn lemma_map_of_push<K, V>(keys: Seq<K>, vals: Seq<V>, k: K, v: V)
    requires
        keys.no_duplicates(),
        keys.len() == vals.len(),
        !map_of(keys, vals).contains_key(k),
    ensures
        keys.push(k).no_duplicates(),
        map_of(keys.push(k), vals.push(v)) == map_of(keys, vals).insert(k, v),
{
    let keys2 = keys.push(k);
    let vals2 = vals.push(v);
    let m1 = map_of(keys2, vals2);
    let m2 = map_of(keys, vals).insert(k, v);
    assert forall|i: int, j: int|
        0 <= i < keys2.len() && 0 <= j < keys2.len() && i != j implies keys2[i] != keys2[j] by {
        if i < keys.len() && keys2[i] == k {
            assert(key_at(keys, k, i));
        }
        if j < keys.len() && keys2[j] == k {
            assert(key_at(keys, k, j));
        }
    }
    assert forall|x: K| m1.contains_key(x) == m2.contains_key(x) by {
        if m1.contains_key(x) {
            let j = choose|j: int| key_at(keys2, x, j);
            if j < keys.len() {
                assert(key_at(keys, x, j));
            }
        }
        if m2.contains_key(x) {
            if x == k {
                assert(key_at(keys2, x, keys.len() as int));
            } else {
                let j = choose|j: int| key_at(keys, x, j);
                assert(key_at(keys2, x, j));
            }
        }
    }
    assert forall|x: K| m1.contains_key(x) implies #[trigger] m1[x] == m2[x] by {
        let j = choose|j: int| key_at(keys2, x, j);
        lemma_map_of_at(keys2, vals2, j);
        if j < keys.len() {
            assert(key_at(keys, x, j));
            lemma_map_of_at(keys, vals, j);
        }
    }
    assert(m1 =~= m2);
}

proof fn lemma_map_of_swap_remove<K, V>(keys: Seq<K>, vals: Seq<V>, i: int)
    requires
        keys.no_duplicates(),
        keys.len() == vals.len(),
        0 <= i < keys.len(),
    ensures
        keys.update(i, keys.last()).drop_last().no_duplicates(),
        map_of(keys.update(i, keys.last()).drop_last(), vals.update(i, vals.last()).drop_last())
            == map_of(keys, vals).remove(keys[i]),
{
    let keys2 = keys.update(i, keys.last()).drop_last();
    let vals2 = vals.update(i, vals.last()).drop_last();
    let last = keys.len() - 1;
    let m1 = map_of(keys2, vals2);
    let m2 = map_of(keys, vals).remove(keys[i]);
    // Where position `j` of the shortened sequence came from.
    let origin = |j: int|
        if j == i {
            last
        } else {
            j
        };
    assert forall|a: int, b: int|
        0 <= a < keys2.len() && 0 <= b < keys2.len() && a != b implies keys2[a] != keys2[b] by {
        assert(keys2[a] == keys[origin(a)]);
        assert(keys2[b] == keys[origin(b)]);
    }
    assert forall|x: K| m1.contains_key(x) == m2.contains_key(x) by {
        if m1.contains_key(x) {
            let j = choose|j: int| key_at(keys2, x, j);
            assert(key_at(keys, x, origin(j)));
        }
        if m2.contains_key(x) {
            let j = choose|j: int| key_at(keys, x, j);
            if j == last {
                assert(key_at(keys2, x, i));
            } else {
                assert(key_at(keys2, x, j));
            }
        }
    }
    assert forall|x: K| m1.contains_key(x) implies #[trigger] m1[x] == m2[x] by {
        let j = choose|j: int| key_at(keys2, x, j);
        lemma_map_of_at(keys2, vals2, j);
        lemma_map_of_at(keys, vals, origin(j));
    }
    assert(m1 =~= m2);
}

/// A finite map from keys to values. No key is held twice.
#[derive(Debug)]
pub struct VecMap<K, V> {
    keys: Vec<K>,
    vals: Vec<V>,
}

impl<K, V> VecMap<K, V> {
    #[verifier::type_invariant]
    spec fn inv(self) -> bool {
        self.keys@.no_duplicates() && self.keys@.len() == self.vals@.len()
    }

    /// What the map holds.
    pub closed spec fn view(self) -> Map<K, V> {
        map_of(self.keys@, self.vals@)
    }

    /// Takes the two vectors out and leaves the map empty.
    fn take_parts(&mut self) -> (r: (Vec<K>, Vec<V>))
        ensures
            r.0@ == old(self).keys@,
            r.1@ == old(self).vals@,
            r.0@.no_duplicates(),
            r.0@.len() == r.1@.len(),
            map_of(r.0@, r.1@) == old(self)@,
    {
        proof {
            use_type_invariant(&*self);
        }
        let mut taken = VecMap { keys: Vec::new(), vals: Vec::new() };
        core::mem::swap(self, &mut taken);
        let VecMap { keys, vals } = taken;
        (keys, vals)
    }
}

impl<K: MapKey, V> VecMap<K, V> {
    /// The empty map.
    pub fn new() -> (r: Self)
        ensures
            r@ == Map::<K, V>::empty(),
    {
        let r = VecMap { keys: Vec::new(), vals: Vec::new() };
        assert(r@ =~= Map::<K, V>::empty());
        r
    }

    fn find(&self, k: &K) -> (r: Option<usize>)
        ensures
            match r {
                Some(i) => i < self.keys@.len() && self.keys@[i as int] == *k,
                None => forall|j: int| 0 <= j < self.keys@.len() ==> self.keys@[j] != *k,
            },
    {
        find_key(&self.keys, k)
    }

    /// Whether the map has a value for `k`.
    pub fn contains_key(&self, k: &K) -> (r: bool)
        ensures
            r == self@.contains_key(*k),
    {
        proof {
            use_type_invariant(self);
        }
        match self.find(k) {
            Some(i) => {
                proof {
                    lemma_map_of_at(self.keys@, self.vals@, i as int);
                }
                true
            },
            None => {
                proof {
                    lemma_map_of_absent(self.keys@, self.vals@, *k);
                }
                false
            },
        }
    }

    /// The value for `k`, where there is one.
    pub fn get(&self, k: &K) -> (r: Option<&V>)
        ensures
            match r {
                Some(v) => self@.contains_key(*k) && *v == self@[*k],
                None => !self@.contains_key(*k),
            },
    {
        proof {
            use_type_invariant(self);
        }
        match self.find(k) {
            Some(i) => {
                proof {
                    lemma_map_of_at(self.keys@, self.vals@, i as int);
                }
                Some(&self.vals[i])
            },
            None => {
                proof {
                    lemma_map_of_absent(self.keys@, self.vals@, *k);
                }
                None
            },
        }
    }

    /// The value for `k`, to be changed in place, where there is one.
    pub fn get_mut(&mut self, k: &K) -> (r: Option<&mut V>)
        ensures
            match r {
                Some(v) => old(self)@.contains_key(*k) && *v == old(self)@[*k] && final(self)@
                    == old(self)@.insert(*k, *final(v)),
                None => !old(self)@.contains_key(*k) && *final(self) == *old(self),
            },
    {
        proof {
            use_type_invariant(&*self);
        }
        match self.find(k) {
            Some(i) => {
                proof {
                    lemma_map_of_at(self.keys@, self.vals@, i as int);
                    assert forall|v: V| #[trigger]
                        map_of(self.keys@, self.vals@.update(i as int, v)) == map_of(
                            self.keys@,
                            self.vals@,
                        ).insert(*k, v) by {
                        lemma_map_of_update(self.keys@, self.vals@, i as int, v);
                    }
                }
                Some(&mut self.vals[i])
            },
            None => {
                proof {
                    lemma_map_of_absent(self.keys@, self.vals@, *k);
                }
                None
            },
        }
    }

    /// Sets the value for `k` and hands back the one that was there.
    pub fn insert(&mut self, k: K, v: V) -> (r: Option<V>)
        ensures
            final(self)@ == old(self)@.insert(k, v),
            match r {
                Some(previous) => old(self)@.contains_key(k) && previous == old(self)@[k],
                None => !old(self)@.contains_key(k),
            },
    {
        let (mut keys, mut vals) = self.take_parts();
        let r = match find_key(&keys, &k) {
            Some(i) => {
                proof {
                    lemma_map_of_at(keys@, vals@, i as int);
                    lemma_map_of_update(keys@, vals@, i as int, v);
                }
                let ghost before = vals@;
                vals.push(v);
                let previous = vals.swap_remove(i);
                assert(vals@ =~= before.update(i as int, v));
                Some(previous)
            },
            None => {
                proof {
                    lemma_map_of_absent(keys@, vals@, k);
                    lemma_map_of_push(keys@, vals@, k, v);
                }
                vals.push(v);
                keys.push(k);
                None
            },
        };
        *self = VecMap { keys, vals };
        r
    }

    /// Takes the value for `k` out of the map, where there is one.
    pub fn remove(&mut self, k: &K) -> (r: Option<V>)
        ensures
            final(self)@ == old(self)@.remove(*k),
            match r {
                Some(previous) => old(self)@.contains_key(*k) && previous == old(self)@[*k],
                None => !old(self)@.contains_key(*k),
            },
    {
        let (mut keys, mut vals) = self.take_parts();
        let r = match find_key(&keys, k) {
            Some(i) => {
                proof {
                    lemma_map_of_at(keys@, vals@, i as int);
                    lemma_map_of_swap_remove(keys@, vals@, i as int);
                }
                keys.swap_remove(i);
                let previous = vals.swap_remove(i);
                Some(previous)
            },
            None => {
                proof {
                    lemma_map_of_absent(keys@, vals@, *k);
                    assert(old(self)@.remove(*k) =~= old(self)@);
                }
                None
            },
        };
        *self = VecMap { keys, vals };
        r
    }

    /// Empties the map.
    pub fn clear(&mut self)
        ensures
            final(self)@ == Map::<K, V>::empty(),
    {
        *self = VecMap::new();
    }

    /// Takes the map apart: its keys, each once, and the value of each key
    /// at the same position.
    pub fn into_parts(self) -> (r: (Vec<K>, Vec<V>))
        ensures
            r.0@.no_duplicates(),
            r.0@.len() == r.1@.len(),
            map_of(r.0@, r.1@) == self@,
    {
        proof {
            use_type_invariant(&self);
        }
        let VecMap { keys, vals } = self;
        (keys, vals)
    }
}

impl<K: MapKey, V: Clone> Clone for VecMap<K, V> {
    /// A map with the same keys, and a clone of each value.
    fn clone(&self) -> (r: Self)
        ensures
            r@.dom() == self@.dom(),
            forall|k: K| #[trigger] self@.contains_key(k) ==> cloned(self@[k], r@[k]),
    {
        proof {
            use_type_invariant(self);
        }
        let mut keys: Vec<K> = Vec::new();
        let mut vals: Vec<V> = Vec::new();
        let mut i: usize = 0;
        while i < self.keys.len()
            invariant
                i <= self.keys.len(),
                self.keys@.len() == self.vals@.len(),
                keys@ == self.keys@.subrange(0, i as int),
                vals@.len() == i,
                forall|j: int| 0 <= j < i ==> cloned(self.vals@[j], #[trigger] vals@[j]),
            decreases self.keys.len() - i,
        {
            keys.push(self.keys[i]);
            vals.push(self.vals[i].clone());
            assert(keys@ =~= self.keys@.subrange(0, i + 1));
            i = i + 1;
        }
        assert(keys@ =~= self.keys@);
        let r = VecMap { keys, vals };
        proof {
            assert(r@.dom() =~= self@.dom());
            assert forall|k: K| #[trigger] self@.contains_key(k) implies cloned(self@[k], r@[k]) by {
                let j = choose|j: int| key_at(self.keys@, k, j);
                lemma_map_of_at(self.keys@, self.vals@, j);
                lemma_map_of_at(r.keys@, r.vals@, j);
            }
        }
        r
    }
}

impl<K: MapKey> Clone for VecSet<K> {
    /// A set with the same keys.
    fn clone(&self) -> (r: Self)
        ensures
            r@ == self@,
    {
        let mut r = VecSet::new();
        r.copy_from(self);
        r
    }
}

fn find_key<K: MapKey>(keys: &Vec<K>, k: &K) -> (r: Option<usize>)
    ensures
        match r {
            Some(i) => i < keys@.len() && keys@[i as int] == *k,
            None => forall|j: int| 0 <= j < keys@.len() ==> keys@[j] != *k,
        },
{
    let mut i: usize = 0;
    while i < keys.len()
        invariant
            i <= keys.len(),
            forall|j: int| 0 <= j < i ==> keys@[j] != *k,
        decreases keys.len() - i,
    {
        if keys[i].key_eq(k) {
            return Some(i);
        }
        i = i + 1;
    }
    None
}

proof fn lemma_push_to_set<K>(keys: Seq<K>, k: K)
    ensures
        keys.push(k).to_set() == keys.to_set().insert(k),
{
    let pushed = keys.push(k);
    assert forall|x: K| pushed.to_set().contains(x) == keys.to_set().insert(k).contains(x) by {
        if pushed.to_set().contains(x) {
            let j = choose|j: int| 0 <= j < pushed.len() && pushed[j] == x;
            if j < keys.len() {
                assert(keys[j] == x);
            }
        }
        if keys.to_set().insert(k).contains(x) {
            if x == k {
                assert(pushed[keys.len() as int] == x);
            } else {
                let j = choose|j: int| 0 <= j < keys.len() && keys[j] == x;
                assert(pushed[j] == x);
            }
        }
    }
    assert(pushed.to_set() =~= keys.to_set().insert(k));
}

/// A finite set of keys. No key is held twice.
#[derive(Debug)]
pub struct VecSet<K> {
    keys: Vec<K>,
}

impl<K> VecSet<K> {
    #[verifier::type_invariant]
    spec fn inv(self) -> bool {
        self.keys@.no_duplicates()
    }

    /// What the set holds.
    pub closed spec fn view(self) -> Set<K> {
        self.keys@.to_set()
    }
}

impl<K: MapKey> VecSet<K> {
    /// The empty set.
    pub fn new() -> (r: Self)
        ensures
            r@ == Set::<K>::empty(),
    {
        let r = VecSet { keys: Vec::new() };
        assert(r@ =~= Set::<K>::empty());
        r
    }

    /// The number of keys in the set.
    pub fn len(&self) -> (r: usize)
        ensures
            self@.finite(),
            r == self@.len(),
    {
        proof {
            use_type_invariant(self);
            self.keys@.unique_seq_to_set();
        }
        self.keys.len()
    }

    /// Whether `k` is in the set.
    pub fn contains(&self, k: &K) -> (r: bool)
        ensures
            r == self@.contains(*k),
    {
        find_key(&self.keys, k).is_some()
    }

    /// Puts `k` into the set; `true` where it was not there before.
    pub fn insert(&mut self, k: K) -> (r: bool)
        ensures
            final(self)@ == old(self)@.insert(k),
            r == !old(self)@.contains(k),
    {
        proof {
            use_type_invariant(&*self);
        }
        if self.contains(&k) {
            assert(self@.insert(k) =~= self@);
            false
        } else {
            let mut taken = VecSet { keys: Vec::new() };
            core::mem::swap(self, &mut taken);
            let VecSet { mut keys } = taken;
            proof {
                lemma_push_to_set(keys@, k);
            }
            keys.push(k);
            *self = VecSet { keys };
            true
        }
    }

    /// Empties the set.
    pub fn clear(&mut self)
        ensures
            final(self)@ == Set::<K>::empty(),
    {
        *self = VecSet::new();
    }

    /// The keys of the set, each once.
    pub fn to_vec(&self) -> (r: Vec<K>)
        ensures
            r@.no_duplicates(),
            r@.to_set() == self@,
    {
        proof {
            use_type_invariant(self);
        }
        let mut keys: Vec<K> = Vec::new();
        let mut i: usize = 0;
        while i < self.keys.len()
            invariant
                i <= self.keys.len(),
                keys@ == self.keys@.subrange(0, i as int),
            decreases self.keys.len() - i,
        {
            keys.push(self.keys[i]);
            assert(keys@ =~= self.keys@.subrange(0, i + 1));
            i = i + 1;
        }
        assert(keys@ =~= self.keys@);
        keys
    }

    /// Makes this set hold exactly the keys of `other`.
    pub fn copy_from(&mut self, other: &VecSet<K>)
        ensures
            final(self)@ == other@,
    {
        proof {
            use_type_invariant(other);
        }
        let mut keys: Vec<K> = Vec::new();
        let mut i: usize = 0;
        while i < other.keys.len()
            invariant
                i <= other.keys.len(),
                keys@ == other.keys@.subrange(0, i as int),
                other.keys@.no_duplicates(),
            decreases other.keys.len() - i,
        {
            keys.push(other.keys[i]);
            assert(keys@ =~= other.keys@.subrange(0, i + 1));
            i = i + 1;
        }
        assert(keys@ =~= other.keys@);
        *self = VecSet { keys };
    }
}

} // verus!
