use journaled_evm::primitives::{Address, U256};
use journaled_evm::vec_map::{SlotId, VecMap, VecSet};

fn a(v: u128) -> Address {
    Address { hi: 0, lo: v }
}

#[test]
fn map_insert_get_remove() {
    let mut map: VecMap<Address, u64> = VecMap::new();
    assert!(!map.contains_key(&a(1)));
    assert_eq!(map.insert(a(1), 10), None);
    assert_eq!(map.insert(a(2), 20), None);
    assert_eq!(map.insert(a(1), 11), Some(10));
    assert_eq!(map.get(&a(1)), Some(&11));
    assert_eq!(map.get(&a(2)), Some(&20));
    assert_eq!(map.get(&a(3)), None);
    assert_eq!(map.remove(&a(1)), Some(11));
    assert_eq!(map.remove(&a(1)), None);
    assert_eq!(map.get(&a(2)), Some(&20));
    map.clear();
    assert!(!map.contains_key(&a(2)));
}

#[test]
fn map_get_mut_changes_in_place() {
    let mut map: VecMap<SlotId, U256> = VecMap::new();
    let slot = SlotId { address: a(7), key: U256::from_u64(1) };
    map.insert(slot, U256::from_u64(5));
    *map.get_mut(&slot).unwrap() = U256::from_u64(6);
    assert_eq!(map.get(&slot), Some(&U256::from_u64(6)));
    assert!(map.get_mut(&SlotId { address: a(7), key: U256::from_u64(2) }).is_none());
}

#[test]
fn map_remove_from_the_middle_keeps_the_rest() {
    let mut map: VecMap<Address, u64> = VecMap::new();
    for i in 0..5u64 {
        map.insert(a(i as u128), i);
    }
    assert_eq!(map.remove(&a(1)), Some(1));
    for i in [0u64, 2, 3, 4] {
        assert_eq!(map.get(&a(i as u128)), Some(&i));
    }
    assert_eq!(map.get(&a(1)), None);
}

#[test]
fn set_counts_each_key_once() {
    let mut set: VecSet<Address> = VecSet::new();
    assert_eq!(set.len(), 0);
    assert!(set.insert(a(1)));
    assert!(!set.insert(a(1)));
    assert!(set.insert(a(2)));
    assert_eq!(set.len(), 2);
    assert!(set.contains(&a(2)));
    assert!(!set.contains(&a(3)));
    let mut copy: VecSet<Address> = VecSet::new();
    copy.insert(a(9));
    copy.copy_from(&set);
    assert_eq!(copy.len(), 2);
    assert!(copy.contains(&a(1)) && copy.contains(&a(2)) && !copy.contains(&a(9)));
    set.clear();
    assert_eq!(set.len(), 0);
}

#[test]
fn clones_hold_the_same_entries() {
    let mut map: VecMap<Address, Vec<u8>> = VecMap::new();
    map.insert(a(1), vec![1]);
    map.insert(a(2), vec![2, 2]);
    let mut copy = map.clone();
    copy.insert(a(1), vec![9]);
    assert_eq!(map.get(&a(1)), Some(&vec![1]));
    assert_eq!(copy.get(&a(1)), Some(&vec![9]));
    assert_eq!(copy.get(&a(2)), Some(&vec![2, 2]));
    let mut set: VecSet<Address> = VecSet::new();
    set.insert(a(1));
    let copy = set.clone();
    set.insert(a(2));
    assert_eq!(copy.len(), 1);
    assert!(copy.contains(&a(1)));
    let (keys, vals) = map.into_parts();
    assert_eq!(keys.len(), 2);
    assert_eq!(vals.len(), 2);
}
