//! The gas meter and the prices that the call and create instructions pay.
use crate::journal::StateLoad;
use crate::journal_model::AccountLoad;
use crate::primitives::SpecId;
use vstd::prelude::*;

verus! {

/// Gas given to the receiver of a call that carries value.
pub const CALL_STIPEND: u64 = 2300;

/// Base price of a create.
pub const CREATE: u64 = 32000;

/// Price of each word of init code.
pub const INITCODE_WORD_COST: u64 = 2;

/// Price of each word that is hashed.
pub const KECCAK256WORD: u64 = 6;

/// Surcharge for a call that carries value.
pub const CALLVALUE: u64 = 9000;

/// Surcharge for a call that brings an account into being.
pub const NEWACCOUNT: u64 = 25000;

/// Price of the first access to an account in a transaction.
pub const COLD_ACCOUNT_ACCESS_COST: u64 = 2600;

/// Price of a later access to an account.
pub const WARM_STORAGE_READ_COST: u64 = 100;

/// Price of each word of memory.
pub const MEMORY: u64 = 3;

/// The number of 32-byte words that `len` bytes take up.
pub open spec fn spec_num_words(len: usize) -> usize {
    (if len as int + 31 > usize::MAX {
        usize::MAX as int / 32
    } else {
        (len as int + 31) / 32
    }) as usize
}

/// The number of 32-byte words that `len` bytes take up.
#[verifier::when_used_as_spec(spec_num_words)]
pub fn num_words(len: usize) -> (r: usize)
    ensures
        r == spec_num_words(len),
        r as int * 32 <= usize::MAX,
        len as int + 31 <= usize::MAX ==> r as int * 32 >= len,
{
    let padded: usize = if len > usize::MAX - 31 {
        usize::MAX
    } else {
        len + 31
    };
    padded / 32
}

/// The price of a memory of `words` words: three a word, and a
/// five-hundred-and-twelfth of the square of their number; each product is
/// capped at `u64::MAX`, and so is the sum.
pub open spec fn spec_memory_gas(words: usize) -> u64 {
    let linear = if MEMORY as int * words as int > u64::MAX {
        u64::MAX as int
    } else {
        MEMORY as int * words as int
    };
    let square = if words as int * words as int > u64::MAX {
        u64::MAX as int
    } else {
        words as int * words as int
    };
    (if linear + square / 512 > u64::MAX {
        u64::MAX as int
    } else {
        linear + square / 512
    }) as u64
}

/// The price of a memory of `words` words.
#[verifier::when_used_as_spec(spec_memory_gas)]
pub fn memory_gas(words: usize) -> (r: u64)
    ensures
        r == spec_memory_gas(words),
{
    let words = words as u64;
    let linear: u64 = if words > u64::MAX / MEMORY {
        u64::MAX
    } else {
        MEMORY * words
    };
    let square: u64 = match words.checked_mul(words) {
        Some(product) => product,
        None => u64::MAX,
    };
    let quadratic = square / 512;
    if linear > u64::MAX - quadratic {
        u64::MAX
    } else {
        linear + quadratic
    }
}

/// A larger memory never costs less.
pub proof fn lemma_memory_gas_monotone(fewer: usize, more: usize)
    requires
        fewer <= more,
    ensures
        spec_memory_gas(fewer) <= spec_memory_gas(more),
{
    assert(fewer as int * fewer as int <= more as int * more as int) by (nonlinear_arith)
        requires
            0 <= fewer as int <= more as int,
    ;
}

/// `multiple` for each word of `len` bytes, or `None` where that passes
/// `u64::MAX`.
pub fn cost_per_word(len: usize, multiple: u64) -> (r: Option<u64>)
    ensures
        match r {
            Some(cost) => cost == multiple as int * spec_num_words(len) as int,
            None => multiple as int * spec_num_words(len) as int > u64::MAX,
        },
{
    multiple.checked_mul(num_words(len) as u64)
}

/// The price of `len` bytes of init code: two a word.
pub open spec fn spec_initcode_cost(len: usize) -> u64 {
    (INITCODE_WORD_COST as int * spec_num_words(len) as int) as u64
}

/// The price of `len` bytes of init code: two a word.
#[verifier::when_used_as_spec(spec_initcode_cost)]
pub fn initcode_cost(len: usize) -> (r: u64)
    ensures
        r == spec_initcode_cost(len),
        r == INITCODE_WORD_COST as int * spec_num_words(len) as int,
{
    let words = num_words(len) as u64;
    INITCODE_WORD_COST * words
}

/// The base price of a `CREATE2` over `len` bytes of init code: the price
/// of a create and six a word for the hash; `None` where that passes
/// `u64::MAX`.
pub open spec fn spec_create2_cost(len: usize) -> Option<u64> {
    let cost = CREATE as int + KECCAK256WORD as int * spec_num_words(len) as int;
    if cost > u64::MAX {
        None
    } else {
        Some(cost as u64)
    }
}

/// The base price of a `CREATE2` over `len` bytes of init code.
#[verifier::when_used_as_spec(spec_create2_cost)]
pub fn create2_cost(len: usize) -> (r: Option<u64>)
    ensures
        r == spec_create2_cost(len),
{
    match cost_per_word(len, KECCAK256WORD) {
        Some(hash_cost) => CREATE.checked_add(hash_cost),
        None => None,
    }
}

pub open spec fn spec_warm_cold_cost(is_cold: bool) -> u64 {
    if is_cold {
        COLD_ACCOUNT_ACCESS_COST
    } else {
        WARM_STORAGE_READ_COST
    }
}

/// The price of an access to an account.
#[verifier::when_used_as_spec(spec_warm_cold_cost)]
pub fn warm_cold_cost(is_cold: bool) -> (r: u64)
    ensures
        r == spec_warm_cold_cost(is_cold),
{
    if is_cold {
        COLD_ACCOUNT_ACCESS_COST
    } else {
        WARM_STORAGE_READ_COST
    }
}

/// The price of the access that a call makes to its target: the price
/// of the access to the account and, where it delegates, of the access to
/// its delegate.
pub open spec fn spec_warm_cold_cost_with_delegation(load: StateLoad<AccountLoad>) -> u64 {
    (spec_warm_cold_cost(load.is_cold) + match load.data.is_delegate_account_cold {
        Some(is_cold) => spec_warm_cold_cost(is_cold),
        None => 0,
    }) as u64
}

/// The price of the access that a call makes to its target.
pub fn warm_cold_cost_with_delegation(load: &StateLoad<AccountLoad>) -> (r: u64)
    ensures
        r == spec_warm_cold_cost_with_delegation(*load),
{
    let mut gas = warm_cold_cost(load.is_cold);
    match load.data.is_delegate_account_cold {
        Some(is_cold) => {
            gas = gas + warm_cold_cost(is_cold);
        },
        None => {},
    }
    gas
}

/// The price of a call before any gas is handed to the callee. The
/// access costs 40 before Tangerine, 700 from Tangerine on, and from Berlin
/// on what the load of the target found: warm or cold, with or without a
/// delegate. A transfer of value adds `CALLVALUE`, and `NEWACCOUNT` on top
/// where the receiver counts as empty.
pub open spec fn spec_call_cost(spec_id: SpecId, transfers_value: bool, load: StateLoad<AccountLoad>) -> u64 {
    let access = if spec_id.is_enabled_in(SpecId::BERLIN) {
        spec_warm_cold_cost_with_delegation(load) as int
    } else if spec_id.is_enabled_in(SpecId::TANGERINE) {
        700
    } else {
        40
    };
    let transfer = if transfers_value {
        CALLVALUE as int
    } else {
        0
    };
    let new_account = if transfers_value && load.data.is_empty {
        NEWACCOUNT as int
    } else {
        0
    };
    (access + transfer + new_account) as u64
}

/// The price of a call before any gas is handed to the callee.
pub fn call_cost(spec_id: SpecId, transfers_value: bool, load: &StateLoad<AccountLoad>) -> (r: u64)
    ensures
        r == spec_call_cost(spec_id, transfers_value, *load),
{
    let mut gas: u64 = if spec_id.is_enabled_in(SpecId::BERLIN) {
        warm_cold_cost_with_delegation(load)
    } else if spec_id.is_enabled_in(SpecId::TANGERINE) {
        700
    } else {
        40
    };
    if transfers_value {
        gas = gas + CALLVALUE;
        if load.data.is_empty {
            gas = gas + NEWACCOUNT;
        }
    }
    gas
}

/// What memory has cost so far.
#[derive(Clone, Copy, Debug, PartialEq, Eq, Structural, Hash)]
pub struct MemoryGas {
    /// The size of the memory in words.
    pub words_num: usize,
    /// The price paid for that size.
    pub expansion_cost: u64,
}

/// The gas of one frame.
#[derive(Clone, Copy, Debug, PartialEq, Eq, Structural, Hash)]
pub struct Gas {
    /// What the frame was given.
    pub limit: u64,
    /// What is left of it.
    pub remaining: u64,
    /// What is to be refunded at the end of the transaction.
    pub refunded: i64,
    pub memory: MemoryGas,
}

impl Gas {
    /// Whether the meter is consistent: no more is left than was given, and
    /// the price recorded for the memory is the price of its size.
    pub open spec fn wf(self) -> bool {
        &&& self.remaining <= self.limit
        &&& self.memory.expansion_cost == spec_memory_gas(self.memory.words_num)
    }

    pub open spec fn spec_new(limit: u64) -> Gas {
        Gas { limit, remaining: limit, refunded: 0, memory: MemoryGas { words_num: 0, expansion_cost: 0 } }
    }

    /// A meter with all of `limit` left.
    #[verifier::when_used_as_spec(spec_new)]
    pub fn new(limit: u64) -> (r: Gas)
        ensures
            r == Self::spec_new(limit),
            r.wf(),
    {
        Gas { limit, remaining: limit, refunded: 0, memory: MemoryGas { words_num: 0, expansion_cost: 0 } }
    }

    pub open spec fn spec_new_spent(limit: u64) -> Gas {
        Gas { limit, remaining: 0, refunded: 0, memory: MemoryGas { words_num: 0, expansion_cost: 0 } }
    }

    /// A meter with all of `limit` spent.
    #[verifier::when_used_as_spec(spec_new_spent)]
    pub fn new_spent(limit: u64) -> (r: Gas)
        ensures
            r == Self::spec_new_spent(limit),
            r.wf(),
    {
        Gas { limit, remaining: 0, refunded: 0, memory: MemoryGas { words_num: 0, expansion_cost: 0 } }
    }

    /// What the frame was given.
    pub fn limit(&self) -> (r: u64)
        ensures
            r == self.limit,
    {
        self.limit
    }

    /// What is left.
    pub fn remaining(&self) -> (r: u64)
        ensures
            r == self.remaining,
    {
        self.remaining
    }

    /// What is recorded as refund.
    pub fn refunded(&self) -> (r: i64)
        ensures
            r == self.refunded,
    {
        self.refunded
    }

    pub open spec fn spec_spent(&self) -> u64 {
        (self.limit - self.remaining) as u64
    }

    /// What has been spent.
    #[verifier::when_used_as_spec(spec_spent)]
    pub fn spent(&self) -> (r: u64)
        requires
            self.remaining <= self.limit,
        ensures
            r == self.spec_spent(),
    {
        self.limit - self.remaining
    }

    pub open spec fn spec_remaining_63_of_64_parts(&self) -> u64 {
        (self.remaining - self.remaining / 64) as u64
    }

    /// What is left, less a sixty-fourth of it.
    #[verifier::when_used_as_spec(spec_remaining_63_of_64_parts)]
    pub fn remaining_63_of_64_parts(&self) -> (r: u64)
        ensures
            r == self.spec_remaining_63_of_64_parts(),
    {
        self.remaining - self.remaining / 64
    }

    /// The meter after `cost` is paid, for `cost` no more than what is left.
    pub open spec fn charged(self, cost: u64) -> Gas {
        Gas { remaining: (self.remaining - cost) as u64, ..self }
    }

    /// Pays `cost`; `false`, and nothing paid, where less is left.
    pub fn record_cost(&mut self, cost: u64) -> (paid: bool)
        ensures
            paid == (cost <= old(self).remaining),
            paid ==> *final(self) == old(self).charged(cost),
            !paid ==> *final(self) == *old(self),
    {
        if self.remaining < cost {
            return false;
        }
        self.remaining = self.remaining - cost;
        true
    }

    /// Gives back `returned`, which was paid before.
    pub fn erase_cost(&mut self, returned: u64)
        requires
            old(self).remaining + returned <= old(self).limit,
        ensures
            *final(self)
                == (Gas { remaining: (old(self).remaining + returned) as u64, ..*old(self) }),
    {
        self.remaining = self.remaining + returned;
    }

    /// Adds `refund` to what is to be refunded.
    pub fn record_refund(&mut self, refund: i64)
        requires
            i64::MIN <= old(self).refunded + refund <= i64::MAX,
        ensures
            *final(self) == (Gas { refunded: (old(self).refunded + refund) as i64, ..*old(self) }),
    {
        self.refunded = self.refunded + refund;
    }

    /// The refund that is paid out at the end: what was recorded, but no
    /// more than a fifth of what was spent from London on, and no more than
    /// half of it before; a negative record counts as none.
    pub open spec fn final_refund(self, is_london: bool) -> i64 {
        let max_refund_quotient: int = if is_london {
            5
        } else {
            2
        };
        let recorded: int = if self.refunded < 0 {
            0
        } else {
            self.refunded as int
        };
        let cap = self.spec_spent() as int / max_refund_quotient;
        (if recorded < cap {
            recorded
        } else {
            cap
        }) as i64
    }

    /// Caps the refund: see [`final_refund`](Self::final_refund).
    pub fn set_final_refund(&mut self, is_london: bool)
        requires
            old(self).remaining <= old(self).limit,
        ensures
            *final(self) == (Gas { refunded: old(self).final_refund(is_london), ..*old(self) }),
    {
        let max_refund_quotient: u64 = if is_london {
            5
        } else {
            2
        };
        let recorded: u64 = if self.refunded < 0 {
            0
        } else {
            self.refunded as u64
        };
        let cap = self.spent() / max_refund_quotient;
        let refund = if recorded < cap {
            recorded
        } else {
            cap
        };
        self.refunded = refund as i64;
    }

    /// Sets what has been spent, for `spent` no more than the limit.
    pub fn set_spent(&mut self, spent: u64)
        requires
            spent <= old(self).limit,
        ensures
            *final(self) == (Gas { remaining: (old(self).limit - spent) as u64, ..*old(self) }),
    {
        self.remaining = self.limit - spent;
    }

    /// The meter after the memory has grown to `words` words, for `words`
    /// more than it had, and before the growth is paid.
    pub open spec fn memory_grown(self, words: usize) -> Gas {
        Gas { memory: MemoryGas { words_num: words, expansion_cost: spec_memory_gas(words) }, ..self }
    }

    /// The price of growing the memory to `words` words.
    pub open spec fn growth_cost(self, words: usize) -> u64 {
        (spec_memory_gas(words) - self.memory.expansion_cost) as u64
    }

    /// Records that the memory has `words` words and hands back what the
    /// growth costs; `None`, and nothing recorded, where the memory is that
    /// large already.
    pub fn record_new_len(&mut self, words: usize) -> (r: Option<u64>)
        requires
            old(self).wf(),
        ensures
            final(self).wf(),
            match r {
                Some(cost) => words > old(self).memory.words_num && cost == old(self).growth_cost(
                    words,
                ) && *final(self) == old(self).memory_grown(words),
                None => words <= old(self).memory.words_num && *final(self) == *old(self),
            },
    {
        if words <= self.memory.words_num {
            return None;
        }
        proof {
            lemma_memory_gas_monotone(self.memory.words_num, words);
        }
        let new_cost = memory_gas(words);
        let old_cost = self.memory.expansion_cost;
        self.memory.words_num = words;
        self.memory.expansion_cost = new_cost;
        Some(new_cost - old_cost)
    }
}

} // verus!
