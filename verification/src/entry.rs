//! The entries of the journal: one per change that can be undone.
use crate::primitives::{wrapping_diff, wrapping_sum, Address, StorageKey, StorageValue, B256, U256};
use crate::state::{
    lemma_state_model_insert, state_model, AccountModel, AccountStatus, EvmState, StateModel,
    TransientStorage,
};
use crate::vec_map::SlotId;
use vstd::prelude::*;

verus! {

/// Which of the two destruction marks a selfdestruct raised.
#[derive(Clone, Copy, Debug, PartialEq, Eq, Structural, Hash)]
pub enum SelfdestructionRevertStatus {
    /// The account had never been destroyed: both marks were raised.
    GloballySelfdestroyed,
    /// The account had been destroyed by an earlier transaction: only the
    /// local mark was raised.
    LocallySelfdestroyed,
    /// The account had been destroyed by this transaction already: no mark
    /// was raised.
    RepeatedSelfdestruction,
}

/// One change to the state, with what is needed to undo it.
#[derive(Clone, Copy, Debug, PartialEq, Eq, Structural, Hash)]
pub enum JournalEntry {
    /// A cold account was loaded.
    AccountWarmed { address: Address },
    /// The touched mark of an account was raised.
    AccountTouched { address: Address },
    /// An account destroyed itself and sent `had_balance` to `target`.
    AccountDestroyed {
        address: Address,
        target: Address,
        status: SelfdestructionRevertStatus,
        had_balance: U256,
    },
    /// An account was created; `was_globally_created` says whether it
    /// carried the global creation mark before.
    AccountCreated { address: Address, was_globally_created: bool },
    /// The balance of an account was `old_balance` before the change.
    BalanceChanged { address: Address, old_balance: U256 },
    /// The nonce of an account went up by one.
    NonceChanged { address: Address },
    /// `amount` went from `from` to `to`.
    BalanceTransfer { from: Address, to: Address, amount: U256 },
    /// Code was installed on an account that had none.
    CodeChanged { address: Address },
    /// A cold storage slot was loaded.
    StorageWarmed { address: Address, key: StorageKey },
    /// The slot held `old_value` before the change.
    StorageChanged { address: Address, key: StorageKey, old_value: StorageValue },
    /// The transient slot held `old_value` before the change.
    TransientStorageChanged { address: Address, key: StorageKey, old_value: StorageValue },
}

/// The account after the destruction that `status` describes is taken back:
/// the marks that the destruction raised are cleared and `had_balance`
/// returns.
pub open spec fn undestroyed(
    account: AccountModel,
    status: SelfdestructionRevertStatus,
    had_balance: U256,
) -> AccountModel {
    let marks = match status {
        SelfdestructionRevertStatus::GloballySelfdestroyed => AccountStatus {
            selfdestructed_locally: false,
            selfdestructed_globally: false,
            ..account.status
        },
        SelfdestructionRevertStatus::LocallySelfdestroyed => AccountStatus {
            selfdestructed_locally: false,
            ..account.status
        },
        SelfdestructionRevertStatus::RepeatedSelfdestruction => account.status,
    };
    account.with_status(marks).with_balance(wrapping_sum(account.info.balance, had_balance))
}

/// The account after its creation is taken back.
pub open spec fn uncreated(account: AccountModel, was_globally_created: bool) -> AccountModel {
    account.with_status(
        AccountStatus {
            created_locally: false,
            created_globally: was_globally_created && account.status.created_globally,
            ..account.status
        },
    ).with_nonce(0).with_code(None)
}

/// `state` with `amount` added to the balance of `address`, modulo `2^256`;
/// unchanged where there is no such account.
pub open spec fn credited(state: StateModel, address: Address, amount: U256) -> StateModel {
    if state.contains_key(address) {
        state.insert(
            address,
            state[address].with_balance(wrapping_sum(state[address].info.balance, amount)),
        )
    } else {
        state
    }
}

/// `state` with `amount` taken from the balance of `address`, modulo
/// `2^256`; unchanged where there is no such account.
pub open spec fn debited(state: StateModel, address: Address, amount: U256) -> StateModel {
    if state.contains_key(address) {
        state.insert(
            address,
            state[address].with_balance(wrapping_diff(state[address].info.balance, amount)),
        )
    } else {
        state
    }
}

impl JournalEntry {
    /// The account that the entry is about (for a transfer, the sender).
    pub open spec fn subject(self) -> Address {
        match self {
            JournalEntry::AccountWarmed { address } => address,
            JournalEntry::AccountTouched { address } => address,
            JournalEntry::AccountDestroyed { address, .. } => address,
            JournalEntry::AccountCreated { address, .. } => address,
            JournalEntry::BalanceChanged { address, .. } => address,
            JournalEntry::NonceChanged { address } => address,
            JournalEntry::BalanceTransfer { from, .. } => from,
            JournalEntry::CodeChanged { address } => address,
            JournalEntry::StorageWarmed { address, .. } => address,
            JournalEntry::StorageChanged { address, .. } => address,
            JournalEntry::TransientStorageChanged { address, .. } => address,
        }
    }

    /// What undoing the entry makes of the subject's account.
    pub open spec fn undo_on_subject(self, account: AccountModel) -> AccountModel {
        match self {
            JournalEntry::AccountWarmed { .. } => account.marked_cold(),
            JournalEntry::AccountTouched { .. } => account.untouched(),
            JournalEntry::AccountDestroyed { status, had_balance, .. } => undestroyed(
                account,
                status,
                had_balance,
            ),
            JournalEntry::AccountCreated { was_globally_created, .. } => uncreated(
                account,
                was_globally_created,
            ),
            JournalEntry::BalanceChanged { old_balance, .. } => account.with_balance(old_balance),
            JournalEntry::NonceChanged { .. } => account.with_nonce(
                if account.info.nonce == 0 {
                    u64::MAX
                } else {
                    (account.info.nonce - 1) as u64
                },
            ),
            JournalEntry::BalanceTransfer { amount, .. } => account.with_balance(
                wrapping_sum(account.info.balance, amount),
            ),
            JournalEntry::CodeChanged { .. } => AccountModel {
                info: crate::state::AccountInfoModel {
                    code: None,
                    code_hash: B256::spec_keccak_empty(),
                    ..account.info
                },
                ..account
            },
            JournalEntry::StorageWarmed { key, .. } => account.with_storage(
                account.storage.remove(key),
            ),
            JournalEntry::StorageChanged { key, old_value, .. } => if account.storage.contains_key(
                key,
            ) {
                account.with_storage(
                    account.storage.insert(
                        key,
                        crate::state::StorageSlot { present_value: old_value, ..account.storage[key] },
                    ),
                )
            } else {
                account
            },
            JournalEntry::TransientStorageChanged { .. } => account,
        }
    }

    /// The account, other than the subject, whose balance the entry took
    /// from or gave to, and the amount that goes back out of it.
    pub open spec fn counterparty(self) -> Option<(Address, U256)> {
        match self {
            JournalEntry::AccountDestroyed { address, target, had_balance, .. } => if address
                != target {
                Some((target, had_balance))
            } else {
                None
            },
            JournalEntry::BalanceTransfer { to, amount, .. } => Some((to, amount)),
            _ => None,
        }
    }

    /// The state after the entry is undone. An entry about an account that
    /// the state does not hold leaves that account out; an entry about
    /// transient storage leaves the state as it is.
    pub open spec fn undo_state(self, state: StateModel) -> StateModel {
        let first = if state.contains_key(self.subject()) {
            state.insert(self.subject(), self.undo_on_subject(state[self.subject()]))
        } else {
            state
        };
        match self.counterparty() {
            Some((address, amount)) => debited(first, address, amount),
            None => first,
        }
    }

    /// Transient storage after the entry is undone: a transient slot goes
    /// back to its old value, and is dropped where that was zero.
    pub open spec fn undo_transient(self, transient: Map<SlotId, StorageValue>) -> Map<
        SlotId,
        StorageValue,
    > {
        match self {
            JournalEntry::TransientStorageChanged { address, key, old_value } => {
                if old_value == U256::spec_zero() {
                    transient.remove(SlotId { address, key })
                } else {
                    transient.insert(SlotId { address, key }, old_value)
                }
            },
            _ => transient,
        }
    }

    /// Undoes the entry on `state` and, where it is given, on
    /// `transient_storage`. Balances move back modulo `2^256`, a nonce goes
    /// back by one modulo `2^64`. The flag for Spurious Dragon changes
    /// nothing: the state is cleared of empty accounts only when it is
    /// handed out, so an undone touch has nothing more to put back under
    /// either rule.
    pub fn revert(
        self,
        state: &mut EvmState,
        transient_storage: Option<&mut TransientStorage>,
        is_spurious_dragon_enabled: bool,
    )
        ensures
            state_model(final(state)@) == self.undo_state(state_model(old(state)@)),
            match transient_storage {
                Some(transient) => final(transient)@ == self.undo_transient(transient@),
                None => true,
            },
    {
        let _ = is_spurious_dragon_enabled;
        match transient_storage {
            Some(transient) => {
                self.revert_transient(transient);
            },
            None => {},
        }
        self.revert_state(state);
    }

    /// Undoes on `transient_storage` an entry about transient storage.
    pub fn revert_transient(self, transient_storage: &mut TransientStorage)
        ensures
            final(transient_storage)@ == self.undo_transient(old(transient_storage)@),
    {
        match self {
            JournalEntry::TransientStorageChanged { address, key, old_value } => {
                let slot = SlotId { address, key };
                if old_value.is_zero() {
                    transient_storage.remove(&slot);
                } else {
                    transient_storage.insert(slot, old_value);
                }
            },
            _ => {},
        }
    }

    /// Undoes on `state` an entry about an account.
    pub fn revert_state(self, state: &mut EvmState)
        ensures
            state_model(final(state)@) == self.undo_state(state_model(old(state)@)),
    {
        let ghost before = state@;
        match self {
            JournalEntry::AccountWarmed { address } => {
                match state.get_mut(&address) {
                    Some(account) => {
                        account.mark_cold();
                    },
                    None => {},
                }
                proof {
                    if before.contains_key(address) {
                        lemma_state_model_insert(before, address, state@[address]);
                    }
                }
            },
            JournalEntry::AccountTouched { address } => {
                match state.get_mut(&address) {
                    Some(account) => {
                        account.unmark_touch();
                    },
                    None => {},
                }
                proof {
                    if before.contains_key(address) {
                        lemma_state_model_insert(before, address, state@[address]);
                    }
                }
            },
            JournalEntry::AccountDestroyed { address, target, status, had_balance } => {
                match state.get_mut(&address) {
                    Some(account) => {
                        match status {
                            SelfdestructionRevertStatus::GloballySelfdestroyed => {
                                account.status.selfdestructed_globally = false;
                                account.status.selfdestructed_locally = false;
                            },
                            SelfdestructionRevertStatus::LocallySelfdestroyed => {
                                account.status.selfdestructed_locally = false;
                            },
                            SelfdestructionRevertStatus::RepeatedSelfdestruction => {},
                        }
                        account.info.balance = account.info.balance.wrapping_add(had_balance);
                    },
                    None => {},
                }
                let ghost middle = state@;
                proof {
                    if before.contains_key(address) {
                        lemma_state_model_insert(before, address, state@[address]);
                    }
                }
                if address != target {
                    match state.get_mut(&target) {
                        Some(account) => {
                            account.info.balance = account.info.balance.wrapping_sub(had_balance);
                        },
                        None => {},
                    }
                    proof {
                        if middle.contains_key(target) {
                            lemma_state_model_insert(middle, target, state@[target]);
                        }
                    }
                }
            },
            JournalEntry::AccountCreated { address, was_globally_created } => {
                match state.get_mut(&address) {
                    Some(account) => {
                        account.status.created_locally = false;
                        if !was_globally_created {
                            account.status.created_globally = false;
                        }
                        account.info.nonce = 0;
                        account.info.code = None;
                    },
                    None => {},
                }
                proof {
                    if before.contains_key(address) {
                        lemma_state_model_insert(before, address, state@[address]);
                    }
                }
            },
            JournalEntry::BalanceChanged { address, old_balance } => {
                match state.get_mut(&address) {
                    Some(account) => {
                        account.info.balance = old_balance;
                    },
                    None => {},
                }
                proof {
                    if before.contains_key(address) {
                        lemma_state_model_insert(before, address, state@[address]);
                    }
                }
            },
            JournalEntry::NonceChanged { address } => {
                match state.get_mut(&address) {
                    Some(account) => {
                        account.info.nonce = if account.info.nonce == 0 {
                            u64::MAX
                        } else {
                            account.info.nonce - 1
                        };
                    },
                    None => {},
                }
                proof {
                    if before.contains_key(address) {
                        lemma_state_model_insert(before, address, state@[address]);
                    }
                }
            },
            JournalEntry::BalanceTransfer { from, to, amount } => {
                match state.get_mut(&from) {
                    Some(account) => {
                        account.info.balance = account.info.balance.wrapping_add(amount);
                    },
                    None => {},
                }
                let ghost middle = state@;
                proof {
                    if before.contains_key(from) {
                        lemma_state_model_insert(before, from, state@[from]);
                    }
                }
                match state.get_mut(&to) {
                    Some(account) => {
                        account.info.balance = account.info.balance.wrapping_sub(amount);
                    },
                    None => {},
                }
                proof {
                    if middle.contains_key(to) {
                        lemma_state_model_insert(middle, to, state@[to]);
                    }
                }
            },
            JournalEntry::CodeChanged { address } => {
                match state.get_mut(&address) {
                    Some(account) => {
                        account.info.code_hash = B256::keccak_empty();
                        account.info.code = None;
                    },
                    None => {},
                }
                proof {
                    if before.contains_key(address) {
                        lemma_state_model_insert(before, address, state@[address]);
                    }
                }
            },
            JournalEntry::StorageWarmed { address, key } => {
                match state.get_mut(&address) {
                    Some(account) => {
                        account.storage.remove(&key);
                    },
                    None => {},
                }
                proof {
                    if before.contains_key(address) {
                        lemma_state_model_insert(before, address, state@[address]);
                    }
                }
            },
            JournalEntry::StorageChanged { address, key, old_value } => {
                match state.get_mut(&address) {
                    Some(account) => {
                        match account.storage.get_mut(&key) {
                            Some(slot) => {
                                slot.present_value = old_value;
                            },
                            None => {},
                        }
                    },
                    None => {},
                }
                proof {
                    if before.contains_key(address) {
                        lemma_state_model_insert(before, address, state@[address]);
                    }
                }
            },
            JournalEntry::TransientStorageChanged { .. } => {},
        }
    }
}

} // verus!
