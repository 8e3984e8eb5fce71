//! The mathematical model of the journal: what each operation makes of the
//! state, of the journal entries and of the other fields.
use crate::entry::{uncreated, JournalEntry, SelfdestructionRevertStatus};
use crate::primitives::{
    saturating_sum, word_max, wrapping_diff, wrapping_sum, Address, EvmLog, SpecId, StorageKey,
    StorageValue, B256, U256,
};
use crate::state::{AccountInfoModel, AccountModel, BytecodeModel, StateModel};
use crate::vec_map::SlotId;
use vstd::prelude::*;

verus! {

/// Why a transfer of value did not take place.
#[derive(Clone, Copy, Debug, PartialEq, Eq, Structural, Hash)]
pub enum TransferError {
    /// The sender has less than the amount.
    OutOfFunds,
    /// The receiver's balance would pass `2^256 - 1`.
    OverflowPayment,
    /// The address of a new contract is taken.
    CreateCollision,
}

/// The lengths of the log list and of the journal at one moment.
#[derive(Clone, Copy, Debug, PartialEq, Eq, Structural, Hash)]
pub struct JournalCheckpoint {
    pub log_i: usize,
    pub journal_i: usize,
}

/// What a store to storage found and did.
#[derive(Clone, Copy, Debug, PartialEq, Eq, Structural, Hash)]
pub struct SStoreResult {
    /// The value at the first touch of the slot in this transaction.
    pub original_value: StorageValue,
    /// The value before the store.
    pub present_value: StorageValue,
    /// The value stored.
    pub new_value: StorageValue,
}

/// What a selfdestruct found.
#[derive(Clone, Copy, Debug, PartialEq, Eq, Structural, Hash)]
pub struct SelfDestructResult {
    /// The destroyed account had a balance.
    pub had_value: bool,
    /// The receiver did not count as empty.
    pub target_exists: bool,
    /// The account had destroyed itself in this transaction before.
    pub previously_destroyed: bool,
}

/// What a load of an account for a call found.
#[derive(Clone, Copy, Debug, PartialEq, Eq, Structural, Hash)]
pub struct AccountLoad {
    /// Whether the account that the code delegates to was cold, where the
    /// code is a delegation.
    pub is_delegate_account_cold: Option<bool>,
    /// Whether the account counts as empty.
    pub is_empty: bool,
}

/// The state after `entries` are undone, the last one first.
pub open spec fn undo_all(state: StateModel, entries: Seq<JournalEntry>) -> StateModel
    decreases entries.len(),
{
    if entries.len() == 0 {
        state
    } else {
        undo_all(entries.last().undo_state(state), entries.drop_last())
    }
}

/// Transient storage after `entries` are undone, the last one first.
pub open spec fn undo_all_transient(
    transient: Map<SlotId, StorageValue>,
    entries: Seq<JournalEntry>,
) -> Map<SlotId, StorageValue>
    decreases entries.len(),
{
    if entries.len() == 0 {
        transient
    } else {
        undo_all_transient(entries.last().undo_transient(transient), entries.drop_last())
    }
}

/// Undoing a list of entries that ends in `entry` is undoing `entry` and
/// then the rest.
pub proof fn lemma_undo_all_push(
    state: StateModel,
    transient: Map<SlotId, StorageValue>,
    entries: Seq<JournalEntry>,
    entry: JournalEntry,
)
    ensures
        undo_all(state, entries.push(entry)) == undo_all(entry.undo_state(state), entries),
        undo_all_transient(transient, entries.push(entry)) == undo_all_transient(
            entry.undo_transient(transient),
            entries,
        ),
        undo_all(state, Seq::empty()) == state,
        undo_all_transient(transient, Seq::empty()) == transient,
{
    assert(entries.push(entry).last() == entry);
    assert(entries.push(entry).drop_last() =~= entries);
}

/// Undoing two lists of entries, one after the other, is undoing the later
/// list and then the earlier one.
pub proof fn lemma_undo_all_concat(
    state: StateModel,
    transient: Map<SlotId, StorageValue>,
    earlier: Seq<JournalEntry>,
    later: Seq<JournalEntry>,
)
    ensures
        undo_all(state, earlier + later) == undo_all(undo_all(state, later), earlier),
        undo_all_transient(transient, earlier + later) == undo_all_transient(
            undo_all_transient(transient, later),
            earlier,
        ),
    decreases later.len(),
{
    if later.len() == 0 {
        assert(earlier + later =~= earlier);
    } else {
        let last = later.last();
        assert((earlier + later).last() == last);
        assert((earlier + later).drop_last() =~= earlier + later.drop_last());
        lemma_undo_all_concat(
            last.undo_state(state),
            last.undo_transient(transient),
            earlier,
            later.drop_last(),
        );
    }
}

/// Loads of slots that get by without the database give the same journal
/// whatever the database would have answered.
pub proof fn lemma_slots_without_database(
    j: JournalModel,
    address: Address,
    keys: Seq<StorageKey>,
    fetched: Seq<StorageValue>,
    other: Seq<StorageValue>,
)
    requires
        j.slots_ask_nothing(address, keys, fetched),
    ensures
        j.slots_ask_nothing(address, keys, other),
        j.sload_all(address, keys, fetched) == j.sload_all(address, keys, other),
    decreases keys.len(),
{
    if keys.len() > 0 {
        lemma_slots_without_database(
            j,
            address,
            keys.drop_last(),
            fetched.drop_last(),
            other.drop_last(),
        );
    }
}

/// Where the loads of some slots get by without the database, so do the
/// loads of the first `n` of them.
pub proof fn lemma_slots_prefix_asks_nothing(
    j: JournalModel,
    address: Address,
    keys: Seq<StorageKey>,
    fetched: Seq<StorageValue>,
    n: int,
    other: Seq<StorageValue>,
)
    requires
        j.slots_ask_nothing(address, keys, fetched),
        0 <= n <= keys.len(),
    ensures
        j.slots_ask_nothing(address, keys.subrange(0, n), other),
    decreases keys.len(),
{
    if n == keys.len() {
        assert(keys.subrange(0, n) =~= keys);
        lemma_slots_without_database(j, address, keys, fetched, other);
    } else {
        lemma_slots_prefix_asks_nothing(
            j,
            address,
            keys.drop_last(),
            fetched.drop_last(),
            n,
            other,
        );
        assert(keys.drop_last().subrange(0, n) =~= keys.subrange(0, n));
    }
}

/// The status that a selfdestruct of `account` records.
pub open spec fn destroyed_status_of(account: AccountModel) -> SelfdestructionRevertStatus {
    if !account.status.selfdestructed_globally {
        SelfdestructionRevertStatus::GloballySelfdestroyed
    } else if !account.status.selfdestructed_locally {
        SelfdestructionRevertStatus::LocallySelfdestroyed
    } else {
        SelfdestructionRevertStatus::RepeatedSelfdestruction
    }
}

/// The count of transactions after one more; it starts over after
/// `usize::MAX`.
pub open spec fn next_transaction_id(transaction_id: usize) -> usize {
    if transaction_id == usize::MAX {
        0
    } else {
        (transaction_id + 1) as usize
    }
}

/// Whether transient storage holds no zero.
pub open spec fn free_of_zero(transient: Map<SlotId, StorageValue>) -> bool {
    forall|slot: SlotId| #[trigger]
        transient.contains_key(slot) ==> transient[slot] != U256::spec_zero()
}

/// What a [`crate::journal::JournalInner`] holds.
pub struct JournalModel {
    pub state: StateModel,
    pub transient_storage: Map<SlotId, StorageValue>,
    pub logs: Seq<EvmLog>,
    pub depth: usize,
    pub journal: Seq<JournalEntry>,
    pub transaction_id: usize,
    pub spec: SpecId,
    pub warm_preloaded_addresses: Set<Address>,
    pub warm_coinbase_address: Option<Address>,
    pub precompiles: Set<Address>,
}

impl JournalModel {
    /// The journal with nothing in it, as it is created.
    pub open spec fn empty() -> JournalModel {
        JournalModel {
            state: Map::empty(),
            transient_storage: Map::empty(),
            logs: Seq::empty(),
            depth: 0,
            journal: Seq::empty(),
            transaction_id: 0,
            spec: SpecId::PRAGUE,
            warm_preloaded_addresses: Set::empty(),
            warm_coinbase_address: None,
            precompiles: Set::empty(),
        }
    }

    /// What holds of every journal between operations: the warm addresses
    /// include every precompile, and transient storage holds no zero.
    pub open spec fn wf(self) -> bool {
        &&& self.precompiles.subset_of(self.warm_preloaded_addresses)
        &&& free_of_zero(self.transient_storage)
    }

    /// The journal with `entry` appended to its entries.
    pub open spec fn with_entry(self, entry: JournalEntry) -> JournalModel {
        JournalModel { journal: self.journal.push(entry), ..self }
    }

    /// The journal with `state` in place of its state.
    pub open spec fn with_state(self, state: StateModel) -> JournalModel {
        JournalModel { state, ..self }
    }

    /// The journal with `account` held at `address`.
    pub open spec fn with_account(self, address: Address, account: AccountModel) -> JournalModel {
        JournalModel { state: self.state.insert(address, account), ..self }
    }

    // ----- transaction boundaries -----
    /// The fields that every transaction boundary resets, `state` apart.
    pub open spec fn next_transaction(self, transaction_id: usize) -> JournalModel {
        JournalModel {
            transient_storage: Map::empty(),
            logs: Seq::empty(),
            depth: 0,
            journal: Seq::empty(),
            transaction_id,
            warm_preloaded_addresses: self.precompiles,
            warm_coinbase_address: None,
            ..self
        }
    }

    /// The journal after the transaction is committed: the state stays.
    pub open spec fn commit_tx(self) -> JournalModel {
        self.next_transaction(next_transaction_id(self.transaction_id))
    }

    /// The journal after the transaction is discarded: every entry is
    /// undone on the state.
    pub open spec fn discard_tx(self) -> JournalModel {
        self.with_state(undo_all(self.state, self.journal)).next_transaction(
            next_transaction_id(self.transaction_id),
        )
    }

    /// The journal after its state is handed out.
    pub open spec fn finalize(self) -> JournalModel {
        self.with_state(Map::empty()).next_transaction(0)
    }

    // ----- checkpoints -----
    /// The checkpoint that is handed out now: how many logs and how many
    /// entries there are.
    pub open spec fn checkpoint_mark(self) -> JournalCheckpoint {
        JournalCheckpoint { log_i: self.logs.len() as usize, journal_i: self.journal.len() as usize }
    }

    /// The journal after a checkpoint is opened.
    pub open spec fn checkpoint(self) -> JournalModel {
        JournalModel { depth: (self.depth + 1) as usize, ..self }
    }

    /// The journal after the innermost checkpoint is committed.
    pub open spec fn checkpoint_commit(self) -> JournalModel {
        JournalModel { depth: (self.depth - 1) as usize, ..self }
    }

    /// The journal after everything since `checkpoint` is undone: the
    /// entries from `checkpoint.journal_i` on are undone, the last one first,
    /// and dropped; the logs from `checkpoint.log_i` on are dropped.
    pub open spec fn checkpoint_revert(self, checkpoint: JournalCheckpoint) -> JournalModel {
        let undone = self.journal.subrange(checkpoint.journal_i as int, self.journal.len() as int);
        JournalModel {
            state: undo_all(self.state, undone),
            transient_storage: undo_all_transient(self.transient_storage, undone),
            logs: if checkpoint.log_i < self.logs.len() {
                self.logs.subrange(0, checkpoint.log_i as int)
            } else {
                self.logs
            },
            journal: self.journal.subrange(0, checkpoint.journal_i as int),
            depth: (self.depth - 1) as usize,
            ..self
        }
    }

    // ----- accounts -----
    /// The journal after `address` is touched: the mark is raised and
    /// journaled where the account is held and was not touched before.
    pub open spec fn touch(self, address: Address) -> JournalModel {
        if self.state.contains_key(address) && !self.state[address].status.touched {
            self.with_entry(JournalEntry::AccountTouched { address }).with_account(
                address,
                self.state[address].touched(),
            )
        } else {
            self
        }
    }

    /// Whether a load of `address` counts as cold: for an account in memory,
    /// whether this transaction has not loaded it yet; for any other, whether
    /// it is neither preloaded as warm nor the coinbase.
    pub open spec fn load_is_cold(self, address: Address) -> bool {
        if self.state.contains_key(address) {
            self.state[address].is_cold_for(self.transaction_id)
        } else {
            !self.warm_preloaded_addresses.contains(address) && self.warm_coinbase_address != Some(
                address,
            )
        }
    }

    /// The account that a load of `address` leaves in the state; `fetched` is
    /// what the database has for the address, and counts only where the
    /// account is not in memory.
    pub open spec fn loaded_account(
        self,
        address: Address,
        fetched: Option<AccountInfoModel>,
    ) -> AccountModel {
        if self.state.contains_key(address) {
            self.state[address].reloaded(self.transaction_id)
        } else {
            AccountModel::loaded(fetched, self.transaction_id)
        }
    }

    /// The journal after a load of `address`.
    pub open spec fn load_account(
        self,
        address: Address,
        fetched: Option<AccountInfoModel>,
    ) -> JournalModel {
        let loaded = self.with_account(address, self.loaded_account(address, fetched));
        if self.load_is_cold(address) {
            loaded.with_entry(JournalEntry::AccountWarmed { address })
        } else {
            loaded
        }
    }

    /// The journal after the code of `address`, an account in memory, is
    /// made present; `fetched_code` is what the database has for the
    /// account's code hash and counts only where the code is absent and the
    /// hash is not that of empty code.
    pub open spec fn load_code_of(self, address: Address, fetched_code: BytecodeModel)
        -> JournalModel {
        let account = self.state[address];
        if account.info.code is None {
            self.with_account(
                address,
                account.with_code(
                    Some(
                        if account.info.code_hash == B256::spec_keccak_empty() {
                            BytecodeModel::Empty
                        } else {
                            fetched_code
                        },
                    ),
                ),
            )
        } else {
            self
        }
    }

    /// Whether making the code of `address`, an account in memory, present
    /// asks the database: the code is absent and the hash is not that of
    /// empty code.
    pub open spec fn code_asks_database(self, address: Address) -> bool {
        self.state[address].info.code is None && self.state[address].info.code_hash
            != B256::spec_keccak_empty()
    }

    /// The journal after code and hash are installed on `address`, an
    /// account in memory.
    pub open spec fn set_code_with_hash(
        self,
        address: Address,
        code: BytecodeModel,
        hash: B256,
    ) -> JournalModel {
        let touched = self.touch(address).with_entry(JournalEntry::CodeChanged { address });
        touched.with_account(
            address,
            AccountModel {
                info: AccountInfoModel { code_hash: hash, code: Some(code), ..touched.state[address].info },
                ..touched.state[address]
            },
        )
    }

    /// The journal after `code` is installed on `address`: a delegation to
    /// the zero address erases the code.
    pub open spec fn set_code(self, address: Address, code: BytecodeModel) -> JournalModel {
        match code {
            BytecodeModel::Eip7702 { delegate } if delegate == Address::spec_zero() => {
                self.set_code_with_hash(address, BytecodeModel::Empty, B256::spec_keccak_empty())
            },
            _ => self.set_code_with_hash(address, code, code.code_hash()),
        }
    }

    /// The journal with the entries that account for a caller whose balance
    /// was `old_balance` before it paid, and whose nonce went up where
    /// `bump_nonce` is set.
    pub open spec fn caller_accounting_journal_entry(
        self,
        address: Address,
        old_balance: U256,
        bump_nonce: bool,
    ) -> JournalModel {
        let first = self.with_entry(JournalEntry::BalanceChanged { address, old_balance }).with_entry(
            JournalEntry::AccountTouched { address },
        );
        if bump_nonce {
            first.with_entry(JournalEntry::NonceChanged { address })
        } else {
            first
        }
    }

    /// The journal after `amount` is added to the balance of `address`,
    /// capped at `2^256 - 1`.
    pub open spec fn balance_incr(
        self,
        address: Address,
        amount: U256,
        fetched: Option<AccountInfoModel>,
    ) -> JournalModel {
        let touched = self.load_account(address, fetched).touch(address);
        let old_balance = touched.state[address].info.balance;
        touched.with_entry(JournalEntry::BalanceChanged { address, old_balance }).with_account(
            address,
            touched.state[address].with_balance(saturating_sum(old_balance, amount)),
        )
    }

    // ----- transfers -----
    /// The balance of the receiver that a transfer of `amount` adds to: for
    /// a transfer to oneself, the balance after `amount` has left.
    pub open spec fn receiving_balance(self, from: Address, to: Address, amount: U256) -> U256 {
        if from == to {
            wrapping_diff(self.state[from].info.balance, amount)
        } else {
            self.state[to].info.balance
        }
    }

    /// Why a transfer between two accounts in memory fails, if it does.
    pub open spec fn transfer_error(self, from: Address, to: Address, amount: U256) -> Option<
        TransferError,
    > {
        if self.state[from].info.balance.value() < amount.value() {
            Some(TransferError::OutOfFunds)
        } else if self.receiving_balance(from, to, amount).value() + amount.value() > word_max() {
            Some(TransferError::OverflowPayment)
        } else {
            None
        }
    }

    /// The journal after `amount` has moved between two accounts in memory,
    /// with the entry for it.
    pub open spec fn moved(self, from: Address, to: Address, amount: U256) -> JournalModel {
        let debited = self.with_account(
            from,
            self.state[from].with_balance(wrapping_diff(self.state[from].info.balance, amount)),
        );
        debited.with_account(
            to,
            debited.state[to].with_balance(wrapping_sum(debited.state[to].info.balance, amount)),
        ).with_entry(JournalEntry::BalanceTransfer { from, to, amount })
    }

    /// The journal after both accounts of a transfer are loaded and touched.
    pub open spec fn transfer_prepared(
        self,
        from: Address,
        to: Address,
        fetched_from: Option<AccountInfoModel>,
        fetched_to: Option<AccountInfoModel>,
    ) -> JournalModel {
        self.load_account(from, fetched_from).load_account(to, fetched_to).touch(from).touch(to)
    }

    /// The journal after a transfer. A transfer of zero loads and touches
    /// the receiver only. Any other loads and touches both accounts and
    /// moves the amount unless one of the two checks fails.
    pub open spec fn transfer(
        self,
        from: Address,
        to: Address,
        amount: U256,
        fetched_from: Option<AccountInfoModel>,
        fetched_to: Option<AccountInfoModel>,
    ) -> JournalModel {
        if amount == U256::spec_zero() {
            self.load_account(to, fetched_to).touch(to)
        } else {
            let prepared = self.transfer_prepared(from, to, fetched_from, fetched_to);
            if prepared.transfer_error(from, to, amount) is Some {
                prepared
            } else {
                prepared.moved(from, to, amount)
            }
        }
    }

    /// What a transfer reports.
    pub open spec fn transfer_result(
        self,
        from: Address,
        to: Address,
        amount: U256,
        fetched_from: Option<AccountInfoModel>,
        fetched_to: Option<AccountInfoModel>,
    ) -> Option<TransferError> {
        if amount == U256::spec_zero() {
            None
        } else {
            self.transfer_prepared(from, to, fetched_from, fetched_to).transfer_error(
                from,
                to,
                amount,
            )
        }
    }

    // ----- creation -----
    /// Why the creation of `target` by `caller` with `value` fails, if it
    /// does; both accounts are in memory.
    pub open spec fn create_error(self, caller: Address, target: Address, value: U256) -> Option<
        TransferError,
    > {
        if self.state[caller].info.balance.value() < value.value() {
            Some(TransferError::OutOfFunds)
        } else if self.state[target].info.code_hash != B256::spec_keccak_empty()
            || self.state[target].info.nonce != 0 {
            Some(TransferError::CreateCollision)
        } else if self.state[target].info.balance.value() + value.value() > word_max() {
            Some(TransferError::OverflowPayment)
        } else {
            None
        }
    }

    /// The journal after `target` is marked as created and touched, before
    /// any value moves.
    pub open spec fn create_marked(self, target: Address, spec_id: SpecId) -> JournalModel {
        let account = self.state[target];
        let created = account.marked_created_locally().with_code(None).with_nonce(
            if spec_id.is_enabled_in(SpecId::SPURIOUS_DRAGON) {
                1
            } else {
                account.info.nonce
            },
        );
        self.with_entry(
            JournalEntry::AccountCreated {
                address: target,
                was_globally_created: account.status.created_globally,
            },
        ).with_account(target, created).touch(target)
    }

    /// The journal after
    /// [`create_account_checkpoint`](crate::journal::JournalInner::create_account_checkpoint).
    /// Where the caller is short of funds or the address is taken, nothing
    /// changes. Where the target's balance would overflow, the creation is
    /// taken back, which leaves the target without its code and without the
    /// local creation mark.
    /// Else a checkpoint is open, the target is created and paid.
    pub open spec fn create_account_checkpoint(
        self,
        caller: Address,
        target: Address,
        value: U256,
        spec_id: SpecId,
    ) -> JournalModel {
        match self.create_error(caller, target, value) {
            Some(TransferError::OverflowPayment) => self.with_account(
                target,
                uncreated(self.state[target], self.state[target].status.created_globally),
            ),
            Some(_) => self,
            None => self.checkpoint().create_marked(target, spec_id).moved(caller, target, value),
        }
    }

    // ----- selfdestruct -----
    /// The journal after the balance of `address` is credited to `target`,
    /// a different account, which is touched.
    pub open spec fn selfdestruct_credit(self, address: Address, target: Address) -> JournalModel {
        if address != target {
            let touched = self.touch(target);
            touched.with_account(
                target,
                touched.state[target].with_balance(
                    wrapping_sum(touched.state[target].info.balance, self.state[address].info.balance),
                ),
            )
        } else {
            self
        }
    }

    /// Whether a selfdestruct of `account` destroys it under `spec`: before
    /// Cancun always, from Cancun on only an account created in the same
    /// transaction.
    pub open spec fn destroys(account: AccountModel, spec: SpecId) -> bool {
        account.status.created_locally || !spec.is_enabled_in(SpecId::CANCUN)
    }

    /// The journal after `address` destroys itself in favour of `target`,
    /// once `target` is loaded.
    pub open spec fn selfdestruct_loaded(self, address: Address, target: Address) -> JournalModel {
        let credited = self.selfdestruct_credit(address, target);
        let account = credited.state[address];
        let balance = account.info.balance;
        if Self::destroys(account, self.spec) {
            credited.with_account(
                address,
                account.marked_selfdestructed_locally().with_balance(U256::spec_zero()),
            ).with_entry(
                JournalEntry::AccountDestroyed {
                    address,
                    target,
                    status: destroyed_status_of(account),
                    had_balance: balance,
                },
            )
        } else if address != target {
            credited.with_account(address, account.with_balance(U256::spec_zero())).with_entry(
                JournalEntry::BalanceTransfer { from: address, to: target, amount: balance },
            )
        } else {
            credited
        }
    }

    /// The journal after a selfdestruct.
    pub open spec fn selfdestruct(
        self,
        address: Address,
        target: Address,
        fetched_target: Option<AccountInfoModel>,
    ) -> JournalModel {
        self.load_account(target, fetched_target).selfdestruct_loaded(address, target)
    }

    /// What a selfdestruct reports, once `target` is loaded.
    pub open spec fn selfdestruct_loaded_result(self, address: Address, target: Address)
        -> SelfDestructResult {
        let account = self.selfdestruct_credit(address, target).state[address];
        SelfDestructResult {
            had_value: account.info.balance != U256::spec_zero(),
            target_exists: !self.state[target].state_clear_aware_is_empty(self.spec),
            previously_destroyed: destroyed_status_of(account)
                == SelfdestructionRevertStatus::RepeatedSelfdestruction,
        }
    }

    /// What a selfdestruct reports.
    pub open spec fn selfdestruct_result(
        self,
        address: Address,
        target: Address,
        fetched_target: Option<AccountInfoModel>,
    ) -> SelfDestructResult {
        self.load_account(target, fetched_target).selfdestruct_loaded_result(address, target)
    }

    // ----- storage -----
    /// Whether a load of slot `key` of `address`, an account in memory,
    /// counts as cold.
    pub open spec fn sload_is_cold(self, address: Address, key: StorageKey) -> bool {
        self.state[address].slot_is_cold(key, self.transaction_id)
    }

    /// The value that a load of slot `key` of `address` finds; `fetched` is
    /// what the database has for the slot.
    pub open spec fn sload_value(self, address: Address, key: StorageKey, fetched: StorageValue) -> StorageValue {
        self.state[address].slot_value(key, fetched)
    }

    /// The journal after a load of slot `key` of `address`.
    pub open spec fn sload(self, address: Address, key: StorageKey, fetched: StorageValue)
        -> JournalModel {
        let loaded = self.with_account(
            address,
            self.state[address].with_slot_loaded(key, self.transaction_id, fetched),
        );
        if self.sload_is_cold(address, key) {
            loaded.with_entry(JournalEntry::StorageWarmed { address, key })
        } else {
            loaded
        }
    }

    /// The journal after the slots `keys` of `address` are loaded in order;
    /// `fetched[i]` is what the database has for `keys[i]`.
    pub open spec fn sload_all(
        self,
        address: Address,
        keys: Seq<StorageKey>,
        fetched: Seq<StorageValue>,
    ) -> JournalModel
        decreases keys.len(),
    {
        if keys.len() == 0 {
            self
        } else {
            self.sload_all(address, keys.drop_last(), fetched.drop_last()).sload(
                address,
                keys.last(),
                fetched.last(),
            )
        }
    }

    /// Whether the loads of the slots `keys` of `address`, in order, get by
    /// without the database: when its turn comes, each slot is in memory or
    /// belongs to an account created in this transaction. `fetched` stands
    /// for what the database would answer, and makes no difference.
    pub open spec fn slots_ask_nothing(
        self,
        address: Address,
        keys: Seq<StorageKey>,
        fetched: Seq<StorageValue>,
    ) -> bool
        decreases keys.len(),
    {
        keys.len() == 0 || {
            &&& self.slots_ask_nothing(address, keys.drop_last(), fetched.drop_last())
            &&& !self.sload_all(
                address,
                keys.drop_last(),
                fetched.drop_last(),
            ).state[address].slot_asks_database(keys.last())
        }
    }

    /// The journal after `new` is stored to slot `key` of `address`.
    pub open spec fn sstore(
        self,
        address: Address,
        key: StorageKey,
        new: StorageValue,
        fetched: StorageValue,
    ) -> JournalModel {
        let loaded = self.sload(address, key, fetched);
        let account = loaded.state[address];
        let present = account.storage[key].present_value;
        if present == new {
            loaded
        } else {
            loaded.with_entry(
                JournalEntry::StorageChanged { address, key, old_value: present },
            ).with_account(address, account.with_slot_written(key, new))
        }
    }

    /// What a store reports.
    pub open spec fn sstore_result(
        self,
        address: Address,
        key: StorageKey,
        new: StorageValue,
        fetched: StorageValue,
    ) -> SStoreResult {
        let slot = self.sload(address, key, fetched).state[address].storage[key];
        SStoreResult {
            original_value: slot.original_value,
            present_value: slot.present_value,
            new_value: new,
        }
    }

    /// The journal after a load of `address` that also makes the code
    /// present, where `load_code` is set, and loads the slots `keys`.
    pub open spec fn load_account_optional(
        self,
        address: Address,
        load_code: bool,
        keys: Seq<StorageKey>,
        fetched: Option<AccountInfoModel>,
        fetched_code: BytecodeModel,
        fetched_slots: Seq<StorageValue>,
    ) -> JournalModel {
        let loaded = self.load_account(address, fetched);
        let with_code = if load_code {
            loaded.load_code_of(address, fetched_code)
        } else {
            loaded
        };
        with_code.sload_all(address, keys, fetched_slots)
    }

    /// The journal after a load of `address` with code and slots for
    /// which the database is not asked.
    pub open spec fn load_account_optional_from_memory(
        self,
        address: Address,
        load_code: bool,
        keys: Seq<StorageKey>,
    ) -> JournalModel {
        self.load_account_optional(
            address,
            load_code,
            keys,
            None,
            BytecodeModel::Empty,
            Seq::empty(),
        )
    }

    /// Whether a load of `address` with code and slots gets by without the
    /// database: the account is in memory, its code is present or need not
    /// be, and so are the slots when their turn comes.
    pub open spec fn load_asks_nothing(
        self,
        address: Address,
        load_code: bool,
        keys: Seq<StorageKey>,
    ) -> bool {
        &&& self.state.contains_key(address)
        &&& load_code ==> !self.load_account(address, None).code_asks_database(address)
        &&& self.load_account_optional_from_memory(
            address,
            load_code,
            Seq::empty(),
        ).slots_ask_nothing(address, keys, Seq::empty())
    }

    /// Whether a load for a call follows a delegation: the fork knows
    /// delegations and the code of the account is one.
    pub open spec fn delegate_of(self, address: Address) -> Option<Address> {
        match self.state[address].info.code {
            Some(BytecodeModel::Eip7702 { delegate }) => if self.spec.is_enabled_in(SpecId::PRAGUE) {
                Some(delegate)
            } else {
                None
            },
            _ => None,
        }
    }

    /// The journal after `address` is loaded for a call, before a delegate
    /// is loaded: from Prague on the code is made present too.
    pub open spec fn load_for_call(
        self,
        address: Address,
        fetched: Option<AccountInfoModel>,
        fetched_code: BytecodeModel,
    ) -> JournalModel {
        self.load_account_optional(
            address,
            self.spec.is_enabled_in(SpecId::PRAGUE),
            Seq::empty(),
            fetched,
            fetched_code,
            Seq::empty(),
        )
    }

    /// Whether a load of `address` for a call gets by without the
    /// database: the account is in memory, its code is present or need not
    /// be, and so is the account that it delegates to, if any.
    pub open spec fn load_for_call_asks_nothing(self, address: Address) -> bool {
        let loaded = self.load_account(address, None);
        let for_call = self.load_for_call(address, None, BytecodeModel::Empty);
        &&& self.state.contains_key(address)
        &&& self.spec.is_enabled_in(SpecId::PRAGUE) ==> !loaded.code_asks_database(address)
        &&& match for_call.delegate_of(address) {
            Some(delegate) => for_call.state.contains_key(delegate),
            None => true,
        }
    }

    /// The journal after `address` is loaded for a call, and its delegate
    /// with it where it has one.
    pub open spec fn load_account_delegated(
        self,
        address: Address,
        fetched: Option<AccountInfoModel>,
        fetched_code: BytecodeModel,
        fetched_delegate: Option<AccountInfoModel>,
    ) -> JournalModel {
        let loaded = self.load_for_call(address, fetched, fetched_code);
        match loaded.delegate_of(address) {
            Some(delegate) => loaded.load_account(delegate, fetched_delegate),
            None => loaded,
        }
    }

    /// What a load for a call reports.
    pub open spec fn load_account_delegated_result(
        self,
        address: Address,
        fetched: Option<AccountInfoModel>,
        fetched_code: BytecodeModel,
    ) -> (AccountLoad, bool) {
        let loaded = self.load_for_call(address, fetched, fetched_code);
        (
            AccountLoad {
                is_delegate_account_cold: match loaded.delegate_of(address) {
                    Some(delegate) => Some(loaded.load_is_cold(delegate)),
                    None => None,
                },
                is_empty: loaded.state[address].state_clear_aware_is_empty(self.spec),
            },
            self.load_is_cold(address),
        )
    }

    /// The value of the transient slot: zero where nothing was stored.
    pub open spec fn tload(self, address: Address, key: StorageKey) -> StorageValue {
        let slot = SlotId { address, key };
        if self.transient_storage.contains_key(slot) {
            self.transient_storage[slot]
        } else {
            U256::spec_zero()
        }
    }

    /// The journal after `new` is stored to the transient slot: an entry is
    /// added only where the value changes, and a zero is stored by dropping
    /// the slot.
    pub open spec fn tstore(self, address: Address, key: StorageKey, new: StorageValue)
        -> JournalModel {
        let slot = SlotId { address, key };
        let old_value = self.tload(address, key);
        let stored = JournalModel {
            transient_storage: if new == U256::spec_zero() {
                self.transient_storage.remove(slot)
            } else {
                self.transient_storage.insert(slot, new)
            },
            ..self
        };
        if old_value != new {
            stored.with_entry(JournalEntry::TransientStorageChanged { address, key, old_value })
        } else {
            stored
        }
    }

    /// The journal with one more log.
    pub open spec fn log(self, log: EvmLog) -> JournalModel {
        JournalModel { logs: self.logs.push(log), ..self }
    }
}

} // verus!
