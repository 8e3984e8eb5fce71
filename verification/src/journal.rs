//! The journal: the state in memory together with the list of changes that
//! can still be undone.
use crate::database::Database;
use crate::entry::{JournalEntry, SelfdestructionRevertStatus};
use crate::journal_model::{
    lemma_slots_prefix_asks_nothing, lemma_slots_without_database, lemma_undo_all_push,
    next_transaction_id, undo_all,
    undo_all_transient, AccountLoad, JournalCheckpoint, JournalModel, SStoreResult,
    SelfDestructResult, TransferError,
};
use crate::primitives::{Address, EvmLog, SpecId, StorageKey, StorageValue, B256, U256};
use crate::state::{
    info_model, lemma_state_model_dom, lemma_state_model_empty, lemma_state_model_insert,
    state_model, Account, AccountInfo, AccountInfoModel, Bytecode, BytecodeModel, EvmState,
    StorageSlot, TransientStorage,
};
use crate::vec_map::{SlotId, VecMap, VecSet};
use vstd::prelude::*;

verus! {

/// A value that was loaded, and whether the load was the first of the
/// transaction.
#[derive(Debug)]
pub struct StateLoad<T> {
    pub data: T,
    pub is_cold: bool,
}

impl<T> StateLoad<T> {
    /// Pairs what was loaded with whether the load was cold.
    pub fn new(data: T, is_cold: bool) -> (r: StateLoad<T>)
        ensures
            r.data == data,
            r.is_cold == is_cold,
    {
        StateLoad { data, is_cold }
    }
}

/// The state in memory and the journal of one transaction at a time.
#[derive(Clone, Debug)]
pub struct JournalInner {
    /// The accounts in memory.
    pub state: EvmState,
    /// Storage that the end of the transaction discards.
    pub transient_storage: TransientStorage,
    /// The logs emitted so far.
    pub logs: Vec<EvmLog>,
    /// The number of checkpoints that are neither committed nor reverted.
    pub depth: usize,
    /// The changes of the current transaction, oldest first.
    pub journal: Vec<JournalEntry>,
    /// The number of transactions that were committed or discarded.
    pub transaction_id: usize,
    /// The fork whose rules apply.
    pub spec: SpecId,
    /// Addresses whose first load is warm; every precompile is among them.
    pub warm_preloaded_addresses: VecSet<Address>,
    /// The coinbase, whose first load is warm too.
    pub warm_coinbase_address: Option<Address>,
    /// The precompiles.
    pub precompiles: VecSet<Address>,
}

impl View for JournalInner {
    type V = JournalModel;

    open spec fn view(&self) -> JournalModel {
        JournalModel {
            state: state_model(self.state@),
            transient_storage: self.transient_storage@,
            logs: self.logs@,
            depth: self.depth,
            journal: self.journal@,
            transaction_id: self.transaction_id,
            spec: self.spec,
            warm_preloaded_addresses: self.warm_preloaded_addresses@,
            warm_coinbase_address: self.warm_coinbase_address,
            precompiles: self.precompiles@,
        }
    }
}

proof fn lemma_undo_last(state: crate::state::StateModel, journal: Seq<JournalEntry>, from: int, to: int)
    requires
        0 <= from < to <= journal.len(),
    ensures
        undo_all(state, journal.subrange(from, to)) == undo_all(
            journal[to - 1].undo_state(state),
            journal.subrange(from, to - 1),
        ),
{
    let entries = journal.subrange(from, to);
    assert(entries.last() == journal[to - 1]);
    assert(entries.drop_last() =~= journal.subrange(from, to - 1));
}

proof fn lemma_undo_transient_last(
    transient: Map<SlotId, StorageValue>,
    journal: Seq<JournalEntry>,
    from: int,
    to: int,
)
    requires
        0 <= from < to <= journal.len(),
    ensures
        undo_all_transient(transient, journal.subrange(from, to)) == undo_all_transient(
            journal[to - 1].undo_transient(transient),
            journal.subrange(from, to - 1),
        ),
{
    let entries = journal.subrange(from, to);
    assert(entries.last() == journal[to - 1]);
    assert(entries.drop_last() =~= journal.subrange(from, to - 1));
}

/// Resets the warm addresses for the next transaction: whatever they
/// were, they become exactly the precompiles.
fn reset_preloaded_addresses(warm_preloaded_addresses: &mut VecSet<Address>, precompiles: &VecSet<Address>)
    ensures
        final(warm_preloaded_addresses)@ == precompiles@,
{
    warm_preloaded_addresses.copy_from(precompiles);
}

/// The count of transactions after one more.
fn bump_transaction_id(transaction_id: usize) -> (r: usize)
    ensures
        r == next_transaction_id(transaction_id),
{
    if transaction_id == usize::MAX {
        0
    } else {
        transaction_id + 1
    }
}

impl JournalInner {
    /// Whether the journal is well formed: see [`JournalModel::wf`].
    pub open spec fn wf(&self) -> bool {
        self@.wf()
    }

    /// A journal with nothing in it, under the newest fork.
    pub fn new() -> (r: JournalInner)
        ensures
            r@ == JournalModel::empty(),
            r.wf(),
    {
        proof {
            lemma_state_model_empty();
        }
        JournalInner {
            state: VecMap::new(),
            transient_storage: VecMap::new(),
            logs: Vec::new(),
            journal: Vec::new(),
            transaction_id: 0,
            depth: 0,
            spec: SpecId::PRAGUE,
            warm_preloaded_addresses: VecSet::new(),
            precompiles: VecSet::new(),
            warm_coinbase_address: None,
        }
    }

    /// Hands out the logs and leaves none.
    pub fn take_logs(&mut self) -> (r: Vec<EvmLog>)
        ensures
            r@ == old(self)@.logs,
            final(self)@ == (JournalModel { logs: Seq::empty(), ..old(self)@ }),
    {
        let mut logs: Vec<EvmLog> = Vec::new();
        core::mem::swap(&mut self.logs, &mut logs);
        logs
    }

    /// Ends the transaction and keeps its changes: journal, logs and
    /// transient storage are emptied, no checkpoint stays open, the coinbase
    /// is forgotten, the warm addresses are exactly the precompiles again,
    /// and the transaction count goes up by one. The state stays as it is.
    pub fn commit_tx(&mut self)
        ensures
            final(self)@ == old(self)@.commit_tx(),
            final(self)@.state == old(self)@.state,
            final(self)@.depth == 0,
            final(self)@.journal.len() == 0,
            final(self)@.logs.len() == 0,
            final(self)@.transient_storage == Map::<SlotId, StorageValue>::empty(),
            final(self)@.warm_coinbase_address is None,
            final(self)@.transaction_id == next_transaction_id(old(self)@.transaction_id),
            final(self)@.precompiles == old(self)@.precompiles,
            final(self)@.warm_preloaded_addresses == final(self)@.precompiles,
            final(self).wf(),
    {
        self.transient_storage.clear();
        self.depth = 0;
        self.journal.clear();
        self.warm_coinbase_address = None;
        reset_preloaded_addresses(&mut self.warm_preloaded_addresses, &self.precompiles);
        self.transaction_id = bump_transaction_id(self.transaction_id);
        self.logs.clear();
    }

    /// Ends the transaction and drops its changes: every entry of the
    /// journal is undone on the state, the last one first; then the fields
    /// are reset as [`commit_tx`](Self::commit_tx) resets them.
    pub fn discard_tx(&mut self)
        ensures
            final(self)@ == old(self)@.discard_tx(),
            final(self)@.state == undo_all(old(self)@.state, old(self)@.journal),
            final(self)@.depth == 0,
            final(self)@.journal.len() == 0,
            final(self)@.logs.len() == 0,
            final(self)@.transient_storage == Map::<SlotId, StorageValue>::empty(),
            final(self)@.warm_coinbase_address is None,
            final(self)@.transaction_id == next_transaction_id(old(self)@.transaction_id),
            final(self)@.precompiles == old(self)@.precompiles,
            final(self)@.warm_preloaded_addresses == final(self)@.precompiles,
            final(self).wf(),
    {
        let is_spurious_dragon_enabled = self.spec.is_enabled_in(SpecId::SPURIOUS_DRAGON);
        assert(old(self)@.journal.subrange(0, old(self)@.journal.len() as int) =~= old(self)@.journal);
        while self.journal.len() > 0
            invariant
                self.journal@ == old(self).journal@.subrange(0, self.journal@.len() as int),
                self.journal@.len() <= old(self).journal@.len(),
                undo_all(state_model(self.state@), self.journal@) == undo_all(
                    old(self)@.state,
                    old(self)@.journal,
                ),
                self.precompiles == old(self).precompiles,
                self.warm_preloaded_addresses == old(self).warm_preloaded_addresses,
                self.transaction_id == old(self).transaction_id,
                self.spec == old(self).spec,
            decreases self.journal@.len(),
        {
            let ghost before = self.journal@;
            let entry = self.journal.pop().unwrap();
            proof {
                assert(before.last() == entry);
                assert(before.drop_last() =~= self.journal@);
                assert(self.journal@ =~= old(self).journal@.subrange(0, self.journal@.len() as int));
            }
            entry.revert(&mut self.state, None, is_spurious_dragon_enabled);
        }
        assert(self.journal@ =~= Seq::<JournalEntry>::empty());
        self.transient_storage.clear();
        self.depth = 0;
        self.logs.clear();
        self.transaction_id = bump_transaction_id(self.transaction_id);
        self.warm_coinbase_address = None;
        reset_preloaded_addresses(&mut self.warm_preloaded_addresses, &self.precompiles);
    }

    /// Hands out the state and resets the journal to its first
    /// transaction; the precompiles and the fork stay.
    pub fn finalize(&mut self) -> (r: EvmState)
        ensures
            state_model(r@) == old(self)@.state,
            final(self)@ == old(self)@.finalize(),
            final(self)@.transient_storage == Map::<SlotId, StorageValue>::empty(),
            final(self)@.transaction_id == 0,
            final(self)@.warm_preloaded_addresses == final(self)@.precompiles,
            final(self).wf(),
    {
        self.warm_coinbase_address = None;
        reset_preloaded_addresses(&mut self.warm_preloaded_addresses, &self.precompiles);
        let mut state: EvmState = VecMap::new();
        core::mem::swap(&mut self.state, &mut state);
        self.logs.clear();
        self.transient_storage.clear();
        self.journal.clear();
        self.depth = 0;
        self.transaction_id = 0;
        proof {
            lemma_state_model_empty();
        }
        state
    }

    /// The state, to be read or changed in place. Changes made through the
    /// reference are not journaled.
    pub fn state(&mut self) -> (r: &mut EvmState)
        ensures
            *r == old(self).state,
            *final(self) == (JournalInner { state: *final(r), ..*old(self) }),
    {
        &mut self.state
    }

    /// Sets the fork whose rules apply.
    pub fn set_spec_id(&mut self, spec: SpecId)
        ensures
            final(self)@ == (JournalModel { spec, ..old(self)@ }),
    {
        self.spec = spec;
    }

    /// Makes the first load of `address` in this transaction a warm one.
    pub fn warm_account(&mut self, address: Address)
        ensures
            final(self)@ == (JournalModel {
                warm_preloaded_addresses: old(self)@.warm_preloaded_addresses.insert(address),
                ..old(self)@
            }),
    {
        self.warm_preloaded_addresses.insert(address);
    }

    /// Records the coinbase, whose first load in this transaction is warm.
    pub fn warm_coinbase_account(&mut self, address: Address)
        ensures
            final(self)@ == (JournalModel { warm_coinbase_address: Some(address), ..old(self)@ }),
    {
        self.warm_coinbase_address = Some(address);
    }

    /// Sets the precompiles, and makes them the warm addresses.
    pub fn warm_precompiles(&mut self, precompiles: VecSet<Address>)
        ensures
            final(self)@ == (JournalModel {
                warm_preloaded_addresses: precompiles@,
                precompiles: precompiles@,
                ..old(self)@
            }),
    {
        self.warm_preloaded_addresses.copy_from(&precompiles);
        self.precompiles = precompiles;
    }

    /// Raises the touched mark of `address`, where the account is in memory
    /// and the mark is not raised yet, and journals it.
    pub fn touch(&mut self, address: Address)
        ensures
            final(self)@ == old(self)@.touch(address),
    {
        let ghost before = self.state@;
        let mut newly = false;
        match self.state.get_mut(&address) {
            Some(account) => {
                if !account.is_touched() {
                    account.mark_touch();
                    newly = true;
                }
            },
            None => {},
        }
        if newly {
            proof {
                lemma_state_model_insert(before, address, self.state@[address]);
            }
            self.journal.push(JournalEntry::AccountTouched { address });
        } else {
            proof {
                if before.contains_key(address) {
                    lemma_state_model_insert(before, address, self.state@[address]);
                    assert(state_model(before).insert(address, before[address]@) =~= state_model(
                        before,
                    ));
                }
            }
        }
    }

    /// The account at `address`, which is in memory.
    pub fn account(&self, address: Address) -> (r: &Account)
        requires
            self@.state.contains_key(address),
        ensures
            r@ == self@.state[address],
    {
        self.state.get(&address).unwrap()
    }

    /// Opens a checkpoint: what follows can be undone as a whole.
    pub fn checkpoint(&mut self) -> (r: JournalCheckpoint)
        requires
            old(self).depth < usize::MAX,
        ensures
            r == old(self)@.checkpoint_mark(),
            r.log_i == old(self)@.logs.len(),
            r.journal_i == old(self)@.journal.len(),
            final(self)@ == old(self)@.checkpoint(),
    {
        let checkpoint = JournalCheckpoint { log_i: self.logs.len(), journal_i: self.journal.len() };
        self.depth = self.depth + 1;
        checkpoint
    }

    /// Closes the innermost checkpoint and keeps what was done since; an
    /// outer checkpoint can still undo it.
    pub fn checkpoint_commit(&mut self)
        requires
            old(self).depth > 0,
        ensures
            final(self)@ == old(self)@.checkpoint_commit(),
    {
        self.depth = self.depth - 1;
    }

    /// Closes the innermost checkpoint and undoes what was done since
    /// `checkpoint` was taken: the entries from `checkpoint.journal_i` on
    /// are undone, the last one first, and dropped, and so are the logs from
    /// `checkpoint.log_i` on.
    pub fn checkpoint_revert(&mut self, checkpoint: JournalCheckpoint)
        requires
            old(self).depth > 0,
            checkpoint.journal_i <= old(self).journal@.len(),
        ensures
            final(self)@ == old(self)@.checkpoint_revert(checkpoint),
    {
        let is_spurious_dragon_enabled = self.spec.is_enabled_in(SpecId::SPURIOUS_DRAGON);
        self.depth = self.depth - 1;
        self.logs.truncate(checkpoint.log_i);
        let ghost start = checkpoint.journal_i as int;
        while self.journal.len() > checkpoint.journal_i
            invariant
                start == checkpoint.journal_i,
                start <= self.journal@.len() <= old(self).journal@.len(),
                self.journal@ == old(self).journal@.subrange(0, self.journal@.len() as int),
                undo_all(state_model(self.state@), self.journal@.subrange(start, self.journal@.len() as int))
                    == undo_all(
                    old(self)@.state,
                    old(self)@.journal.subrange(start, old(self)@.journal.len() as int),
                ),
                undo_all_transient(
                    self.transient_storage@,
                    self.journal@.subrange(start, self.journal@.len() as int),
                ) == undo_all_transient(
                    old(self)@.transient_storage,
                    old(self)@.journal.subrange(start, old(self)@.journal.len() as int),
                ),
                self.precompiles == old(self).precompiles,
                self.warm_preloaded_addresses == old(self).warm_preloaded_addresses,
                self.warm_coinbase_address == old(self).warm_coinbase_address,
                self.transaction_id == old(self).transaction_id,
                self.spec == old(self).spec,
                self.depth == old(self).depth - 1,
                self.logs@ == old(self)@.checkpoint_revert(checkpoint).logs,
            decreases self.journal@.len(),
        {
            let ghost before = self.journal@;
            proof {
                lemma_undo_last(state_model(self.state@), before, start, before.len() as int);
                lemma_undo_transient_last(self.transient_storage@, before, start, before.len() as int);
            }
            let entry = self.journal.pop().unwrap();
            proof {
                assert(self.journal@ =~= old(self).journal@.subrange(0, self.journal@.len() as int));
                assert(self.journal@.subrange(start, self.journal@.len() as int) =~= before.subrange(
                    start,
                    before.len() - 1,
                ));
            }
            entry.revert(&mut self.state, Some(&mut self.transient_storage), is_spurious_dragon_enabled);
        }
        proof {
            assert(self.journal@.subrange(start, self.journal@.len() as int) =~= Seq::<
                JournalEntry,
            >::empty());
        }
    }

    /// The value of a transient slot: zero where nothing was stored.
    pub fn tload(&mut self, address: Address, key: StorageKey) -> (r: StorageValue)
        ensures
            r == old(self)@.tload(address, key),
            *final(self) == *old(self),
    {
        match self.transient_storage.get(&SlotId { address, key }) {
            Some(value) => *value,
            None => U256::zero(),
        }
    }

    /// Stores `new` to a transient slot; a zero is stored by dropping the
    /// slot. Where the value changes, the old one is journaled.
    pub fn tstore(&mut self, address: Address, key: StorageKey, new: StorageValue)
        ensures
            final(self)@ == old(self)@.tstore(address, key, new),
            old(self).wf() ==> final(self).wf(),
    {
        let slot = SlotId { address, key };
        let previous = if new.is_zero() {
            self.transient_storage.remove(&slot)
        } else {
            self.transient_storage.insert(slot, new)
        };
        let old_value = match previous {
            Some(value) => value,
            None => U256::zero(),
        };
        if old_value != new {
            self.journal.push(JournalEntry::TransientStorageChanged { address, key, old_value });
        }
    }

    /// Appends a log.
    pub fn log(&mut self, log: EvmLog)
        ensures
            final(self)@ == old(self)@.log(log),
    {
        self.logs.push(log);
    }

    /// Journals a change of the nonce of `address` that the caller has made.
    pub fn nonce_bump_journal_entry(&mut self, address: Address)
        ensures
            final(self)@ == old(self)@.with_entry(JournalEntry::NonceChanged { address }),
    {
        self.journal.push(JournalEntry::NonceChanged { address });
    }

    /// Journals what the caller of a transaction has paid up front: its
    /// balance was `old_balance`, it counts as touched, and its nonce went
    /// up where `bump_nonce` is set. The account itself is not changed here.
    pub fn caller_accounting_journal_entry(&mut self, address: Address, old_balance: U256, bump_nonce: bool)
        ensures
            final(self)@ == old(self)@.caller_accounting_journal_entry(
                address,
                old_balance,
                bump_nonce,
            ),
    {
        self.journal.push(JournalEntry::BalanceChanged { address, old_balance });
        self.journal.push(JournalEntry::AccountTouched { address });
        if bump_nonce {
            self.journal.push(JournalEntry::NonceChanged { address });
        }
    }
}

/// Loads slot `key` of `account`, which belongs to `address`, for the
/// transaction `transaction_id`. A slot in memory is marked as touched by
/// the transaction. Any other is put into memory: as zero where the account
/// was created in this transaction, else with the value that `db` has for
/// it, which is asked for in that case only. What follows the answer of
/// the database is [`sload_fetched`]. Where the database fails nothing
/// changes.
pub fn sload_with_account<DB: Database>(
    account: &mut Account,
    db: &mut DB,
    journal: &mut Vec<JournalEntry>,
    transaction_id: usize,
    address: Address,
    key: StorageKey,
) -> (r: Result<StateLoad<StorageValue>, DB::Error>)
    ensures
        !old(account)@.slot_asks_database(key) ==> r is Ok,
        !old(account)@.slot_is_cold(key, transaction_id) ==> match r {
            Ok(load) => {
                &&& !load.is_cold
                &&& load.data == old(account)@.storage[key].present_value
                &&& final(account)@ == old(account)@
                &&& final(journal)@ == old(journal)@
            },
            Err(_) => false,
        },
        match r {
            Ok(load) => {
                &&& load.data == old(account)@.slot_value(key, load.data)
                &&& load.is_cold == old(account)@.slot_is_cold(key, transaction_id)
                &&& final(account)@
                    == old(account)@.with_slot_loaded(key, transaction_id, load.data)
                &&& final(journal)@ == if load.is_cold {
                    old(journal)@.push(JournalEntry::StorageWarmed { address, key })
                } else {
                    old(journal)@
                }
            },
            Err(_) => {
                &&& old(account)@.slot_asks_database(key)
                &&& *final(account) == *old(account)
                &&& *final(journal) == *old(journal)
            },
        },
{
    let fetched = if account.storage.contains_key(&key) || account.is_created_locally() {
        U256::zero()
    } else {
        match db.storage(address, key) {
            Ok(value) => value,
            Err(e) => {
                return Err(e);
            },
        }
    };
    Ok(sload_fetched(account, journal, transaction_id, address, key, fetched))
}

/// Loads slot `key` of `account`, which belongs to `address`, for the
/// transaction `transaction_id`, given what the database has for the slot.
/// A slot in memory is marked as touched by the transaction and keeps its
/// value; `fetched` is not looked at. Any other is put into memory: as zero
/// where the account was created in this transaction, else as `fetched`.
/// Hands back the value found and whether the load was cold, and journals a
/// cold load. A slot that this transaction has touched before is found warm,
/// with its present value, and nothing changes.
pub fn sload_fetched(
    account: &mut Account,
    journal: &mut Vec<JournalEntry>,
    transaction_id: usize,
    address: Address,
    key: StorageKey,
    fetched: StorageValue,
) -> (load: StateLoad<StorageValue>)
    ensures
        load.data == old(account)@.slot_value(key, fetched),
        load.is_cold == old(account)@.slot_is_cold(key, transaction_id),
        final(account)@ == old(account)@.with_slot_loaded(key, transaction_id, fetched),
        final(journal)@ == if load.is_cold {
            old(journal)@.push(JournalEntry::StorageWarmed { address, key })
        } else {
            old(journal)@
        },
        !old(account)@.slot_is_cold(key, transaction_id) ==> {
            &&& !load.is_cold
            &&& load.data == old(account)@.storage[key].present_value
            &&& final(account)@ == old(account)@
            &&& final(journal)@ == old(journal)@
        },
{
    let is_newly_created = account.is_created_locally();
    let mut found: Option<(StorageValue, bool)> = None;
    match account.storage.get_mut(&key) {
        Some(slot) => {
            let is_cold = slot.mark_warm_with_transaction_id(transaction_id);
            found = Some((slot.present_value, is_cold));
        },
        None => {},
    }
    let (value, is_cold) = match found {
        Some(pair) => pair,
        None => {
            let value = if is_newly_created {
                U256::zero()
            } else {
                fetched
            };
            account.storage.insert(key, StorageSlot::new(value, transaction_id));
            (value, true)
        },
    };
    if is_cold {
        journal.push(JournalEntry::StorageWarmed { address, key });
    }
    proof {
        if !old(account)@.slot_is_cold(key, transaction_id) {
            assert(account@.storage =~= old(account)@.storage);
        }
    }
    StateLoad::new(value, is_cold)
}

impl JournalInner {
    /// Loads slot `key` of `address`, an account in memory: see
    /// [`sload_with_account`]. The value found is in `data`.
    pub fn sload<DB: Database>(&mut self, db: &mut DB, address: Address, key: StorageKey)
        -> (r: Result<
        StateLoad<StorageValue>,
        DB::Error,
    >)
        requires
            old(self)@.state.contains_key(address),
        ensures
            !old(self)@.state[address].slot_asks_database(key) ==> r is Ok,
            !old(self)@.sload_is_cold(address, key) ==> match r {
                Ok(load) => {
                    &&& !load.is_cold
                    &&& load.data == old(self)@.state[address].storage[key].present_value
                    &&& final(self)@ == old(self)@
                },
                Err(_) => false,
            },
            match r {
                Ok(load) => {
                    &&& load.data == old(self)@.sload_value(address, key, load.data)
                    &&& load.is_cold == old(self)@.sload_is_cold(address, key)
                    &&& final(self)@ == old(self)@.sload(address, key, load.data)
                },
                Err(_) => {
                    &&& old(self)@.state[address].slot_asks_database(key)
                    &&& final(self)@ == old(self)@
                },
            },
    {
        let ghost before = self.state@;
        let transaction_id = self.transaction_id;
        let account = self.state.get_mut(&address).unwrap();
        let r = sload_with_account(account, db, &mut self.journal, transaction_id, address, key);
        proof {
            lemma_state_model_dom(before);
            lemma_state_model_insert(before, address, self.state@[address]);
            if r is Err || !old(self)@.sload_is_cold(address, key) {
                assert(state_model(before).insert(address, before[address]@) =~= state_model(
                    before,
                ));
            }
        }
        r
    }

    /// Stores `new` to slot `key` of `address`, an account in memory. The
    /// slot is loaded first. Where `new` differs from the value found, the
    /// value found is journaled and `new` takes its place. Reports the
    /// original value, the value found and the new one. The original value
    /// of the slot is never changed by the store itself: for a slot that
    /// this transaction has touched before it stays what it was, and only
    /// the present value becomes `new`.
    pub fn sstore<DB: Database>(
        &mut self,
        db: &mut DB,
        address: Address,
        key: StorageKey,
        new: StorageValue,
    ) -> (r: Result<StateLoad<SStoreResult>, DB::Error>)
        requires
            old(self)@.state.contains_key(address),
        ensures
            !old(self)@.state[address].slot_asks_database(key) ==> r is Ok,
            !old(self)@.sload_is_cold(address, key) ==> match r {
                Ok(load) => {
                    let slot = old(self)@.state[address].storage[key];
                    &&& !load.is_cold
                    &&& load.data == (SStoreResult {
                        original_value: slot.original_value,
                        present_value: slot.present_value,
                        new_value: new,
                    })
                    &&& final(self)@.state[address].storage[key] == (StorageSlot {
                        present_value: new,
                        ..slot
                    })
                },
                Err(_) => false,
            },
            match r {
                Ok(load) => {
                    &&& load.data.original_value == final(self)@.state[address].storage[key].original_value
                    &&& final(self)@.state[address].storage[key].present_value == new
                    &&& load.data == old(self)@.sstore_result(
                        address,
                        key,
                        new,
                        load.data.present_value,
                    )
                    &&& load.data.present_value == old(self)@.sload_value(
                        address,
                        key,
                        load.data.present_value,
                    )
                    &&& load.is_cold == old(self)@.sload_is_cold(address, key)
                    &&& final(self)@
                        == old(self)@.sstore(address, key, new, load.data.present_value)
                },
                Err(_) => {
                    &&& old(self)@.state[address].slot_asks_database(key)
                    &&& final(self)@ == old(self)@
                },
            },
    {
        let present = match self.sload(db, address, key) {
            Ok(present) => present,
            Err(e) => {
                return Err(e);
            },
        };
        let ghost loaded = self.state@;
        proof {
            lemma_state_model_dom(old(self).state@);
            lemma_state_model_dom(loaded);
            assert(self@.state.contains_key(address));
            assert(self@.state[address].storage.contains_key(key));
        }
        let account = self.state.get_mut(&address).unwrap();
        let slot = account.storage.get_mut(&key).unwrap();
        let original_value = slot.original_value;
        if present.data == new {
            proof {
                lemma_state_model_insert(loaded, address, self.state@[address]);
                assert(self.state@[address]@.storage =~= loaded[address]@.storage);
                assert(state_model(loaded).insert(address, loaded[address]@) =~= state_model(
                    loaded,
                ));
            }
            return Ok(
                StateLoad::new(
                    SStoreResult { original_value, present_value: present.data, new_value: new },
                    present.is_cold,
                ),
            );
        }
        slot.present_value = new;
        self.journal.push(JournalEntry::StorageChanged { address, key, old_value: present.data });
        proof {
            lemma_state_model_insert(loaded, address, self.state@[address]);
        }
        Ok(
            StateLoad::new(
                SStoreResult { original_value, present_value: present.data, new_value: new },
                present.is_cold,
            ),
        )
    }

    /// Loads `address`, and hands back what the database answered where it
    /// was asked.
    fn load_account_inner<DB: Database>(&mut self, db: &mut DB, address: Address) -> (r: Result<
        (bool, Ghost<Option<AccountInfoModel>>),
        DB::Error,
    >)
        ensures
            old(self)@.state.contains_key(address) ==> r is Ok,
            match r {
                Ok((is_cold, fetched)) => {
                    &&& is_cold == old(self)@.load_is_cold(address)
                    &&& final(self)@ == old(self)@.load_account(address, fetched@)
                },
                Err(_) => *final(self) == *old(self),
            },
    {
        proof {
            lemma_state_model_dom(self.state@);
        }
        let fetched = if self.state.contains_key(&address) {
            None
        } else {
            match db.basic(address) {
                Ok(fetched) => fetched,
                Err(e) => {
                    return Err(e);
                },
            }
        };
        let ghost fetched_model = info_model(fetched);
        let is_cold = self.load_account_with(address, fetched);
        Ok((is_cold, Ghost(fetched_model)))
    }

    /// Loads `address`, given what the database has for it. An account in
    /// memory is marked as loaded by this transaction, and `fetched` is not
    /// looked at; on the first load of a transaction the marks that the
    /// transaction before left are cleared, and an account that it destroyed
    /// is wiped. Any other account is put into memory: with `fetched` as its
    /// info, or as a placeholder where `fetched` is `None`. Says whether the
    /// load was cold, and journals a cold load.
    pub fn load_account_with(&mut self, address: Address, fetched: Option<AccountInfo>) -> (is_cold: bool)
        ensures
            is_cold == old(self)@.load_is_cold(address),
            final(self)@ == old(self)@.load_account(address, info_model(fetched)),
    {
        let ghost before = self.state@;
        let transaction_id = self.transaction_id;
        let mut found: Option<bool> = None;
        match self.state.get_mut(&address) {
            Some(account) => {
                let is_cold = account.mark_warm_with_transaction_id(transaction_id);
                if is_cold {
                    if account.is_selfdestructed_locally() {
                        account.selfdestruct();
                        account.status.selfdestructed_locally = false;
                    }
                    account.status.created_locally = false;
                }
                found = Some(is_cold);
            },
            None => {},
        }
        let is_cold = match found {
            Some(is_cold) => {
                proof {
                    lemma_state_model_insert(before, address, self.state@[address]);
                }
                is_cold
            },
            None => {
                let account = match fetched {
                    Some(info) => Account::from_info(info, transaction_id),
                    None => Account::new_not_existing(transaction_id),
                };
                let is_coinbase = match self.warm_coinbase_address {
                    Some(coinbase) => coinbase == address,
                    None => false,
                };
                let is_cold = !self.warm_preloaded_addresses.contains(&address) && !is_coinbase;
                proof {
                    lemma_state_model_insert(before, address, account);
                }
                self.state.insert(address, account);
                is_cold
            },
        };
        if is_cold {
            self.journal.push(JournalEntry::AccountWarmed { address });
        }
        is_cold
    }

    /// Makes the code of `address`, an account in memory, present, and hands
    /// back what the database answered where it was asked.
    fn load_code_inner<DB: Database>(&mut self, db: &mut DB, address: Address) -> (r: Result<
        Ghost<BytecodeModel>,
        DB::Error,
    >)
        requires
            old(self)@.state.contains_key(address),
        ensures
            !old(self)@.code_asks_database(address) ==> r is Ok,
            match r {
                Ok(fetched_code) => final(self)@ == old(self)@.load_code_of(address, fetched_code@),
                Err(_) => *final(self) == *old(self),
            },
    {
        proof {
            lemma_state_model_dom(self.state@);
        }
        let (has_code, code_hash) = {
            let account = self.state.get(&address).unwrap();
            (account.info.code.is_some(), account.info.code_hash)
        };
        let fetched_code = if !has_code && code_hash != B256::keccak_empty() {
            match db.code_by_hash(code_hash) {
                Ok(code) => code,
                Err(e) => {
                    return Err(e);
                },
            }
        } else {
            Bytecode::Empty
        };
        let ghost fetched_model = fetched_code@;
        self.load_code_with(address, fetched_code);
        Ok(Ghost(fetched_model))
    }

    /// Makes the code of `address`, an account in memory, present, given
    /// what the database has for its code hash. Code that is present stays.
    /// An account without code gets empty code where its hash is that of
    /// empty code, and `fetched_code` else.
    pub fn load_code_with(&mut self, address: Address, fetched_code: Bytecode)
        requires
            old(self)@.state.contains_key(address),
        ensures
            final(self)@ == old(self)@.load_code_of(address, fetched_code@),
    {
        let ghost before = self.state@;
        proof {
            lemma_state_model_dom(before);
        }
        let account = self.state.get_mut(&address).unwrap();
        if account.info.code.is_none() {
            account.info.code = Some(
                if account.info.code_hash == B256::keccak_empty() {
                    Bytecode::Empty
                } else {
                    fetched_code
                },
            );
        }
        proof {
            lemma_state_model_insert(before, address, self.state@[address]);
            assert(state_model(before).insert(address, before[address]@) =~= state_model(before));
        }
    }

    /// Loads `address`: an account in memory is marked as loaded by this
    /// transaction; any other is fetched from `db` and put into memory, as a
    /// placeholder where the database has none. A cold load is journaled.
    /// Hands out the account, to be read or changed in place; changes made
    /// through the reference are not journaled. An account that this
    /// transaction has loaded before is found warm, and nothing is journaled
    /// for it. Where the database fails nothing changes.
    pub fn load_account<DB: Database>(&mut self, db: &mut DB, address: Address) -> (r: Result<
        StateLoad<&mut Account>,
        DB::Error,
    >)
        ensures
            old(self)@.state.contains_key(address) ==> r is Ok,
            old(self)@.state.contains_key(address) && !old(self)@.load_is_cold(address)
                ==> match r {
                Ok(load) => {
                    &&& !load.is_cold
                    &&& load.data@ == old(self)@.state[address]
                    &&& final(self)@ == old(self)@.with_account(address, final(load.data)@)
                },
                Err(_) => false,
            },
            match r {
                Ok(load) => exists|fetched: Option<AccountInfoModel>|
                    {
                        let loaded = #[trigger] old(self)@.load_account(address, fetched);
                        &&& load.is_cold == old(self)@.load_is_cold(address)
                        &&& load.data@ == loaded.state[address]
                        &&& final(self)@ == loaded.with_account(address, final(load.data)@)
                    },
                Err(_) => !old(self)@.state.contains_key(address) && *final(self) == *old(self),
            },
    {
        let (is_cold, fetched) = match self.load_account_inner(db, address) {
            Ok(loaded) => loaded,
            Err(e) => {
                return Err(e);
            },
        };
        proof {
            lemma_state_model_dom(self.state@);
            assert(self@.state.contains_key(address));
            assert forall|a: Account| #[trigger]
                state_model(self.state@.insert(address, a)) == state_model(self.state@).insert(
                    address,
                    a@,
                ) by {
                lemma_state_model_insert(self.state@, address, a);
            }
            if old(self)@.state.contains_key(address) && !old(self)@.load_is_cold(address) {
                let found = old(self)@.state[address];
                assert(found.reloaded(old(self)@.transaction_id) == found);
                assert(old(self)@.state.insert(address, found) =~= old(self)@.state);
                assert(self@ == old(self)@);
            }
        }
        let account = self.state.get_mut(&address).unwrap();
        Ok(StateLoad { data: account, is_cold })
    }

    /// Loads `address` as [`load_account`](Self::load_account) does, and
    /// makes its code present: where the account has a code hash but no
    /// code, the code is fetched from `db`.
    pub fn load_code<DB: Database>(&mut self, db: &mut DB, address: Address) -> (r: Result<
        StateLoad<&mut Account>,
        DB::Error,
    >)
        ensures
            old(self)@.state.contains_key(address) && !old(self)@.load_account(
                address,
                None,
            ).code_asks_database(address) ==> r is Ok,
            match r {
                Ok(load) => exists|fetched: Option<AccountInfoModel>, fetched_code: BytecodeModel|
                    {
                        let loaded = #[trigger] old(self)@.load_account(address, fetched).load_code_of(
                            address,
                            fetched_code,
                        );
                        &&& load.is_cold == old(self)@.load_is_cold(address)
                        &&& load.data@ == loaded.state[address]
                        &&& final(self)@ == loaded.with_account(address, final(load.data)@)
                    },
                Err(_) => {
                    ||| !old(self)@.state.contains_key(address) && *final(self) == *old(self)
                    ||| exists|fetched: Option<AccountInfoModel>|
                        {
                            let loaded = #[trigger] old(self)@.load_account(address, fetched);
                            final(self)@ == loaded && loaded.code_asks_database(address)
                        }
                },
            },
    {
        let (is_cold, fetched) = match self.load_account_inner(db, address) {
            Ok(loaded) => loaded,
            Err(e) => {
                return Err(e);
            },
        };
        let fetched_code = match self.load_code_inner(db, address) {
            Ok(code) => code,
            Err(e) => {
                return Err(e);
            },
        };
        proof {
            lemma_state_model_dom(self.state@);
            assert(self@.state.contains_key(address));
            assert forall|a: Account| #[trigger]
                state_model(self.state@.insert(address, a)) == state_model(self.state@).insert(
                    address,
                    a@,
                ) by {
                lemma_state_model_insert(self.state@, address, a);
            }
        }
        let account = self.state.get_mut(&address).unwrap();
        Ok(StateLoad { data: account, is_cold })
    }

    /// Loads `address` as [`load_account`](Self::load_account) does; makes
    /// its code present where `load_code` is set; then loads the slots
    /// `storage_keys` of the account in order, as
    /// [`sload`](Self::sload) does. Where the database fails, what was
    /// loaded before the failure stays loaded: nothing where it fails on the
    /// account, the account where it fails on the code, and the account, its
    /// code and the slots before the failing one where it fails on a slot.
    /// The database is not asked,
    /// and so the load succeeds, where
    /// [`load_asks_nothing`](JournalModel::load_asks_nothing) holds. An
    /// account that this transaction has loaded before is found warm, and
    /// without code or slots to load nothing is journaled for it.
    pub fn load_account_optional<DB: Database>(
        &mut self,
        db: &mut DB,
        address: Address,
        load_code: bool,
        storage_keys: &[StorageKey],
    ) -> (r: Result<StateLoad<&mut Account>, DB::Error>)
        ensures
            old(self)@.load_asks_nothing(address, load_code, storage_keys@) ==> match r {
                Ok(load) => {
                    let loaded = old(self)@.load_account_optional_from_memory(
                        address,
                        load_code,
                        storage_keys@,
                    );
                    &&& load.data@ == loaded.state[address]
                    &&& final(self)@ == loaded.with_account(address, final(load.data)@)
                },
                Err(_) => false,
            },
            old(self)@.state.contains_key(address) && !old(self)@.load_is_cold(address)
                && !load_code && storage_keys@.len() == 0 ==> match r {
                Ok(load) => {
                    &&& !load.is_cold
                    &&& load.data@ == old(self)@.state[address]
                    &&& final(self)@ == old(self)@.with_account(address, final(load.data)@)
                },
                Err(_) => false,
            },
            match r {
                Ok(load) => exists|
                    fetched: Option<AccountInfoModel>,
                    fetched_code: BytecodeModel,
                    fetched_slots: Seq<StorageValue>,
                |
                    {
                        let loaded = #[trigger] old(self)@.load_account_optional(
                            address,
                            load_code,
                            storage_keys@,
                            fetched,
                            fetched_code,
                            fetched_slots,
                        );
                        &&& fetched_slots.len() == storage_keys@.len()
                        &&& load.is_cold == old(self)@.load_is_cold(address)
                        &&& load.data@ == loaded.state[address]
                        &&& final(self)@ == loaded.with_account(address, final(load.data)@)
                    },
                Err(_) => {
                    ||| !old(self)@.state.contains_key(address) && *final(self) == *old(self)
                    ||| load_code && exists|fetched: Option<AccountInfoModel>|
                        {
                            let loaded = #[trigger] old(self)@.load_account(address, fetched);
                            final(self)@ == loaded && loaded.code_asks_database(address)
                        }
                    ||| exists|
                        fetched: Option<AccountInfoModel>,
                        fetched_code: BytecodeModel,
                        fetched_slots: Seq<StorageValue>,
                        done: int,
                    |
                        {
                            let loaded = #[trigger] old(self)@.load_account_optional(
                                address,
                                load_code,
                                storage_keys@.subrange(0, done),
                                fetched,
                                fetched_code,
                                fetched_slots,
                            );
                            &&& 0 <= done < storage_keys@.len()
                            &&& fetched_slots.len() == done
                            &&& final(self)@ == loaded
                            &&& loaded.state[address].slot_asks_database(storage_keys@[done])
                        }
                },
            },
    {
        let (is_cold, fetched) = match self.load_account_inner(db, address) {
            Ok(loaded) => loaded,
            Err(e) => {
                return Err(e);
            },
        };
        let ghost mut fetched_code = BytecodeModel::Empty;
        if load_code {
            match self.load_code_inner(db, address) {
                Ok(code) => {
                    proof {
                        fetched_code = code@;
                    }
                },
                Err(e) => {
                    return Err(e);
                },
            }
        }
        let ghost with_code = self@;
        let ghost owed = old(self)@.load_asks_nothing(address, load_code, storage_keys@);
        let ghost mut fetched_slots: Seq<StorageValue> = Seq::empty();
        let mut i: usize = 0;
        while i < storage_keys.len()
            invariant
                i <= storage_keys@.len(),
                fetched_slots.len() == i,
                owed == old(self)@.load_asks_nothing(address, load_code, storage_keys@),
                owed ==> with_code == old(self)@.load_account_optional_from_memory(
                    address,
                    load_code,
                    Seq::empty(),
                ),
                with_code.state.contains_key(address),
                self@ == with_code.sload_all(address, storage_keys@.subrange(0, i as int), fetched_slots),
                self@.state.contains_key(address),
                with_code == old(self)@.load_account_optional(
                    address,
                    load_code,
                    Seq::<StorageKey>::empty(),
                    fetched@,
                    fetched_code,
                    Seq::<StorageValue>::empty(),
                ),
            decreases storage_keys@.len() - i,
        {
            let ghost done_keys = storage_keys@.subrange(0, i as int);
            proof {
                if owed {
                    let next_keys = storage_keys@.subrange(0, i + 1);
                    let next_slots = fetched_slots.push(U256::spec_zero());
                    lemma_slots_prefix_asks_nothing(
                        with_code,
                        address,
                        storage_keys@,
                        Seq::empty(),
                        i + 1,
                        next_slots,
                    );
                    assert(next_keys.drop_last() =~= done_keys);
                    assert(next_slots.drop_last() =~= fetched_slots);
                    assert(next_keys.last() == storage_keys@[i as int]);
                    assert(!self@.state[address].slot_asks_database(storage_keys@[i as int]));
                }
            }
            match self.sload(db, address, storage_keys[i]) {
                Ok(load) => {
                    proof {
                        let next_keys = storage_keys@.subrange(0, i + 1);
                        let next_slots = fetched_slots.push(load.data);
                        assert(next_keys.drop_last() =~= done_keys);
                        assert(next_slots.drop_last() =~= fetched_slots);
                        fetched_slots = next_slots;
                    }
                },
                Err(e) => {
                    proof {
                        lemma_sload_all_from(
                            old(self)@,
                            address,
                            load_code,
                            done_keys,
                            fetched@,
                            fetched_code,
                            fetched_slots,
                        );
                    }
                    return Err(e);
                },
            }
            i = i + 1;
        }
        proof {
            assert(storage_keys@.subrange(0, i as int) =~= storage_keys@);
            lemma_sload_all_from(
                old(self)@,
                address,
                load_code,
                storage_keys@,
                fetched@,
                fetched_code,
                fetched_slots,
            );
            if owed {
                lemma_slots_without_database(
                    with_code,
                    address,
                    storage_keys@,
                    Seq::empty(),
                    fetched_slots,
                );
                lemma_sload_all_from(
                    old(self)@,
                    address,
                    load_code,
                    storage_keys@,
                    None,
                    BytecodeModel::Empty,
                    Seq::empty(),
                );
            }
            lemma_state_model_dom(self.state@);
            assert(self@.state.contains_key(address));
            assert forall|a: Account| #[trigger]
                state_model(self.state@.insert(address, a)) == state_model(self.state@).insert(
                    address,
                    a@,
                ) by {
                lemma_state_model_insert(self.state@, address, a);
            }
            if old(self)@.state.contains_key(address) && !old(self)@.load_is_cold(address)
                && !load_code && storage_keys@.len() == 0 {
                let found = old(self)@.state[address];
                assert(found.reloaded(old(self)@.transaction_id) == found);
                assert(old(self)@.state.insert(address, found) =~= old(self)@.state);
                assert(self@ == old(self)@);
            }
        }
        let account = self.state.get_mut(&address).unwrap();
        Ok(StateLoad { data: account, is_cold })
    }
}

impl JournalInner {
    /// Loads `address` for a call. From Prague on the code of the account
    /// is made present, and where it is a delegation the account that it
    /// names is loaded too. Reports whether the account counts as empty
    /// under the fork, whether its load was cold, and whether the load of
    /// the delegate was. Where the database fails, what was loaded before
    /// the failure stays loaded.
    pub fn load_account_delegated<DB: Database>(&mut self, db: &mut DB, address: Address)
        -> (r: Result<
        StateLoad<AccountLoad>,
        DB::Error,
    >)
        ensures
            old(self)@.load_for_call_asks_nothing(address) ==> r is Ok,
            match r {
                Ok(load) => exists|
                    fetched: Option<AccountInfoModel>,
                    fetched_code: BytecodeModel,
                    fetched_delegate: Option<AccountInfoModel>,
                |
                    {
                        &&& final(self)@ == #[trigger] old(self)@.load_account_delegated(
                            address,
                            fetched,
                            fetched_code,
                            fetched_delegate,
                        )
                        &&& (load.data, load.is_cold) == old(self)@.load_account_delegated_result(
                            address,
                            fetched,
                            fetched_code,
                        )
                    },
                Err(_) => {
                    ||| !old(self)@.state.contains_key(address) && *final(self) == *old(self)
                    ||| old(self)@.spec.is_enabled_in(SpecId::PRAGUE) && exists|
                        fetched: Option<AccountInfoModel>,
                    |
                        {
                            let loaded = #[trigger] old(self)@.load_account(address, fetched);
                            final(self)@ == loaded && loaded.code_asks_database(address)
                        }
                    ||| exists|fetched: Option<AccountInfoModel>, fetched_code: BytecodeModel|
                        {
                            let loaded = #[trigger] old(self)@.load_for_call(
                                address,
                                fetched,
                                fetched_code,
                            );
                            &&& final(self)@ == loaded
                            &&& match loaded.delegate_of(address) {
                                Some(delegate) => !loaded.state.contains_key(delegate),
                                None => false,
                            }
                        }
                },
            },
    {
        let spec = self.spec;
        let is_eip7702_enabled = spec.is_enabled_in(SpecId::PRAGUE);
        let (is_cold, fetched) = match self.load_account_inner(db, address) {
            Ok(loaded) => loaded,
            Err(e) => {
                return Err(e);
            },
        };
        proof {
            lemma_state_model_dom(self.state@);
            assert(self@.state.contains_key(address));
        }
        let ghost mut fetched_code = BytecodeModel::Empty;
        if is_eip7702_enabled {
            match self.load_code_inner(db, address) {
                Ok(code) => {
                    proof {
                        fetched_code = code@;
                    }
                },
                Err(e) => {
                    return Err(e);
                },
            }
        }
        proof {
            lemma_state_model_dom(self.state@);
            assert(self@.state.contains_key(address));
            assert(self@ == old(self)@.load_for_call(address, fetched@, fetched_code));
        }
        let account = self.state.get(&address).unwrap();
        let is_empty = account.state_clear_aware_is_empty(spec);
        let delegate = match &account.info.code {
            Some(Bytecode::Eip7702 { delegate }) => if is_eip7702_enabled {
                Some(*delegate)
            } else {
                None
            },
            _ => None,
        };
        let mut is_delegate_account_cold: Option<bool> = None;
        let ghost mut fetched_delegate: Option<AccountInfoModel> = None;
        match delegate {
            Some(delegate) => {
                match self.load_account_inner(db, delegate) {
                    Ok((delegate_is_cold, delegate_fetched)) => {
                        is_delegate_account_cold = Some(delegate_is_cold);
                        proof {
                            fetched_delegate = delegate_fetched@;
                        }
                    },
                    Err(e) => {
                        return Err(e);
                    },
                }
            },
            None => {},
        }
        proof {
            assert(self@ == old(self)@.load_account_delegated(
                address,
                fetched@,
                fetched_code,
                fetched_delegate,
            ));
        }
        Ok(StateLoad::new(AccountLoad { is_delegate_account_cold, is_empty }, is_cold))
    }

    /// Adds `balance` to the balance of `address`, capped at `2^256 - 1`.
    /// The account is loaded and touched, and its old balance journaled.
    /// Where the database fails nothing changes.
    pub fn balance_incr<DB: Database>(&mut self, db: &mut DB, address: Address, balance: U256)
        -> (r: Result<
        (),
        DB::Error,
    >)
        ensures
            old(self)@.state.contains_key(address) ==> r is Ok,
            match r {
                Ok(_) => exists|fetched: Option<AccountInfoModel>|
                    final(self)@ == #[trigger] old(self)@.balance_incr(address, balance, fetched),
                Err(_) => *final(self) == *old(self),
            },
    {
        let (_, fetched) = match self.load_account_inner(db, address) {
            Ok(loaded) => loaded,
            Err(e) => {
                return Err(e);
            },
        };
        self.touch(address);
        proof {
            assert(self@.state.contains_key(address));
        }
        let old_balance = self.balance_of(address);
        self.journal.push(JournalEntry::BalanceChanged { address, old_balance });
        self.set_balance(address, old_balance.saturating_add(balance));
        proof {
            assert(self@ == old(self)@.balance_incr(address, balance, fetched@));
        }
        Ok(())
    }

    /// Sets the balance of `address`, an account in memory, without a
    /// journal entry.
    fn set_balance(&mut self, address: Address, balance: U256)
        requires
            old(self)@.state.contains_key(address),
        ensures
            final(self)@ == old(self)@.with_account(
                address,
                old(self)@.state[address].with_balance(balance),
            ),
    {
        let ghost before = self.state@;
        proof {
            lemma_state_model_dom(before);
        }
        let account = self.state.get_mut(&address).unwrap();
        account.info.balance = balance;
        proof {
            lemma_state_model_insert(before, address, self.state@[address]);
        }
    }

    /// The balance of `address`, an account in memory.
    fn balance_of(&self, address: Address) -> (r: U256)
        requires
            self@.state.contains_key(address),
        ensures
            r == self@.state[address].info.balance,
    {
        proof {
            lemma_state_model_dom(self.state@);
        }
        self.state.get(&address).unwrap().info.balance
    }

    /// Moves `balance` from `from` to `to`. A transfer of zero loads and
    /// touches `to` and does nothing else. Any other loads both accounts and
    /// touches both. It reports `OutOfFunds` where `from` has less than
    /// `balance`, and `OverflowPayment` where the balance of `to` would pass
    /// `2^256 - 1`; in both cases no balance changes. Else the amount moves
    /// and one entry for the move is journaled. The database is asked only
    /// for an account that is not in memory, and a transfer of zero never
    /// loads `from`. Where the database fails on `to`, `from` stays loaded.
    pub fn transfer<DB: Database>(
        &mut self,
        db: &mut DB,
        from: Address,
        to: Address,
        balance: U256,
    ) -> (r: Result<Option<TransferError>, DB::Error>)
        ensures
            (balance == U256::spec_zero() || old(self)@.state.contains_key(from)) && old(self)@.state.contains_key(to) ==> r is Ok,
            match r {
                Ok(outcome) => exists|
                    fetched_from: Option<AccountInfoModel>,
                    fetched_to: Option<AccountInfoModel>,
                |
                    {
                        &&& final(self)@ == #[trigger] old(self)@.transfer(
                            from,
                            to,
                            balance,
                            fetched_from,
                            fetched_to,
                        )
                        &&& outcome == old(self)@.transfer_result(
                            from,
                            to,
                            balance,
                            fetched_from,
                            fetched_to,
                        )
                    },
                Err(_) => {
                    ||| {
                        &&& *final(self) == *old(self)
                        &&& !old(self)@.state.contains_key(
                            if balance == U256::spec_zero() {
                                to
                            } else {
                                from
                            },
                        )
                    }
                    ||| balance != U256::spec_zero() && exists|
                        fetched_from: Option<AccountInfoModel>,
                    |
                        {
                            let loaded = #[trigger] old(self)@.load_account(from, fetched_from);
                            final(self)@ == loaded && !loaded.state.contains_key(to)
                        }
                },
            },
    {
        if balance.is_zero() {
            let (_, fetched_to) = match self.load_account_inner(db, to) {
                Ok(loaded) => loaded,
                Err(e) => {
                    return Err(e);
                },
            };
            self.touch(to);
            proof {
                assert(self@ == old(self)@.transfer(from, to, balance, None, fetched_to@));
            }
            return Ok(None);
        }
        let (_, fetched_from) = match self.load_account_inner(db, from) {
            Ok(loaded) => loaded,
            Err(e) => {
                return Err(e);
            },
        };
        let (_, fetched_to) = match self.load_account_inner(db, to) {
            Ok(loaded) => loaded,
            Err(e) => {
                return Err(e);
            },
        };
        self.touch(from);
        self.touch(to);
        proof {
            assert(self@ == old(self)@.transfer_prepared(from, to, fetched_from@, fetched_to@));
            assert(self@.state.contains_key(from));
            assert(self@.state.contains_key(to));
        }
        let outcome = self.transfer_loaded(from, to, balance);
        proof {
            assert(self@ == old(self)@.transfer(from, to, balance, fetched_from@, fetched_to@));
            assert(outcome == old(self)@.transfer_result(
                from,
                to,
                balance,
                fetched_from@,
                fetched_to@,
            ));
        }
        Ok(outcome)
    }

    /// Moves `balance` between two accounts in memory. Reports
    /// `OutOfFunds` where `from` has less than `balance`, and
    /// `OverflowPayment` where the balance of `to` would pass `2^256 - 1`;
    /// in both cases nothing changes. Else the amount moves and one entry for
    /// the move is journaled.
    pub fn transfer_loaded(&mut self, from: Address, to: Address, balance: U256) -> (r: Option<
        TransferError,
    >)
        requires
            old(self)@.state.contains_key(from),
            old(self)@.state.contains_key(to),
        ensures
            r == old(self)@.transfer_error(from, to, balance),
            r is Some ==> *final(self) == *old(self),
            r is None ==> final(self)@ == old(self)@.moved(from, to, balance),
    {
        let from_balance = self.balance_of(from);
        let from_balance_decr = match from_balance.checked_sub(balance) {
            Some(left) => left,
            None => {
                return Some(TransferError::OutOfFunds);
            },
        };
        let to_balance = if from == to {
            from_balance_decr
        } else {
            self.balance_of(to)
        };
        let to_balance_incr = match to_balance.checked_add(balance) {
            Some(sum) => sum,
            None => {
                return Some(TransferError::OverflowPayment);
            },
        };
        proof {
            crate::primitives::lemma_value_bounds(to_balance_incr);
        }
        self.set_balance(from, from_balance_decr);
        self.set_balance(to, to_balance_incr);
        self.journal.push(JournalEntry::BalanceTransfer { from, to, amount: balance });
        None
    }

    /// Installs `code` with its hash `hash` on `address`, an account in
    /// memory: the account is touched and the change journaled.
    pub fn set_code_with_hash(&mut self, address: Address, code: Bytecode, hash: B256)
        requires
            old(self)@.state.contains_key(address),
        ensures
            final(self)@ == old(self)@.set_code_with_hash(address, code@, hash),
    {
        self.touch(address);
        self.journal.push(JournalEntry::CodeChanged { address });
        let ghost before = self.state@;
        proof {
            lemma_state_model_dom(before);
            assert(self@.state.contains_key(address));
        }
        let account = self.state.get_mut(&address).unwrap();
        account.info.code_hash = hash;
        account.info.code = Some(code);
        proof {
            lemma_state_model_insert(before, address, self.state@[address]);
        }
    }

    /// Installs `code` on `address`, an account in memory, under the hash
    /// of the code. A delegation to the zero address erases the code: the
    /// account gets empty code and the hash of empty code.
    pub fn set_code(&mut self, address: Address, code: Bytecode)
        requires
            old(self)@.state.contains_key(address),
        ensures
            final(self)@ == old(self)@.set_code(address, code@),
    {
        let erases = match &code {
            Bytecode::Eip7702 { delegate } => delegate.is_zero(),
            _ => false,
        };
        if erases {
            self.set_code_with_hash(address, Bytecode::Empty, B256::keccak_empty());
            return ;
        }
        let hash = code.hash_slow();
        self.set_code_with_hash(address, code, hash)
    }
}

impl JournalInner {
    /// Lets `address` destroy itself in favour of `target`. `target` is
    /// loaded. Where it is another account, it is touched and credited with
    /// the balance of `address`, modulo `2^256`. Before Cancun, and from
    /// Cancun on where `address` was created in this transaction, `address`
    /// gets both destruction marks and a balance of zero, and the
    /// destruction is journaled. Else the balance of `address` becomes zero
    /// and the move is journaled as a transfer, unless `target` is `address`
    /// itself: then the balance stays. Where the database fails nothing
    /// changes.
    pub fn selfdestruct<DB: Database>(&mut self, db: &mut DB, address: Address, target: Address) -> (r: Result<
        StateLoad<SelfDestructResult>,
        DB::Error,
    >)
        requires
            old(self)@.state.contains_key(address) || address == target,
        ensures
            old(self)@.state.contains_key(target) ==> r is Ok,
            match r {
                Ok(load) => exists|fetched_target: Option<AccountInfoModel>|
                    {
                        &&& final(self)@ == #[trigger] old(self)@.selfdestruct(
                            address,
                            target,
                            fetched_target,
                        )
                        &&& load.data
                            == old(self)@.selfdestruct_result(address, target, fetched_target)
                        &&& load.is_cold == old(self)@.load_is_cold(target)
                    },
                Err(_) => *final(self) == *old(self),
            },
    {
        let (is_cold, fetched_target) = match self.load_account_inner(db, target) {
            Ok(loaded) => loaded,
            Err(e) => {
                return Err(e);
            },
        };
        let result = self.selfdestruct_loaded(address, target);
        proof {
            assert(self@ == old(self)@.selfdestruct(address, target, fetched_target@));
        }
        Ok(StateLoad::new(result, is_cold))
    }

    /// What [`selfdestruct`](Self::selfdestruct) does once `target` is
    /// loaded; both accounts are in memory.
    pub fn selfdestruct_loaded(&mut self, address: Address, target: Address)
        -> (r: SelfDestructResult)
        requires
            old(self)@.state.contains_key(address),
            old(self)@.state.contains_key(target),
        ensures
            final(self)@ == old(self)@.selfdestruct_loaded(address, target),
            r == old(self)@.selfdestruct_loaded_result(address, target),
    {
        let spec = self.spec;
        proof {
            lemma_state_model_dom(self.state@);
        }
        let is_empty = self.state.get(&target).unwrap().state_clear_aware_is_empty(spec);
        if address != target {
            let acc_balance = self.balance_of(address);
            self.touch(target);
            let target_balance = self.balance_of(target);
            self.set_balance(target, target_balance.wrapping_add(acc_balance));
        }
        let ghost credited = self.state@;
        proof {
            assert(self@ == old(self)@.selfdestruct_credit(address, target));
            lemma_state_model_dom(credited);
            assert(self@.state.contains_key(address));
        }
        let is_cancun_enabled = spec.is_enabled_in(SpecId::CANCUN);
        let account = self.state.get_mut(&address).unwrap();
        let balance = account.info.balance;
        let destroyed_status = if !account.is_selfdestructed() {
            SelfdestructionRevertStatus::GloballySelfdestroyed
        } else if !account.is_selfdestructed_locally() {
            SelfdestructionRevertStatus::LocallySelfdestroyed
        } else {
            SelfdestructionRevertStatus::RepeatedSelfdestruction
        };
        let journal_entry = if account.is_created_locally() || !is_cancun_enabled {
            account.mark_selfdestructed_locally();
            account.info.balance = U256::zero();
            Some(
                JournalEntry::AccountDestroyed {
                    address,
                    target,
                    status: destroyed_status,
                    had_balance: balance,
                },
            )
        } else if address != target {
            account.info.balance = U256::zero();
            Some(JournalEntry::BalanceTransfer { from: address, to: target, amount: balance })
        } else {
            None
        };
        proof {
            lemma_state_model_insert(credited, address, self.state@[address]);
            if journal_entry is None {
                assert(state_model(credited).insert(address, credited[address]@) =~= state_model(
                    credited,
                ));
            }
        }
        match journal_entry {
            Some(entry) => {
                self.journal.push(entry);
            },
            None => {},
        }
        SelfDestructResult {
            had_value: !balance.is_zero(),
            target_exists: !is_empty,
            previously_destroyed: destroyed_status
                == SelfdestructionRevertStatus::RepeatedSelfdestruction,
        }
    }

    /// Opens a checkpoint and creates the account `target` on behalf of
    /// `caller`, which pays `balance`; both accounts are in memory. Reports
    /// `OutOfFunds` where `caller` has less than `balance`,
    /// `CreateCollision` where `target` has code or a nonce, and
    /// `OverflowPayment` where the balance of `target` would pass
    /// `2^256 - 1`; in each case the checkpoint is reverted again. Else
    /// `target` gets both creation marks, loses its code, has nonce one from
    /// Spurious Dragon on, is touched and is paid, and the checkpoint stays
    /// open: it is handed back.
    pub fn create_account_checkpoint(
        &mut self,
        caller: Address,
        target_address: Address,
        balance: U256,
        spec_id: SpecId,
    ) -> (r: Result<JournalCheckpoint, TransferError>)
        requires
            old(self)@.state.contains_key(caller),
            old(self)@.state.contains_key(target_address),
            old(self).depth < usize::MAX,
        ensures
            r == match old(self)@.create_error(caller, target_address, balance) {
                Some(error) => Err::<JournalCheckpoint, TransferError>(error),
                None => Ok(old(self)@.checkpoint_mark()),
            },
            final(self)@ == old(self)@.create_account_checkpoint(
                caller,
                target_address,
                balance,
                spec_id,
            ),
    {
        let checkpoint = self.checkpoint();
        proof {
            lemma_state_model_dom(self.state@);
            lemma_checkpoint_revert_at_once(old(self)@);
        }
        let caller_balance = self.balance_of(caller);
        if caller_balance.lt(&balance) {
            self.checkpoint_revert(checkpoint);
            return Err(TransferError::OutOfFunds);
        }
        let (code_hash, nonce, target_balance) = {
            let target = self.state.get(&target_address).unwrap();
            (target.info.code_hash, target.info.nonce, target.info.balance)
        };
        if code_hash != B256::keccak_empty() || nonce != 0 {
            self.checkpoint_revert(checkpoint);
            return Err(TransferError::CreateCollision);
        }
        let ghost before = self.state@;
        let target = self.state.get_mut(&target_address).unwrap();
        let was_globally_created = target.mark_created_locally();
        target.info.code = None;
        if spec_id.is_enabled_in(SpecId::SPURIOUS_DRAGON) {
            target.info.nonce = 1;
        }
        self.journal.push(
            JournalEntry::AccountCreated { address: target_address, was_globally_created },
        );
        proof {
            lemma_state_model_insert(before, target_address, self.state@[target_address]);
        }
        self.touch(target_address);
        proof {
            assert(self@ == old(self)@.checkpoint().create_marked(target_address, spec_id));
        }
        let new_balance = match target_balance.checked_add(balance) {
            Some(sum) => sum,
            None => {
                proof {
                    lemma_create_marks_undone(old(self)@, target_address, spec_id);
                }
                self.checkpoint_revert(checkpoint);
                return Err(TransferError::OverflowPayment);
            },
        };
        proof {
            crate::primitives::lemma_value_bounds(new_balance);
            crate::primitives::lemma_wrapping_inverse(target_balance, balance);
        }
        let ghost marked = self@;
        self.set_balance(target_address, new_balance);
        let caller_balance = self.balance_of(caller);
        self.set_balance(caller, caller_balance.wrapping_sub(balance));
        self.journal.push(
            JournalEntry::BalanceTransfer { from: caller, to: target_address, amount: balance },
        );
        proof {
            assert(self@.state =~= marked.moved(caller, target_address, balance).state);
        }
        Ok(checkpoint)
    }
}

/// A checkpoint that is reverted at once leaves the journal as it was.
pub proof fn lemma_checkpoint_revert_at_once(j: JournalModel)
    requires
        j.depth < usize::MAX,
        j.logs.len() <= usize::MAX,
        j.journal.len() <= usize::MAX,
    ensures
        j.checkpoint().checkpoint_revert(j.checkpoint_mark()) == j,
{
    let mark = j.checkpoint_mark();
    let opened = j.checkpoint();
    assert(opened.journal.subrange(mark.journal_i as int, opened.journal.len() as int) =~= Seq::<
        JournalEntry,
    >::empty());
    assert(opened.journal.subrange(0, mark.journal_i as int) =~= j.journal);
}

/// Where the creation of `target` is marked and then reverted, `target`
/// is left as its creation undone leaves it, and nothing else has changed.
pub proof fn lemma_create_marks_undone(j: JournalModel, target: Address, spec_id: SpecId)
    requires
        j.depth < usize::MAX,
        j.logs.len() <= usize::MAX,
        j.journal.len() <= usize::MAX,
        j.state.contains_key(target),
        j.state[target].info.nonce == 0,
    ensures
        j.checkpoint().create_marked(target, spec_id).checkpoint_revert(j.checkpoint_mark())
            == j.with_account(
            target,
            crate::entry::uncreated(j.state[target], j.state[target].status.created_globally),
        ),
{
    let mark = j.checkpoint_mark();
    let marked = j.checkpoint().create_marked(target, spec_id);
    let account = j.state[target];
    let created = JournalEntry::AccountCreated {
        address: target,
        was_globally_created: account.status.created_globally,
    };
    let touched = JournalEntry::AccountTouched { address: target };
    let undone = marked.journal.subrange(mark.journal_i as int, marked.journal.len() as int);
    let empty = Seq::<JournalEntry>::empty();
    let goal = j.state.insert(
        target,
        crate::entry::uncreated(account, account.status.created_globally),
    );
    assert(marked.journal.subrange(0, mark.journal_i as int) =~= j.journal);
    if account.status.touched {
        assert(undone =~= empty.push(created));
        lemma_undo_all_push(marked.state, marked.transient_storage, empty, created);
        assert(created.undo_state(marked.state) =~= goal);
    } else {
        assert(undone =~= empty.push(created).push(touched));
        lemma_undo_all_push(marked.state, marked.transient_storage, empty.push(created), touched);
        let middle = touched.undo_state(marked.state);
        lemma_undo_all_push(middle, marked.transient_storage, empty, created);
        assert(created.undo_state(middle) =~= goal);
    }
}

/// Loading slots after a load without slots is loading with the slots.
proof fn lemma_sload_all_from(
    j: JournalModel,
    address: Address,
    load_code: bool,
    keys: Seq<StorageKey>,
    fetched: Option<AccountInfoModel>,
    fetched_code: BytecodeModel,
    fetched_slots: Seq<StorageValue>,
)
    ensures
        j.load_account_optional(
            address,
            load_code,
            Seq::empty(),
            fetched,
            fetched_code,
            Seq::empty(),
        ).sload_all(address, keys, fetched_slots) == j.load_account_optional(
            address,
            load_code,
            keys,
            fetched,
            fetched_code,
            fetched_slots,
        ),
{
}

impl Default for JournalInner {
    fn default() -> (r: JournalInner)
        ensures
            r@ == JournalModel::empty(),
    {
        JournalInner::new()
    }
}

} // verus!
