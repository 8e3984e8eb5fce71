//! What holds of the journal across operations: a revert restores what a
//! checkpoint saw, warm stays warm, and a transaction boundary resets.
use crate::entry::{uncreated, JournalEntry};
use crate::journal_model::{
    destroyed_status_of, free_of_zero, lemma_undo_all_concat, lemma_undo_all_push,
    next_transaction_id, undo_all, undo_all_transient, JournalCheckpoint, JournalModel,
    TransferError,
};
use crate::primitives::{
    lemma_from_int_value, lemma_value_bounds, lemma_wrapping_inverse, word_max, wrapping_diff,
    wrapping_sum, Address, EvmLog, SpecId, StorageKey, StorageValue, B256, U256,
};
use crate::state::{AccountInfoModel, AccountModel, BytecodeModel, StorageSlot};
use crate::vec_map::SlotId;
use vstd::prelude::*;

verus! {

// ----- transaction boundaries -----
/// Whether nothing of a transaction is pending: no entry, no log, no
/// transient word, no open checkpoint, no coinbase, and the warm addresses
/// are the precompiles.
pub open spec fn is_at_rest(j: JournalModel) -> bool {
    &&& j.journal == Seq::<JournalEntry>::empty()
    &&& j.logs == Seq::<EvmLog>::empty()
    &&& j.transient_storage == Map::<SlotId, StorageValue>::empty()
    &&& j.depth == 0
    &&& j.warm_coinbase_address is None
    &&& j.warm_preloaded_addresses == j.precompiles
}

/// Every transaction boundary leaves the journal at rest and well formed:
/// transient storage, journal and logs are empty, no checkpoint is open,
/// the coinbase is forgotten, and the warm addresses are exactly the
/// precompiles, whatever they were. A commit keeps the state; all three
/// keep the fork and the precompiles.
pub proof fn lemma_boundary_resets(j: JournalModel)
    ensures
        j.commit_tx().transient_storage == Map::<SlotId, StorageValue>::empty(),
        j.discard_tx().transient_storage == Map::<SlotId, StorageValue>::empty(),
        j.finalize().transient_storage == Map::<SlotId, StorageValue>::empty(),
        j.commit_tx().warm_preloaded_addresses == j.precompiles,
        j.discard_tx().warm_preloaded_addresses == j.precompiles,
        j.finalize().warm_preloaded_addresses == j.precompiles,
        is_at_rest(j.commit_tx()) && j.commit_tx().wf(),
        is_at_rest(j.discard_tx()) && j.discard_tx().wf(),
        is_at_rest(j.finalize()) && j.finalize().wf(),
        j.commit_tx().state == j.state,
        j.commit_tx().precompiles == j.precompiles && j.commit_tx().spec == j.spec,
        j.discard_tx().precompiles == j.precompiles && j.discard_tx().spec == j.spec,
        j.finalize().precompiles == j.precompiles && j.finalize().spec == j.spec,
{
}

/// A discard that follows a commit changes nothing but the transaction
/// count, which has then been raised twice. On a journal at rest the two
/// together leave every field as it was, but for the transaction count.
/// Where the count has room, it has gone up by two.
pub proof fn lemma_commit_then_discard(j: JournalModel)
    ensures
        j.commit_tx().discard_tx() == (JournalModel {
            transaction_id: next_transaction_id(next_transaction_id(j.transaction_id)),
            ..j.commit_tx()
        }),
        is_at_rest(j) ==> j.commit_tx().discard_tx() == (JournalModel {
            transaction_id: next_transaction_id(next_transaction_id(j.transaction_id)),
            ..j
        }),
        j.transaction_id + 2 <= usize::MAX ==> j.commit_tx().discard_tx().transaction_id
            == j.transaction_id + 2,
{
    let committed = j.commit_tx();
    assert(undo_all(committed.state, committed.journal) == committed.state);
}

// ----- warm stays warm -----
/// Whether `address` is in memory and was loaded by the current
/// transaction: a load of it is not cold.
pub open spec fn account_is_warm(j: JournalModel, address: Address) -> bool {
    j.state.contains_key(address) && !j.state[address].is_cold_for(j.transaction_id)
}

/// Whether slot `key` of `address` is in memory and was touched by the
/// current transaction, and so is the account: a load of the slot is not
/// cold.
pub open spec fn slot_is_warm(j: JournalModel, address: Address, key: StorageKey) -> bool {
    account_is_warm(j, address) && !j.state[address].slot_is_cold(key, j.transaction_id)
}

/// Whether everything that is warm in `before` is warm in `after`, with
/// every warm slot keeping its original value, and the transaction is the
/// same.
pub open spec fn keeps_warm(before: JournalModel, after: JournalModel) -> bool {
    &&& after.transaction_id == before.transaction_id
    &&& forall|address: Address| #[trigger]
        account_is_warm(before, address) ==> account_is_warm(after, address)
    &&& forall|address: Address, key: StorageKey| #[trigger]
        slot_is_warm(before, address, key) ==> slot_is_warm(after, address, key)
            && after.state[address].storage[key].original_value
            == before.state[address].storage[key].original_value
}

/// A warm account is not loaded cold, and a warm slot is not loaded cold.
pub proof fn lemma_warm_is_not_loaded_cold(j: JournalModel, address: Address, key: StorageKey)
    ensures
        account_is_warm(j, address) ==> !j.load_is_cold(address),
        slot_is_warm(j, address, key) ==> !j.sload_is_cold(address, key),
{
}

/// What stays warm over two stretches stays warm over both together.
pub proof fn lemma_keeps_warm_transitive(a: JournalModel, b: JournalModel, c: JournalModel)
    requires
        keeps_warm(a, b),
        keeps_warm(b, c),
    ensures
        keeps_warm(a, c),
{
    assert forall|address: Address| #[trigger] account_is_warm(a, address) implies account_is_warm(
        c,
        address,
    ) by {
        assert(account_is_warm(b, address));
    }
    assert forall|address: Address, key: StorageKey| #[trigger]
        slot_is_warm(a, address, key) implies slot_is_warm(c, address, key)
        && c.state[address].storage[key].original_value
        == a.state[address].storage[key].original_value by {
        assert(slot_is_warm(b, address, key));
    }
}

// ----- a revert restores -----
/// The entries that `after` has beyond those of `before`.
pub open spec fn added_entries(before: JournalModel, after: JournalModel) -> Seq<JournalEntry> {
    after.journal.subrange(before.journal.len() as int, after.journal.len() as int)
}

/// Whether `after` can be taken back to `before`: its journal and its logs
/// begin with those of `before`, undoing the entries that were added gives
/// the state and the transient storage of `before`, and the other fields,
/// the number of open checkpoints apart, are the same.
pub open spec fn extends_reversibly(before: JournalModel, after: JournalModel) -> bool {
    &&& before.journal.len() <= after.journal.len()
    &&& after.journal.subrange(0, before.journal.len() as int) == before.journal
    &&& undo_all(after.state, added_entries(before, after)) == before.state
    &&& undo_all_transient(after.transient_storage, added_entries(before, after))
        == before.transient_storage
    &&& before.logs.len() <= after.logs.len()
    &&& after.logs.subrange(0, before.logs.len() as int) == before.logs
    &&& after.transaction_id == before.transaction_id
    &&& after.spec == before.spec
    &&& after.warm_preloaded_addresses == before.warm_preloaded_addresses
    &&& after.warm_coinbase_address == before.warm_coinbase_address
    &&& after.precompiles == before.precompiles
}

/// What can be taken back is restored by a revert to a checkpoint that was
/// taken before it: state, transient storage, logs and journal are those of
/// the moment of the checkpoint.
pub proof fn lemma_revert_of_extension(before: JournalModel, after: JournalModel)
    requires
        extends_reversibly(before, after),
        before.journal.len() <= usize::MAX,
        before.logs.len() <= usize::MAX,
    ensures
        after.checkpoint_revert(before.checkpoint_mark()) == (JournalModel {
            depth: (after.depth - 1) as usize,
            ..before
        }),
{
    let reverted = after.checkpoint_revert(before.checkpoint_mark());
    if before.logs.len() == after.logs.len() {
        assert(after.logs.subrange(0, before.logs.len() as int) =~= after.logs);
    }
}

/// A journal can be taken back to itself: there is nothing to undo.
pub proof fn lemma_extends_reflexive(j: JournalModel)
    ensures
        extends_reversibly(j, j),
{
    assert(j.journal.subrange(0, j.journal.len() as int) =~= j.journal);
    assert(j.logs.subrange(0, j.logs.len() as int) =~= j.logs);
    assert(added_entries(j, j) =~= Seq::<JournalEntry>::empty());
}

/// What can be taken back in two stretches can be taken back in one.
pub proof fn lemma_extends_transitive(a: JournalModel, b: JournalModel, c: JournalModel)
    requires
        extends_reversibly(a, b),
        extends_reversibly(b, c),
    ensures
        extends_reversibly(a, c),
{
    let na = a.journal.len() as int;
    let nb = b.journal.len() as int;
    assert(c.journal.subrange(0, na) =~= c.journal.subrange(0, nb).subrange(0, na));
    assert(c.logs.subrange(0, a.logs.len() as int) =~= c.logs.subrange(
        0,
        b.logs.len() as int,
    ).subrange(0, a.logs.len() as int));
    assert(added_entries(a, c) =~= added_entries(a, b) + added_entries(b, c)) by {
        assert(added_entries(a, b) =~= c.journal.subrange(0, nb).subrange(na, nb));
    }
    lemma_undo_all_concat(c.state, c.transient_storage, added_entries(a, b), added_entries(b, c));
}

/// A step that leaves state, transient storage and journal alone, and
/// at most adds logs or changes the number of open checkpoints, can be
/// taken back.
proof fn lemma_step_without_entry(a: JournalModel, b: JournalModel)
    requires
        b.journal == a.journal,
        b.state == a.state,
        b.transient_storage == a.transient_storage,
        a.logs.len() <= b.logs.len(),
        b.logs.subrange(0, a.logs.len() as int) == a.logs,
        b.transaction_id == a.transaction_id,
        b.spec == a.spec,
        b.warm_preloaded_addresses == a.warm_preloaded_addresses,
        b.warm_coinbase_address == a.warm_coinbase_address,
        b.precompiles == a.precompiles,
    ensures
        extends_reversibly(a, b),
{
    assert(b.journal.subrange(0, a.journal.len() as int) =~= a.journal);
    assert(added_entries(a, b) =~= Seq::<JournalEntry>::empty());
}

/// A step that adds one entry whose undoing gives back the state and the
/// transient storage can be taken back.
proof fn lemma_step_with_entry(a: JournalModel, b: JournalModel, entry: JournalEntry)
    requires
        b.journal == a.journal.push(entry),
        entry.undo_state(b.state) == a.state,
        entry.undo_transient(b.transient_storage) == a.transient_storage,
        b.logs == a.logs,
        b.transaction_id == a.transaction_id,
        b.spec == a.spec,
        b.warm_preloaded_addresses == a.warm_preloaded_addresses,
        b.warm_coinbase_address == a.warm_coinbase_address,
        b.precompiles == a.precompiles,
    ensures
        extends_reversibly(a, b),
{
    assert(b.journal.subrange(0, a.journal.len() as int) =~= a.journal);
    assert(b.logs.subrange(0, a.logs.len() as int) =~= a.logs);
    assert(added_entries(a, b) =~= Seq::<JournalEntry>::empty().push(entry));
    lemma_undo_all_push(b.state, b.transient_storage, Seq::empty(), entry);
}

/// Whether a load of `address` can be taken back in full: the account is
/// in memory and this transaction has loaded it before, and where it is
/// marked cold it carries no mark of this transaction that the load would
/// clear.
pub open spec fn load_is_reversible(j: JournalModel, address: Address) -> bool {
    &&& j.state.contains_key(address)
    &&& j.state[address].last_touched_tx == j.transaction_id
    &&& j.state[address].status.cold ==> !j.state[address].status.created_locally
        && !j.state[address].status.selfdestructed_locally
}

/// Whether a selfdestruct of `account` under `spec` can be taken back in
/// full: where it destroys the account, the account does not carry the
/// local destruction mark without the global one.
pub open spec fn destruction_is_reversible(account: AccountModel, spec: SpecId) -> bool {
    JournalModel::destroys(account, spec) ==> (account.status.selfdestructed_locally
        ==> account.status.selfdestructed_globally)
}

/// A touch can be taken back, keeps what is warm, and changes no account
/// but the one touched, of which it changes the touched mark alone.
pub proof fn lemma_touch_reversible(j: JournalModel, address: Address)
    ensures
        extends_reversibly(j, j.touch(address)),
        keeps_warm(j, j.touch(address)),
        j.touch(address).state.dom() == j.state.dom(),
        j.wf() ==> j.touch(address).wf(),
        forall|other: Address|
            other != address && j.state.contains_key(other) ==> #[trigger] j.touch(
                address,
            ).state[other] == j.state[other],
        j.state.contains_key(address)
            ==> j.touch(address).state[address] == j.state[address].touched(),
        same_but_state(j, j.touch(address)),
{
    let after = j.touch(address);
    if j.state.contains_key(address) && !j.state[address].status.touched {
        let entry = JournalEntry::AccountTouched { address };
        assert(entry.undo_state(after.state) =~= j.state);
        lemma_step_with_entry(j, after, entry);
        assert(after.state.dom() =~= j.state.dom());
    } else {
        lemma_extends_reflexive(j);
    }
}

/// A load of a warm account changes nothing.
pub proof fn lemma_load_warm_account(j: JournalModel, address: Address, fetched: Option<AccountInfoModel>)
    requires
        account_is_warm(j, address),
    ensures
        j.load_account(address, fetched) == j,
{
    assert(j.state.insert(address, j.state[address].reloaded(j.transaction_id)) =~= j.state);
}

/// A load that [`load_is_reversible`] admits can be taken back; it changes
/// the account loaded in nothing but its cold mark, and no other account.
pub proof fn lemma_load_reversible(j: JournalModel, address: Address, fetched: Option<AccountInfoModel>)
    requires
        load_is_reversible(j, address),
    ensures
        extends_reversibly(j, j.load_account(address, fetched)),
        j.load_account(address, fetched).state == j.state.insert(
            address,
            j.state[address].marked_warm(j.transaction_id),
        ),
        account_is_warm(j.load_account(address, fetched), address),
        forall|other: Address| #[trigger]
            load_is_reversible(j, other) ==> load_is_reversible(
                j.load_account(address, fetched),
                other,
            ),
{
    let after = j.load_account(address, fetched);
    let account = j.state[address];
    if account.status.cold {
        let entry = JournalEntry::AccountWarmed { address };
        assert(account.reloaded(j.transaction_id) == account.marked_warm(j.transaction_id));
        assert(entry.undo_state(after.state) =~= j.state);
        lemma_step_with_entry(j, after, entry);
    } else {
        lemma_load_warm_account(j, address, fetched);
        lemma_extends_reflexive(j);
        assert(j.state.insert(address, account.marked_warm(j.transaction_id)) =~= j.state);
    }
}

/// Any load of an account keeps what is warm.
pub proof fn lemma_load_keeps_warm(j: JournalModel, address: Address, fetched: Option<AccountInfoModel>)
    ensures
        keeps_warm(j, j.load_account(address, fetched)),
        account_is_warm(j.load_account(address, fetched), address),
        j.wf() ==> j.load_account(address, fetched).wf(),
        forall|other: Address|
            j.state.contains_key(other) ==> #[trigger] j.load_account(
                address,
                fetched,
            ).state.contains_key(other),
        same_but_state(j, j.load_account(address, fetched)),
{
}

/// A load of a slot that is warm or not in memory can be taken back.
pub proof fn lemma_sload_reversible(j: JournalModel, address: Address, key: StorageKey, fetched: StorageValue)
    requires
        j.state.contains_key(address),
        !j.state[address].storage.contains_key(key) || !j.sload_is_cold(address, key),
    ensures
        extends_reversibly(j, j.sload(address, key, fetched)),
{
    let after = j.sload(address, key, fetched);
    let account = j.state[address];
    if account.storage.contains_key(key) {
        assert(account.storage.insert(key, account.storage[key]) =~= account.storage);
        assert(after.state =~= j.state);
        lemma_extends_reflexive(j);
    } else {
        let entry = JournalEntry::StorageWarmed { address, key };
        assert(after.state[address].storage.remove(key) =~= account.storage);
        assert(entry.undo_state(after.state) =~= j.state);
        lemma_step_with_entry(j, after, entry);
    }
}

/// Any load of a slot keeps what is warm.
pub proof fn lemma_sload_keeps_warm(j: JournalModel, address: Address, key: StorageKey, fetched: StorageValue)
    requires
        j.state.contains_key(address),
    ensures
        keeps_warm(j, j.sload(address, key, fetched)),
        account_is_warm(j, address) ==> slot_is_warm(j.sload(address, key, fetched), address, key),
        j.sload(address, key, fetched).state.dom() == j.state.dom(),
        j.sload(address, key, fetched).state[address].storage.contains_key(key),
        j.wf() ==> j.sload(address, key, fetched).wf(),
        same_but_state(j, j.sload(address, key, fetched)),
{
    let after = j.sload(address, key, fetched);
    assert(after.state.dom() =~= j.state.dom());
}

/// A store to a slot that is warm or not in memory can be taken back.
pub proof fn lemma_sstore_reversible(
    j: JournalModel,
    address: Address,
    key: StorageKey,
    new: StorageValue,
    fetched: StorageValue,
)
    requires
        j.state.contains_key(address),
        !j.state[address].storage.contains_key(key) || !j.sload_is_cold(address, key),
    ensures
        extends_reversibly(j, j.sstore(address, key, new, fetched)),
{
    let loaded = j.sload(address, key, fetched);
    let after = j.sstore(address, key, new, fetched);
    lemma_sload_reversible(j, address, key, fetched);
    let account = loaded.state[address];
    let present = account.storage[key].present_value;
    if present != new {
        let entry = JournalEntry::StorageChanged { address, key, old_value: present };
        assert(after.state[address].storage.insert(
            key,
            StorageSlot { present_value: present, ..after.state[address].storage[key] },
        ) =~= account.storage);
        assert(entry.undo_state(after.state) =~= loaded.state);
        lemma_step_with_entry(loaded, after, entry);
        lemma_extends_transitive(j, loaded, after);
    }
}

/// Any store to a slot keeps what is warm.
pub proof fn lemma_sstore_keeps_warm(
    j: JournalModel,
    address: Address,
    key: StorageKey,
    new: StorageValue,
    fetched: StorageValue,
)
    requires
        j.state.contains_key(address),
    ensures
        keeps_warm(j, j.sstore(address, key, new, fetched)),
        j.wf() ==> j.sstore(address, key, new, fetched).wf(),
        same_but_state(j, j.sstore(address, key, new, fetched)),
{
    let loaded = j.sload(address, key, fetched);
    let after = j.sstore(address, key, new, fetched);
    lemma_sload_keeps_warm(j, address, key, fetched);
    assert(keeps_warm(loaded, after));
    lemma_keeps_warm_transitive(j, loaded, after);
}

/// A move of value between two accounts in memory can be taken back.
pub proof fn lemma_moved_reversible(j: JournalModel, from: Address, to: Address, amount: U256)
    requires
        j.state.contains_key(from),
        j.state.contains_key(to),
    ensures
        extends_reversibly(j, j.moved(from, to, amount)),
        keeps_warm(j, j.moved(from, to, amount)),
        j.wf() ==> j.moved(from, to, amount).wf(),
        j.moved(from, to, amount).state.dom() == j.state.dom(),
        same_but_state(j, j.moved(from, to, amount)),
{
    let after = j.moved(from, to, amount);
    let entry = JournalEntry::BalanceTransfer { from, to, amount };
    lemma_wrapping_inverse(j.state[from].info.balance, amount);
    lemma_wrapping_inverse(j.state[to].info.balance, amount);
    lemma_wrapping_inverse(wrapping_diff(j.state[from].info.balance, amount), amount);
    assert(entry.undo_state(after.state) =~= j.state);
    lemma_step_with_entry(j, after, entry);
    assert(after.state.dom() =~= j.state.dom());
}

/// A store to transient storage can be taken back.
pub proof fn lemma_tstore_reversible(j: JournalModel, address: Address, key: StorageKey, new: StorageValue)
    requires
        j.wf(),
    ensures
        extends_reversibly(j, j.tstore(address, key, new)),
        keeps_warm(j, j.tstore(address, key, new)),
        j.tstore(address, key, new).wf(),
        j.tstore(address, key, new).state == j.state,
{
    let after = j.tstore(address, key, new);
    let slot = SlotId { address, key };
    let old_value = j.tload(address, key);
    if old_value != new {
        let entry = JournalEntry::TransientStorageChanged { address, key, old_value };
        assert(entry.undo_transient(after.transient_storage) =~= j.transient_storage);
        assert(entry.undo_state(after.state) =~= j.state);
        lemma_step_with_entry(j, after, entry);
    } else {
        assert(after.transient_storage =~= j.transient_storage);
        lemma_extends_reflexive(j);
    }
}

/// Making code present keeps what is warm.
pub proof fn lemma_load_code_keeps_warm(j: JournalModel, address: Address, fetched_code: BytecodeModel)
    requires
        j.state.contains_key(address),
    ensures
        keeps_warm(j, j.load_code_of(address, fetched_code)),
        j.wf() ==> j.load_code_of(address, fetched_code).wf(),
        j.state[address].info.code is Some ==> j.load_code_of(address, fetched_code) == j,
        forall|other: Address|
            j.state.contains_key(other) ==> #[trigger] j.load_code_of(
                address,
                fetched_code,
            ).state.contains_key(other),
        same_but_state(j, j.load_code_of(address, fetched_code)),
{
}

/// Installing code on an account that had none can be taken back.
pub proof fn lemma_set_code_with_hash_reversible(
    j: JournalModel,
    address: Address,
    code: BytecodeModel,
    hash: B256,
)
    requires
        j.state.contains_key(address),
        j.state[address].info.code is None,
        j.state[address].info.code_hash == B256::spec_keccak_empty(),
    ensures
        extends_reversibly(j, j.set_code_with_hash(address, code, hash)),
{
    let touched = j.touch(address);
    let after = j.set_code_with_hash(address, code, hash);
    let entry = JournalEntry::CodeChanged { address };
    lemma_touch_reversible(j, address);
    assert(touched.state.contains_key(address));
    assert(entry.undo_state(after.state) =~= touched.state);
    lemma_step_with_entry(touched, after, entry);
    lemma_extends_transitive(j, touched, after);
}

/// Installing code keeps what is warm.
pub proof fn lemma_set_code_with_hash_keeps_warm(
    j: JournalModel,
    address: Address,
    code: BytecodeModel,
    hash: B256,
)
    requires
        j.state.contains_key(address),
    ensures
        keeps_warm(j, j.set_code_with_hash(address, code, hash)),
        j.wf() ==> j.set_code_with_hash(address, code, hash).wf(),
        same_but_state(j, j.set_code_with_hash(address, code, hash)),
{
    let touched = j.touch(address);
    let after = j.set_code_with_hash(address, code, hash);
    lemma_touch_reversible(j, address);
    assert(touched.state.contains_key(address));
    assert(keeps_warm(touched, after));
    lemma_keeps_warm_transitive(j, touched, after);
}

/// Raising the balance of an account whose load can be taken back can be
/// taken back.
pub proof fn lemma_balance_incr_reversible(
    j: JournalModel,
    address: Address,
    amount: U256,
    fetched: Option<AccountInfoModel>,
)
    requires
        load_is_reversible(j, address),
    ensures
        extends_reversibly(j, j.balance_incr(address, amount, fetched)),
{
    let loaded = j.load_account(address, fetched);
    lemma_load_reversible(j, address, fetched);
    let touched = loaded.touch(address);
    let after = j.balance_incr(address, amount, fetched);
    lemma_touch_reversible(loaded, address);
    let entry = JournalEntry::BalanceChanged {
        address,
        old_balance: touched.state[address].info.balance,
    };
    assert(entry.undo_state(after.state) =~= touched.state);
    lemma_step_with_entry(touched, after, entry);
    lemma_extends_transitive(j, loaded, touched);
    lemma_extends_transitive(j, touched, after);
}

/// Raising a balance keeps what is warm.
pub proof fn lemma_balance_incr_keeps_warm(
    j: JournalModel,
    address: Address,
    amount: U256,
    fetched: Option<AccountInfoModel>,
)
    ensures
        keeps_warm(j, j.balance_incr(address, amount, fetched)),
        j.wf() ==> j.balance_incr(address, amount, fetched).wf(),
        same_but_state(j, j.balance_incr(address, amount, fetched)),
{
    let loaded = j.load_account(address, fetched);
    let touched = loaded.touch(address);
    let after = j.balance_incr(address, amount, fetched);
    lemma_load_keeps_warm(j, address, fetched);
    lemma_touch_reversible(loaded, address);
    assert(touched.state.contains_key(address));
    assert(keeps_warm(touched, after));
    lemma_keeps_warm_transitive(j, loaded, touched);
    lemma_keeps_warm_transitive(j, touched, after);
}

/// A transfer between accounts whose loads can be taken back can be taken
/// back, whether it moves the amount or reports an error.
pub proof fn lemma_transfer_reversible(
    j: JournalModel,
    from: Address,
    to: Address,
    amount: U256,
    fetched_from: Option<AccountInfoModel>,
    fetched_to: Option<AccountInfoModel>,
)
    requires
        load_is_reversible(j, to),
        amount != U256::spec_zero() ==> load_is_reversible(j, from),
    ensures
        extends_reversibly(j, j.transfer(from, to, amount, fetched_from, fetched_to)),
{
    let after = j.transfer(from, to, amount, fetched_from, fetched_to);
    if amount == U256::spec_zero() {
        let loaded = j.load_account(to, fetched_to);
        lemma_load_reversible(j, to, fetched_to);
        lemma_touch_reversible(loaded, to);
        lemma_extends_transitive(j, loaded, after);
    } else {
        let from_loaded = j.load_account(from, fetched_from);
        lemma_load_reversible(j, from, fetched_from);
        assert(load_is_reversible(from_loaded, to));
        let both_loaded = from_loaded.load_account(to, fetched_to);
        lemma_load_reversible(from_loaded, to, fetched_to);
        lemma_extends_transitive(j, from_loaded, both_loaded);
        assert(both_loaded.state.contains_key(from) && both_loaded.state.contains_key(to));
        let first = both_loaded.touch(from);
        let prepared = first.touch(to);
        lemma_touch_reversible(both_loaded, from);
        lemma_touch_reversible(first, to);
        lemma_extends_transitive(j, both_loaded, first);
        lemma_extends_transitive(j, first, prepared);
        assert(first.state.contains_key(from) && first.state.contains_key(to));
        assert(prepared.state.contains_key(from) && prepared.state.contains_key(to));
        if prepared.transfer_error(from, to, amount) is None {
            lemma_moved_reversible(prepared, from, to, amount);
            lemma_extends_transitive(j, prepared, after);
        }
    }
}

/// A transfer keeps what is warm.
pub proof fn lemma_transfer_keeps_warm(
    j: JournalModel,
    from: Address,
    to: Address,
    amount: U256,
    fetched_from: Option<AccountInfoModel>,
    fetched_to: Option<AccountInfoModel>,
)
    ensures
        keeps_warm(j, j.transfer(from, to, amount, fetched_from, fetched_to)),
        j.wf() ==> j.transfer(from, to, amount, fetched_from, fetched_to).wf(),
        same_but_state(j, j.transfer(from, to, amount, fetched_from, fetched_to)),
{
    let after = j.transfer(from, to, amount, fetched_from, fetched_to);
    if amount == U256::spec_zero() {
        let loaded = j.load_account(to, fetched_to);
        lemma_load_keeps_warm(j, to, fetched_to);
        lemma_touch_reversible(loaded, to);
        lemma_keeps_warm_transitive(j, loaded, after);
    } else {
        let from_loaded = j.load_account(from, fetched_from);
        let both_loaded = from_loaded.load_account(to, fetched_to);
        let from_touched = both_loaded.touch(from);
        let prepared = from_touched.touch(to);
        lemma_load_keeps_warm(j, from, fetched_from);
        lemma_load_keeps_warm(from_loaded, to, fetched_to);
        lemma_touch_reversible(both_loaded, from);
        lemma_touch_reversible(from_touched, to);
        lemma_keeps_warm_transitive(j, from_loaded, both_loaded);
        lemma_keeps_warm_transitive(j, both_loaded, from_touched);
        lemma_keeps_warm_transitive(j, from_touched, prepared);
        assert(from_loaded.state.contains_key(from));
        assert(both_loaded.state.contains_key(from) && both_loaded.state.contains_key(to));
        assert(from_touched.state.contains_key(from) && from_touched.state.contains_key(to));
        assert(prepared.state.contains_key(from) && prepared.state.contains_key(to));
        if prepared.transfer_error(from, to, amount) is None {
            lemma_moved_reversible(prepared, from, to, amount);
            lemma_keeps_warm_transitive(j, prepared, after);
        }
    }
}

/// Whether the creation of `target` can be taken back in full: it is
/// turned away for want of funds or for a collision, which changes nothing,
/// or the target has no code in memory and was not created in this
/// transaction.
pub open spec fn creation_is_reversible(
    j: JournalModel,
    caller: Address,
    target: Address,
    value: U256,
) -> bool {
    j.create_error(caller, target, value) == Some(TransferError::OutOfFunds) || j.create_error(
        caller,
        target,
        value,
    ) == Some(TransferError::CreateCollision) || (j.state[target].info.code is None
        && !j.state[target].status.created_locally)
}

/// The creation of an account can be taken back where it is turned away
/// for want of funds or for a collision, and else where the target has no
/// code in memory and this transaction has not created it before.
pub proof fn lemma_create_reversible(
    j: JournalModel,
    caller: Address,
    target: Address,
    value: U256,
    spec_id: SpecId,
)
    requires
        j.state.contains_key(caller),
        j.state.contains_key(target),
        creation_is_reversible(j, caller, target, value),
    ensures
        extends_reversibly(j, j.create_account_checkpoint(caller, target, value, spec_id)),
{
    let after = j.create_account_checkpoint(caller, target, value, spec_id);
    let account = j.state[target];
    match j.create_error(caller, target, value) {
        Some(TransferError::OverflowPayment) => {
            assert(uncreated(account, account.status.created_globally) == account);
            assert(after.state =~= j.state);
            lemma_extends_reflexive(j);
        },
        Some(_) => {
            lemma_extends_reflexive(j);
        },
        None => {
            let opened = j.checkpoint();
            assert(opened.logs.subrange(0, j.logs.len() as int) =~= j.logs);
            lemma_step_without_entry(j, opened);
            let entry = JournalEntry::AccountCreated {
                address: target,
                was_globally_created: account.status.created_globally,
            };
            let created = account.marked_created_locally().with_code(None).with_nonce(
                if spec_id.is_enabled_in(SpecId::SPURIOUS_DRAGON) {
                    1
                } else {
                    account.info.nonce
                },
            );
            let noted = opened.with_entry(entry).with_account(target, created);
            assert(uncreated(created, account.status.created_globally) == account);
            assert(entry.undo_state(noted.state) =~= opened.state);
            lemma_step_with_entry(opened, noted, entry);
            let marked = noted.touch(target);
            lemma_touch_reversible(noted, target);
            assert(marked == opened.create_marked(target, spec_id));
            assert(marked.state.contains_key(caller) && marked.state.contains_key(target));
            lemma_moved_reversible(marked, caller, target, value);
            lemma_extends_transitive(j, opened, noted);
            lemma_extends_transitive(j, noted, marked);
            lemma_extends_transitive(j, marked, after);
        },
    }
}

/// The creation of an account keeps what is warm.
pub proof fn lemma_create_keeps_warm(
    j: JournalModel,
    caller: Address,
    target: Address,
    value: U256,
    spec_id: SpecId,
)
    requires
        j.state.contains_key(caller),
        j.state.contains_key(target),
    ensures
        keeps_warm(j, j.create_account_checkpoint(caller, target, value, spec_id)),
        j.wf() ==> j.create_account_checkpoint(caller, target, value, spec_id).wf(),
{
    let after = j.create_account_checkpoint(caller, target, value, spec_id);
    let account = j.state[target];
    match j.create_error(caller, target, value) {
        Some(_) => {},
        None => {
            let opened = j.checkpoint();
            let entry = JournalEntry::AccountCreated {
                address: target,
                was_globally_created: account.status.created_globally,
            };
            let created = account.marked_created_locally().with_code(None).with_nonce(
                if spec_id.is_enabled_in(SpecId::SPURIOUS_DRAGON) {
                    1
                } else {
                    account.info.nonce
                },
            );
            let noted = opened.with_entry(entry).with_account(target, created);
            assert(keeps_warm(j, noted));
            let marked = noted.touch(target);
            lemma_touch_reversible(noted, target);
            assert(marked.state.contains_key(caller) && marked.state.contains_key(target));
            lemma_moved_reversible(marked, caller, target, value);
            lemma_keeps_warm_transitive(j, noted, marked);
            lemma_keeps_warm_transitive(j, marked, after);
        },
    }
}

/// A selfdestruct between two accounts in memory can be taken back, where
/// [`destruction_is_reversible`] admits it.
pub proof fn lemma_selfdestruct_loaded_reversible(j: JournalModel, address: Address, target: Address)
    requires
        j.state.contains_key(address),
        j.state.contains_key(target),
        destruction_is_reversible(j.state[address], j.spec),
    ensures
        extends_reversibly(j, j.selfdestruct_loaded(address, target)),
{
    let after = j.selfdestruct_loaded(address, target);
    let credited = j.selfdestruct_credit(address, target);
    let account = credited.state[address];
    let balance = account.info.balance;
    lemma_value_bounds(balance);
    lemma_from_int_value(balance.value());
    assert(wrapping_sum(U256::spec_zero(), balance) == balance) by {
        assert((0 + balance.value()) % (word_max() + 1) == balance.value()) by (nonlinear_arith)
            requires
                0 <= balance.value() <= word_max(),
        ;
    }
    if address != target {
        let touched = j.touch(target);
        lemma_touch_reversible(j, target);
        assert(touched.state.contains_key(target) && touched.state.contains_key(address));
        lemma_wrapping_inverse(touched.state[target].info.balance, balance);
        if JournalModel::destroys(account, j.spec) {
            let entry = JournalEntry::AccountDestroyed {
                address,
                target,
                status: destroyed_status_of(account),
                had_balance: balance,
            };
            assert(entry.undo_state(after.state) =~= touched.state);
            lemma_step_with_entry(touched, after, entry);
        } else {
            let entry = JournalEntry::BalanceTransfer { from: address, to: target, amount: balance };
            assert(entry.undo_state(after.state) =~= touched.state);
            lemma_step_with_entry(touched, after, entry);
        }
        lemma_extends_transitive(j, touched, after);
    } else {
        if JournalModel::destroys(account, j.spec) {
            let entry = JournalEntry::AccountDestroyed {
                address,
                target,
                status: destroyed_status_of(account),
                had_balance: balance,
            };
            assert(entry.undo_state(after.state) =~= j.state);
            lemma_step_with_entry(j, after, entry);
        } else {
            lemma_extends_reflexive(j);
        }
    }
}

/// A selfdestruct in favour of an account whose load can be taken back
/// can be taken back, where [`destruction_is_reversible`] admits it.
pub proof fn lemma_selfdestruct_reversible(
    j: JournalModel,
    address: Address,
    target: Address,
    fetched_target: Option<AccountInfoModel>,
)
    requires
        j.state.contains_key(address),
        load_is_reversible(j, target),
        destruction_is_reversible(j.state[address], j.spec),
    ensures
        extends_reversibly(j, j.selfdestruct(address, target, fetched_target)),
{
    let loaded = j.load_account(target, fetched_target);
    lemma_load_reversible(j, target, fetched_target);
    assert(loaded.state.contains_key(address) && loaded.state.contains_key(target));
    assert(destruction_is_reversible(loaded.state[address], loaded.spec));
    lemma_selfdestruct_loaded_reversible(loaded, address, target);
    lemma_extends_transitive(j, loaded, loaded.selfdestruct_loaded(address, target));
}

/// A selfdestruct keeps what is warm.
pub proof fn lemma_selfdestruct_keeps_warm(
    j: JournalModel,
    address: Address,
    target: Address,
    fetched_target: Option<AccountInfoModel>,
)
    requires
        j.state.contains_key(address) || address == target,
    ensures
        keeps_warm(j, j.selfdestruct(address, target, fetched_target)),
        j.wf() ==> j.selfdestruct(address, target, fetched_target).wf(),
        same_but_state(j, j.selfdestruct(address, target, fetched_target)),
{
    let loaded = j.load_account(target, fetched_target);
    let after = loaded.selfdestruct_loaded(address, target);
    lemma_load_keeps_warm(j, target, fetched_target);
    assert(loaded.state.contains_key(address) && loaded.state.contains_key(target));
    let touched = loaded.touch(target);
    lemma_touch_reversible(loaded, target);
    let credited = loaded.selfdestruct_credit(address, target);
    assert(keeps_warm(loaded, credited)) by {
        if address != target {
            assert(keeps_warm(touched, credited));
            lemma_keeps_warm_transitive(loaded, touched, credited);
        }
    }
    assert(credited.state.contains_key(address));
    assert(keeps_warm(credited, after));
    lemma_keeps_warm_transitive(loaded, credited, after);
    lemma_keeps_warm_transitive(j, loaded, after);
}

/// Whether two journals differ in nothing but state and journal entries.
pub open spec fn same_but_state(a: JournalModel, b: JournalModel) -> bool {
    b == (JournalModel { state: b.state, journal: b.journal, ..a })
}

/// Loading slots of a warm account keeps what is warm and leaves each of
/// the slots warm.
pub proof fn lemma_sload_all_warms(
    j: JournalModel,
    address: Address,
    keys: Seq<StorageKey>,
    fetched: Seq<StorageValue>,
)
    requires
        account_is_warm(j, address),
    ensures
        keeps_warm(j, j.sload_all(address, keys, fetched)),
        account_is_warm(j.sload_all(address, keys, fetched), address),
        forall|i: int|
            0 <= i < keys.len() ==> slot_is_warm(
                j.sload_all(address, keys, fetched),
                address,
                #[trigger] keys[i],
            ),
        j.wf() ==> j.sload_all(address, keys, fetched).wf(),
        same_but_state(j, j.sload_all(address, keys, fetched)),
    decreases keys.len(),
{
    if keys.len() > 0 {
        let before = j.sload_all(address, keys.drop_last(), fetched.drop_last());
        let after = j.sload_all(address, keys, fetched);
        lemma_sload_all_warms(j, address, keys.drop_last(), fetched.drop_last());
        lemma_sload_keeps_warm(before, address, keys.last(), fetched.last());
        lemma_keeps_warm_transitive(j, before, after);
        assert forall|i: int| 0 <= i < keys.len() implies slot_is_warm(
            after,
            address,
            #[trigger] keys[i],
        ) by {
            if i < keys.len() - 1 {
                assert(keys.drop_last()[i] == keys[i]);
                assert(slot_is_warm(before, address, keys[i]));
            }
        }
    }
}

/// A load of an account with slots keeps what is warm and leaves the
/// account and each of the slots warm.
pub proof fn lemma_load_account_optional_warms(
    j: JournalModel,
    address: Address,
    load_code: bool,
    keys: Seq<StorageKey>,
    fetched: Option<AccountInfoModel>,
    fetched_code: BytecodeModel,
    fetched_slots: Seq<StorageValue>,
)
    ensures
        keeps_warm(
            j,
            j.load_account_optional(address, load_code, keys, fetched, fetched_code, fetched_slots),
        ),
        account_is_warm(
            j.load_account_optional(address, load_code, keys, fetched, fetched_code, fetched_slots),
            address,
        ),
        forall|i: int|
            0 <= i < keys.len() ==> slot_is_warm(
                j.load_account_optional(
                    address,
                    load_code,
                    keys,
                    fetched,
                    fetched_code,
                    fetched_slots,
                ),
                address,
                #[trigger] keys[i],
            ),
        j.wf() ==> j.load_account_optional(
            address,
            load_code,
            keys,
            fetched,
            fetched_code,
            fetched_slots,
        ).wf(),
        same_but_state(
            j,
            j.load_account_optional(address, load_code, keys, fetched, fetched_code, fetched_slots),
        ),
        ({
            let loaded = j.load_account_optional(
                address,
                load_code,
                keys,
                fetched,
                fetched_code,
                fetched_slots,
            );
            loaded.with_account(address, loaded.state[address]) == loaded
        }),
{
    let loaded = j.load_account(address, fetched);
    lemma_load_keeps_warm(j, address, fetched);
    let with_code = if load_code {
        loaded.load_code_of(address, fetched_code)
    } else {
        loaded
    };
    lemma_load_code_keeps_warm(loaded, address, fetched_code);
    lemma_keeps_warm_transitive(j, loaded, with_code);
    lemma_sload_all_warms(with_code, address, keys, fetched_slots);
    let after = with_code.sload_all(address, keys, fetched_slots);
    lemma_keeps_warm_transitive(j, with_code, after);
    assert(after.state.insert(address, after.state[address]) =~= after.state);
}

/// Whether each of the loads of the slots `keys` of `address`, in order,
/// can be taken back in full: when its turn comes, the slot is warm or not
/// in memory.
pub open spec fn slot_loads_are_reversible(
    j: JournalModel,
    address: Address,
    keys: Seq<StorageKey>,
    fetched: Seq<StorageValue>,
) -> bool
    decreases keys.len(),
{
    keys.len() == 0 || {
        let before = j.sload_all(address, keys.drop_last(), fetched.drop_last());
        &&& slot_loads_are_reversible(j, address, keys.drop_last(), fetched.drop_last())
        &&& !before.state[address].storage.contains_key(keys.last()) || !before.sload_is_cold(
            address,
            keys.last(),
        )
    }
}

/// Loads of slots that can each be taken back can be taken back together.
pub proof fn lemma_sload_all_reversible(
    j: JournalModel,
    address: Address,
    keys: Seq<StorageKey>,
    fetched: Seq<StorageValue>,
)
    requires
        j.state.contains_key(address),
        slot_loads_are_reversible(j, address, keys, fetched),
    ensures
        extends_reversibly(j, j.sload_all(address, keys, fetched)),
        j.sload_all(address, keys, fetched).state.contains_key(address),
    decreases keys.len(),
{
    if keys.len() == 0 {
        lemma_extends_reflexive(j);
    } else {
        let before = j.sload_all(address, keys.drop_last(), fetched.drop_last());
        lemma_sload_all_reversible(j, address, keys.drop_last(), fetched.drop_last());
        lemma_sload_reversible(before, address, keys.last(), fetched.last());
        lemma_sload_keeps_warm(before, address, keys.last(), fetched.last());
        lemma_extends_transitive(j, before, j.sload_all(address, keys, fetched));
    }
}

/// A load of an account with slots can be taken back, where the load of
/// the account and of each slot can, and the code is present if it is asked
/// for.
pub proof fn lemma_load_account_optional_reversible(
    j: JournalModel,
    address: Address,
    load_code: bool,
    keys: Seq<StorageKey>,
    fetched: Option<AccountInfoModel>,
    fetched_code: BytecodeModel,
    fetched_slots: Seq<StorageValue>,
)
    requires
        load_is_reversible(j, address),
        load_code ==> j.state[address].info.code is Some,
        slot_loads_are_reversible(j.load_account(address, None), address, keys, fetched_slots),
    ensures
        extends_reversibly(
            j,
            j.load_account_optional(address, load_code, keys, fetched, fetched_code, fetched_slots),
        ),
{
    let loaded = j.load_account(address, fetched);
    lemma_load_reversible(j, address, fetched);
    assert(loaded == j.load_account(address, None));
    if load_code {
        assert(loaded.load_code_of(address, fetched_code) == loaded);
    }
    lemma_sload_all_reversible(loaded, address, keys, fetched_slots);
    lemma_extends_transitive(j, loaded, loaded.sload_all(address, keys, fetched_slots));
}

/// Entries that are added without a change of the state, none of them
/// about transient storage, can be taken back where undoing them changes
/// nothing.
pub proof fn lemma_entries_only_reversible(j: JournalModel, after: JournalModel)
    requires
        j.journal.len() <= after.journal.len(),
        after == (JournalModel { journal: after.journal, ..j }),
        after.journal.subrange(0, j.journal.len() as int) == j.journal,
        undo_all(after.state, added_entries(j, after)) == j.state,
        forall|i: int|
            0 <= i < added_entries(j, after).len() ==> !(#[trigger] added_entries(j, after)[i]
                is TransientStorageChanged),
    ensures
        extends_reversibly(j, after),
{
    assert(after.logs.subrange(0, j.logs.len() as int) =~= j.logs);
    lemma_entries_leave_transient(after.transient_storage, added_entries(j, after));
}

/// Undoing entries that are not about transient storage leaves transient
/// storage as it is.
proof fn lemma_entries_leave_transient(transient: Map<SlotId, StorageValue>, entries: Seq<JournalEntry>)
    requires
        forall|i: int|
            0 <= i < entries.len() ==> !(#[trigger] entries[i] is TransientStorageChanged),
    ensures
        undo_all_transient(transient, entries) == transient,
    decreases entries.len(),
{
    if entries.len() > 0 {
        assert(entries.last() == entries[entries.len() - 1]);
        assert forall|i: int| 0 <= i < entries.drop_last().len() implies !(
        #[trigger] entries.drop_last()[i] is TransientStorageChanged) by {
            assert(entries.drop_last()[i] == entries[i]);
        }
        lemma_entries_leave_transient(transient, entries.drop_last());
    }
}

/// Undoing entries leaves no zero in transient storage that had none.
proof fn lemma_undo_keeps_transient_free_of_zero(
    transient: Map<SlotId, StorageValue>,
    entries: Seq<JournalEntry>,
)
    requires
        free_of_zero(transient),
    ensures
        free_of_zero(undo_all_transient(transient, entries)),
    decreases entries.len(),
{
    if entries.len() > 0 {
        let undone = entries.last().undo_transient(transient);
        assert(free_of_zero(undone)) by {
            assert forall|slot: SlotId| #[trigger] undone.contains_key(slot) implies undone[slot]
                != U256::spec_zero() by {
                if transient.contains_key(slot) {
                    assert(transient[slot] != U256::spec_zero());
                }
            }
        }
        lemma_undo_keeps_transient_free_of_zero(undone, entries.drop_last());
    }
}

/// A revert in between. Where a journal can be taken back to `base`, so
/// can what a revert makes of it, as long as the checkpoint of that revert
/// points at no entry and at no log that `base` had.
pub proof fn lemma_revert_in_between(base: JournalModel, j: JournalModel, checkpoint: JournalCheckpoint)
    requires
        extends_reversibly(base, j),
        j.wf(),
        base.journal.len() <= checkpoint.journal_i <= j.journal.len(),
        base.logs.len() <= checkpoint.log_i,
    ensures
        extends_reversibly(base, j.checkpoint_revert(checkpoint)),
        j.checkpoint_revert(checkpoint).wf(),
{
    let reverted = j.checkpoint_revert(checkpoint);
    let start = base.journal.len() as int;
    let middle = checkpoint.journal_i as int;
    let kept = j.journal.subrange(start, middle);
    let undone = j.journal.subrange(middle, j.journal.len() as int);
    assert(reverted.journal.subrange(0, start) =~= j.journal.subrange(0, start));
    assert(added_entries(base, reverted) =~= kept);
    assert(added_entries(base, j) =~= kept + undone);
    lemma_undo_all_concat(j.state, j.transient_storage, kept, undone);
    assert(reverted.logs.subrange(0, base.logs.len() as int) =~= j.logs.subrange(
        0,
        base.logs.len() as int,
    ));
    assert(free_of_zero(j.transient_storage));
    lemma_undo_keeps_transient_free_of_zero(j.transient_storage, undone);
    assert(free_of_zero(reverted.transient_storage));
}

// ----- sequences of operations -----
/// One operation on the journal that journals what it changes, with what
/// the database answers where the operation asks it.
#[allow(inconsistent_fields)]
pub enum JournalOp {
    Touch { address: Address },
    LoadAccount { address: Address, fetched: Option<AccountInfoModel> },
    LoadCode { address: Address, fetched: Option<AccountInfoModel>, fetched_code: BytecodeModel },
    LoadAccountDelegated {
        address: Address,
        fetched: Option<AccountInfoModel>,
        fetched_code: BytecodeModel,
        fetched_delegate: Option<AccountInfoModel>,
    },
    SetCodeWithHash { address: Address, code: BytecodeModel, hash: B256 },
    SetCode { address: Address, code: BytecodeModel },
    BalanceIncr { address: Address, amount: U256, fetched: Option<AccountInfoModel> },
    Transfer {
        from: Address,
        to: Address,
        amount: U256,
        fetched_from: Option<AccountInfoModel>,
        fetched_to: Option<AccountInfoModel>,
    },
    CreateAccountCheckpoint { caller: Address, target: Address, value: U256, spec_id: SpecId },
    Selfdestruct { address: Address, target: Address, fetched_target: Option<AccountInfoModel> },
    Sload { address: Address, key: StorageKey, fetched: StorageValue },
    Sstore { address: Address, key: StorageKey, new: StorageValue, fetched: StorageValue },
    Tstore { address: Address, key: StorageKey, new: StorageValue },
    Log { log: EvmLog },
    LoadAccountOptional {
        address: Address,
        load_code: bool,
        keys: Seq<StorageKey>,
        fetched: Option<AccountInfoModel>,
        fetched_code: BytecodeModel,
        fetched_slots: Seq<StorageValue>,
    },
    CallerAccounting { address: Address, old_balance: U256, bump_nonce: bool },
    NonceBump { address: Address },
    Checkpoint,
    CheckpointCommit,
    CheckpointRevert { checkpoint: JournalCheckpoint },
}

impl JournalOp {
    /// The journal after the operation.
    pub open spec fn apply(self, j: JournalModel) -> JournalModel {
        match self {
            JournalOp::Touch { address } => j.touch(address),
            JournalOp::LoadAccount { address, fetched } => j.load_account(address, fetched),
            JournalOp::LoadCode { address, fetched, fetched_code } => j.load_account(
                address,
                fetched,
            ).load_code_of(address, fetched_code),
            JournalOp::LoadAccountDelegated { address, fetched, fetched_code, fetched_delegate } => {
                j.load_account_delegated(address, fetched, fetched_code, fetched_delegate)
            },
            JournalOp::SetCodeWithHash { address, code, hash } => j.set_code_with_hash(
                address,
                code,
                hash,
            ),
            JournalOp::SetCode { address, code } => j.set_code(address, code),
            JournalOp::BalanceIncr { address, amount, fetched } => j.balance_incr(
                address,
                amount,
                fetched,
            ),
            JournalOp::Transfer { from, to, amount, fetched_from, fetched_to } => j.transfer(
                from,
                to,
                amount,
                fetched_from,
                fetched_to,
            ),
            JournalOp::CreateAccountCheckpoint { caller, target, value, spec_id } => {
                j.create_account_checkpoint(caller, target, value, spec_id)
            },
            JournalOp::Selfdestruct { address, target, fetched_target } => j.selfdestruct(
                address,
                target,
                fetched_target,
            ),
            JournalOp::Sload { address, key, fetched } => j.sload(address, key, fetched),
            JournalOp::Sstore { address, key, new, fetched } => j.sstore(address, key, new, fetched),
            JournalOp::Tstore { address, key, new } => j.tstore(address, key, new),
            JournalOp::Log { log } => j.log(log),
            JournalOp::LoadAccountOptional {
                address,
                load_code,
                keys,
                fetched,
                fetched_code,
                fetched_slots,
            } => j.load_account_optional(
                address,
                load_code,
                keys,
                fetched,
                fetched_code,
                fetched_slots,
            ),
            JournalOp::CallerAccounting { address, old_balance, bump_nonce } => {
                j.caller_accounting_journal_entry(address, old_balance, bump_nonce)
            },
            JournalOp::NonceBump { address } => j.with_entry(
                JournalEntry::NonceChanged { address },
            ),
            JournalOp::Checkpoint => j.checkpoint(),
            JournalOp::CheckpointCommit => j.checkpoint_commit(),
            JournalOp::CheckpointRevert { checkpoint } => j.checkpoint_revert(checkpoint),
        }
    }

    /// Whether the operation may be called on `j`: the accounts that it
    /// expects in memory are there, and the count of open checkpoints can go
    /// where the operation takes it.
    pub open spec fn is_defined_on(self, j: JournalModel) -> bool {
        match self {
            JournalOp::SetCodeWithHash { address, .. } => j.state.contains_key(address),
            JournalOp::SetCode { address, .. } => j.state.contains_key(address),
            JournalOp::CreateAccountCheckpoint { caller, target, .. } => j.state.contains_key(caller)
                && j.state.contains_key(target) && j.depth < usize::MAX,
            JournalOp::Checkpoint => j.depth < usize::MAX,
            JournalOp::CheckpointCommit => j.depth > 0,
            JournalOp::CheckpointRevert { checkpoint } => j.depth > 0 && checkpoint.journal_i
                <= j.journal.len(),
            JournalOp::Selfdestruct { address, target, .. } => j.state.contains_key(address)
                || address == target,
            JournalOp::Sload { address, .. } => j.state.contains_key(address),
            JournalOp::Sstore { address, .. } => j.state.contains_key(address),
            _ => true,
        }
    }

    /// Whether a revert can take the operation back in full, whatever
    /// came before it. That asks, of
    /// an operation that loads an account, that [`load_is_reversible`]
    /// admits the load; of one that makes code present, that the code is
    /// present; of one that loads a slot, that the slot is warm or not in
    /// memory; of one that installs code, that the account has none; of a
    /// creation, that [`creation_is_reversible`] admits it; of a
    /// selfdestruct, that [`destruction_is_reversible`] admits it; of one
    /// that only adds entries, that undoing them changes nothing.
    pub open spec fn is_reversible_on(self, j: JournalModel) -> bool {
        &&& self.is_defined_on(j)
        &&& match self {
            JournalOp::LoadAccount { address, .. } => load_is_reversible(j, address),
            JournalOp::LoadCode { address, .. } => load_is_reversible(j, address)
                && j.state[address].info.code is Some,
            JournalOp::LoadAccountDelegated { address, .. } => {
                &&& load_is_reversible(j, address)
                &&& j.spec.is_enabled_in(SpecId::PRAGUE) ==> j.state[address].info.code is Some
                &&& match j.delegate_of(address) {
                    Some(delegate) => load_is_reversible(j, delegate),
                    None => true,
                }
            },
            JournalOp::SetCodeWithHash { address, .. } => j.state[address].info.code is None
                && j.state[address].info.code_hash == B256::spec_keccak_empty(),
            JournalOp::SetCode { address, .. } => j.state[address].info.code is None
                && j.state[address].info.code_hash == B256::spec_keccak_empty(),
            JournalOp::BalanceIncr { address, .. } => load_is_reversible(j, address),
            JournalOp::Transfer { from, to, amount, .. } => load_is_reversible(j, to) && (amount
                != U256::spec_zero() ==> load_is_reversible(j, from)),
            JournalOp::CreateAccountCheckpoint { caller, target, value, .. } => {
                creation_is_reversible(j, caller, target, value)
            },
            JournalOp::Selfdestruct { address, target, .. } => j.state.contains_key(address)
                && load_is_reversible(j, target) && destruction_is_reversible(
                j.state[address],
                j.spec,
            ),
            JournalOp::Sload { address, key, .. } => !j.state[address].storage.contains_key(key)
                || !j.sload_is_cold(address, key),
            JournalOp::Sstore { address, key, .. } => !j.state[address].storage.contains_key(key)
                || !j.sload_is_cold(address, key),
            JournalOp::LoadAccountOptional { address, load_code, keys, fetched_slots, .. } => {
                &&& load_is_reversible(j, address)
                &&& load_code ==> j.state[address].info.code is Some
                &&& slot_loads_are_reversible(
                    j.load_account(address, None),
                    address,
                    keys,
                    fetched_slots,
                )
            },
            JournalOp::CallerAccounting { .. } | JournalOp::NonceBump { .. } => undo_all(
                self.apply(j).state,
                added_entries(j, self.apply(j)),
            ) == j.state,
            JournalOp::CheckpointRevert { .. } => false,
            _ => true,
        }
    }

    /// Whether a revert to a checkpoint taken at `base` can take back in
    /// full what the operation makes of `j`, given that it can take `j`
    /// back. A revert in between is in order where its checkpoint was taken
    /// since `base`: it points at no entry and at no log that `base` had.
    /// Any other operation must be one that can be taken back in full.
    pub open spec fn is_reversible_from(self, base: JournalModel, j: JournalModel) -> bool {
        match self {
            JournalOp::CheckpointRevert { checkpoint } => {
                &&& self.is_defined_on(j)
                &&& base.journal.len() <= checkpoint.journal_i
                &&& base.logs.len() <= checkpoint.log_i
            },
            _ => self.is_reversible_on(j),
        }
    }
}

/// How an operation changes the number of open checkpoints: a checkpoint
/// and a creation that succeeds open one, a commit and a revert close one,
/// and no other operation opens or closes any.
pub open spec fn depth_change(j: JournalModel, op: JournalOp) -> int {
    match op {
        JournalOp::Checkpoint => 1,
        JournalOp::CheckpointCommit => -1,
        JournalOp::CheckpointRevert { .. } => -1,
        JournalOp::CreateAccountCheckpoint { caller, target, value, .. } => if j.create_error(
            caller,
            target,
            value,
        ) is None {
            1
        } else {
            0
        },
        _ => 0,
    }
}

/// The number of open checkpoints after an operation is the number before
/// it and what the operation opens or closes.
pub proof fn lemma_op_depth(j: JournalModel, op: JournalOp)
    requires
        op.is_defined_on(j),
    ensures
        op.apply(j).depth == j.depth + depth_change(j, op),
{
    match op {
        JournalOp::Touch { address } => {
            lemma_touch_reversible(j, address);
        },
        JournalOp::LoadAccount { address, fetched } => {
            lemma_load_keeps_warm(j, address, fetched);
        },
        JournalOp::LoadCode { address, fetched, fetched_code } => {
            lemma_load_keeps_warm(j, address, fetched);
            lemma_load_code_keeps_warm(j.load_account(address, fetched), address, fetched_code);
        },
        JournalOp::LoadAccountDelegated { address, fetched, fetched_code, fetched_delegate } => {
            lemma_load_keeps_warm(j, address, fetched);
            lemma_load_code_keeps_warm(j.load_account(address, fetched), address, fetched_code);
            let for_call = j.load_for_call(address, fetched, fetched_code);
            assert(for_call.depth == j.depth);
            match for_call.delegate_of(address) {
                Some(delegate) => {
                    lemma_load_keeps_warm(for_call, delegate, fetched_delegate);
                },
                None => {},
            }
        },
        JournalOp::SetCodeWithHash { address, code, hash } => {
            lemma_set_code_with_hash_keeps_warm(j, address, code, hash);
        },
        JournalOp::SetCode { address, code } => {
            lemma_set_code_with_hash_keeps_warm(
                j,
                address,
                BytecodeModel::Empty,
                B256::spec_keccak_empty(),
            );
            lemma_set_code_with_hash_keeps_warm(j, address, code, code.code_hash());
        },
        JournalOp::BalanceIncr { address, amount, fetched } => {
            lemma_balance_incr_keeps_warm(j, address, amount, fetched);
        },
        JournalOp::Transfer { from, to, amount, fetched_from, fetched_to } => {
            lemma_transfer_keeps_warm(j, from, to, amount, fetched_from, fetched_to);
        },
        JournalOp::CreateAccountCheckpoint { caller, target, value, spec_id } => {
            if j.create_error(caller, target, value) is None {
                let marked = j.checkpoint().create_marked(target, spec_id);
                let noted = j.checkpoint().with_entry(
                    JournalEntry::AccountCreated {
                        address: target,
                        was_globally_created: j.state[target].status.created_globally,
                    },
                ).with_account(
                    target,
                    j.state[target].marked_created_locally().with_code(None).with_nonce(
                        if spec_id.is_enabled_in(SpecId::SPURIOUS_DRAGON) {
                            1
                        } else {
                            j.state[target].info.nonce
                        },
                    ),
                );
                lemma_touch_reversible(noted, target);
                assert(marked.depth == j.depth + 1);
                assert(marked.state.contains_key(caller) && marked.state.contains_key(target));
                lemma_moved_reversible(marked, caller, target, value);
            }
        },
        JournalOp::Selfdestruct { address, target, fetched_target } => {
            lemma_selfdestruct_keeps_warm(j, address, target, fetched_target);
        },
        JournalOp::Sload { address, key, fetched } => {
            lemma_sload_keeps_warm(j, address, key, fetched);
        },
        JournalOp::Sstore { address, key, new, fetched } => {
            lemma_sstore_keeps_warm(j, address, key, new, fetched);
        },
        JournalOp::Tstore { address, key, new } => {},
        JournalOp::Log { log } => {},
        JournalOp::LoadAccountOptional {
            address,
            load_code,
            keys,
            fetched,
            fetched_code,
            fetched_slots,
        } => {
            lemma_load_account_optional_warms(
                j,
                address,
                load_code,
                keys,
                fetched,
                fetched_code,
                fetched_slots,
            );
        },
        JournalOp::CallerAccounting { address, old_balance, bump_nonce } => {},
        JournalOp::NonceBump { address } => {},
        JournalOp::Checkpoint => {},
        JournalOp::CheckpointCommit => {},
        JournalOp::CheckpointRevert { checkpoint } => {},
    }
}

/// The journal after `ops`, one after the other.
pub open spec fn apply_ops(j: JournalModel, ops: Seq<JournalOp>) -> JournalModel
    decreases ops.len(),
{
    if ops.len() == 0 {
        j
    } else {
        ops.last().apply(apply_ops(j, ops.drop_last()))
    }
}

/// Whether a revert to a checkpoint taken at `j` can take each of `ops`
/// back in full when its turn comes.
pub open spec fn ops_reversible(j: JournalModel, ops: Seq<JournalOp>) -> bool
    decreases ops.len(),
{
    ops.len() == 0 || (ops_reversible(j, ops.drop_last()) && ops.last().is_reversible_from(
        j,
        apply_ops(j, ops.drop_last()),
    ))
}

/// One operation that can be taken back in full leaves a journal that a
/// revert takes back to where it was.
pub proof fn lemma_op_reversible(j: JournalModel, op: JournalOp)
    requires
        j.wf(),
        op.is_reversible_on(j),
    ensures
        extends_reversibly(j, op.apply(j)),
        op.apply(j).wf(),
{
    lemma_op_keeps_warm(j, op);
    match op {
        JournalOp::CheckpointRevert { checkpoint } => {},
        JournalOp::Touch { address } => {
            lemma_touch_reversible(j, address);
        },
        JournalOp::LoadAccount { address, fetched } => {
            lemma_load_reversible(j, address, fetched);
        },
        JournalOp::LoadCode { address, fetched, fetched_code } => {
            lemma_load_reversible(j, address, fetched);
            let loaded = j.load_account(address, fetched);
            assert(loaded.load_code_of(address, fetched_code) == loaded);
        },
        JournalOp::LoadAccountDelegated { address, fetched, fetched_code, fetched_delegate } => {
            lemma_load_reversible(j, address, fetched);
            let loaded = j.load_account(address, fetched);
            if j.spec.is_enabled_in(SpecId::PRAGUE) {
                assert(loaded.state[address].info.code is Some);
                assert(loaded.load_code_of(address, fetched_code) == loaded);
            }
            assert(j.load_for_call(address, fetched, fetched_code) == loaded);
            assert(loaded.delegate_of(address) == j.delegate_of(address));
            match j.delegate_of(address) {
                Some(delegate) => {
                    assert(load_is_reversible(loaded, delegate));
                    lemma_load_reversible(loaded, delegate, fetched_delegate);
                    lemma_extends_transitive(
                        j,
                        loaded,
                        loaded.load_account(delegate, fetched_delegate),
                    );
                },
                None => {},
            }
        },
        JournalOp::SetCodeWithHash { address, code, hash } => {
            lemma_set_code_with_hash_reversible(j, address, code, hash);
        },
        JournalOp::SetCode { address, code } => {
            lemma_set_code_with_hash_reversible(
                j,
                address,
                BytecodeModel::Empty,
                B256::spec_keccak_empty(),
            );
            lemma_set_code_with_hash_reversible(j, address, code, code.code_hash());
        },
        JournalOp::BalanceIncr { address, amount, fetched } => {
            lemma_balance_incr_reversible(j, address, amount, fetched);
        },
        JournalOp::Transfer { from, to, amount, fetched_from, fetched_to } => {
            lemma_transfer_reversible(j, from, to, amount, fetched_from, fetched_to);
        },
        JournalOp::CreateAccountCheckpoint { caller, target, value, spec_id } => {
            lemma_create_reversible(j, caller, target, value, spec_id);
        },
        JournalOp::Selfdestruct { address, target, fetched_target } => {
            lemma_selfdestruct_reversible(j, address, target, fetched_target);
        },
        JournalOp::Sload { address, key, fetched } => {
            lemma_sload_reversible(j, address, key, fetched);
        },
        JournalOp::Sstore { address, key, new, fetched } => {
            lemma_sstore_reversible(j, address, key, new, fetched);
        },
        JournalOp::Tstore { address, key, new } => {
            lemma_tstore_reversible(j, address, key, new);
        },
        JournalOp::Log { log } => {
            assert(j.log(log).logs.subrange(0, j.logs.len() as int) =~= j.logs);
            lemma_step_without_entry(j, j.log(log));
        },
        JournalOp::LoadAccountOptional {
            address,
            load_code,
            keys,
            fetched,
            fetched_code,
            fetched_slots,
        } => {
            lemma_load_account_optional_reversible(
                j,
                address,
                load_code,
                keys,
                fetched,
                fetched_code,
                fetched_slots,
            );
        },
        JournalOp::CallerAccounting { address, old_balance, bump_nonce } => {
            let after = op.apply(j);
            let first = j.journal.push(JournalEntry::BalanceChanged { address, old_balance }).push(
                JournalEntry::AccountTouched { address },
            );
            assert(first.subrange(0, j.journal.len() as int) =~= j.journal);
            assert(after.journal.subrange(0, j.journal.len() as int) =~= j.journal);
            let start = Seq::<JournalEntry>::empty().push(
                JournalEntry::BalanceChanged { address, old_balance },
            ).push(JournalEntry::AccountTouched { address });
            assert(added_entries(j, after) =~= if bump_nonce {
                start.push(JournalEntry::NonceChanged { address })
            } else {
                start
            });
            lemma_entries_only_reversible(j, after);
        },
        JournalOp::NonceBump { address } => {
            let after = op.apply(j);
            assert(after.journal.subrange(0, j.journal.len() as int) =~= j.journal);
            assert(added_entries(j, after) =~= Seq::<JournalEntry>::empty().push(
                JournalEntry::NonceChanged { address },
            ));
            lemma_entries_only_reversible(j, after);
        },
        JournalOp::Checkpoint => {
            assert(j.logs.subrange(0, j.logs.len() as int) =~= j.logs);
            lemma_step_without_entry(j, j.checkpoint());
        },
        JournalOp::CheckpointCommit => {
            assert(j.logs.subrange(0, j.logs.len() as int) =~= j.logs);
            lemma_step_without_entry(j, j.checkpoint_commit());
        },
    }
}

/// No operation but a revert makes cold what was warm, and none but a
/// revert changes the original value of a warm slot.
pub proof fn lemma_op_keeps_warm(j: JournalModel, op: JournalOp)
    requires
        op.is_defined_on(j),
        !(op is CheckpointRevert),
    ensures
        keeps_warm(j, op.apply(j)),
        j.wf() ==> op.apply(j).wf(),
{
    match op {
        JournalOp::Touch { address } => {
            lemma_touch_reversible(j, address);
        },
        JournalOp::LoadAccount { address, fetched } => {
            lemma_load_keeps_warm(j, address, fetched);
        },
        JournalOp::LoadCode { address, fetched, fetched_code } => {
            let loaded = j.load_account(address, fetched);
            lemma_load_keeps_warm(j, address, fetched);
            lemma_load_code_keeps_warm(loaded, address, fetched_code);
            lemma_keeps_warm_transitive(j, loaded, op.apply(j));
        },
        JournalOp::LoadAccountDelegated { address, fetched, fetched_code, fetched_delegate } => {
            let loaded = j.load_account(address, fetched);
            lemma_load_keeps_warm(j, address, fetched);
            lemma_load_code_keeps_warm(loaded, address, fetched_code);
            let for_call = j.load_for_call(address, fetched, fetched_code);
            lemma_keeps_warm_transitive(j, loaded, for_call);
            match for_call.delegate_of(address) {
                Some(delegate) => {
                    lemma_load_keeps_warm(for_call, delegate, fetched_delegate);
                    lemma_keeps_warm_transitive(j, for_call, op.apply(j));
                },
                None => {},
            }
        },
        JournalOp::SetCodeWithHash { address, code, hash } => {
            lemma_set_code_with_hash_keeps_warm(j, address, code, hash);
        },
        JournalOp::SetCode { address, code } => {
            lemma_set_code_with_hash_keeps_warm(
                j,
                address,
                BytecodeModel::Empty,
                B256::spec_keccak_empty(),
            );
            lemma_set_code_with_hash_keeps_warm(j, address, code, code.code_hash());
        },
        JournalOp::BalanceIncr { address, amount, fetched } => {
            lemma_balance_incr_keeps_warm(j, address, amount, fetched);
        },
        JournalOp::Transfer { from, to, amount, fetched_from, fetched_to } => {
            lemma_transfer_keeps_warm(j, from, to, amount, fetched_from, fetched_to);
        },
        JournalOp::CreateAccountCheckpoint { caller, target, value, spec_id } => {
            lemma_create_keeps_warm(j, caller, target, value, spec_id);
        },
        JournalOp::Selfdestruct { address, target, fetched_target } => {
            lemma_selfdestruct_keeps_warm(j, address, target, fetched_target);
        },
        JournalOp::Sload { address, key, fetched } => {
            lemma_sload_keeps_warm(j, address, key, fetched);
        },
        JournalOp::Sstore { address, key, new, fetched } => {
            lemma_sstore_keeps_warm(j, address, key, new, fetched);
        },
        JournalOp::Tstore { address, key, new } => {
            assert(j.tstore(address, key, new).state == j.state);
        },
        JournalOp::Log { log } => {},
        JournalOp::LoadAccountOptional {
            address,
            load_code,
            keys,
            fetched,
            fetched_code,
            fetched_slots,
        } => {
            lemma_load_account_optional_warms(
                j,
                address,
                load_code,
                keys,
                fetched,
                fetched_code,
                fetched_slots,
            );
        },
        JournalOp::CallerAccounting { address, old_balance, bump_nonce } => {},
        JournalOp::NonceBump { address } => {},
        JournalOp::Checkpoint => {},
        JournalOp::CheckpointCommit => {},
        JournalOp::CheckpointRevert { checkpoint } => {},
    }
}

/// Operations that can each be taken back in full, with reverts in
/// between to checkpoints taken among them, leave a journal that a revert
/// takes back to where it was.
pub proof fn lemma_ops_reversible(j: JournalModel, ops: Seq<JournalOp>)
    requires
        j.wf(),
        ops_reversible(j, ops),
    ensures
        extends_reversibly(j, apply_ops(j, ops)),
        apply_ops(j, ops).wf(),
    decreases ops.len(),
{
    if ops.len() == 0 {
        lemma_extends_reflexive(j);
    } else {
        let before = apply_ops(j, ops.drop_last());
        lemma_ops_reversible(j, ops.drop_last());
        match ops.last() {
            JournalOp::CheckpointRevert { checkpoint } => {
                lemma_revert_in_between(j, before, checkpoint);
            },
            _ => {
                lemma_op_reversible(before, ops.last());
                lemma_extends_transitive(j, before, apply_ops(j, ops));
            },
        }
    }
}

/// Revert soundness. Take a checkpoint, run any operations of which each
/// can be taken back in full, with reverts in between to checkpoints taken
/// among them, and revert to the checkpoint: state, transient storage,
/// logs and journal entries are what they were when the checkpoint was
/// taken, and no other field but the number of open checkpoints has
/// changed.
pub proof fn lemma_revert_restores(j: JournalModel, ops: Seq<JournalOp>)
    requires
        j.wf(),
        j.journal.len() <= usize::MAX,
        j.logs.len() <= usize::MAX,
        ops_reversible(j.checkpoint(), ops),
    ensures
        ({
            let reverted = apply_ops(j.checkpoint(), ops).checkpoint_revert(j.checkpoint_mark());
            &&& reverted.state == j.state
            &&& reverted.transient_storage == j.transient_storage
            &&& reverted.logs == j.logs
            &&& reverted.journal == j.journal
            &&& reverted == (JournalModel { depth: reverted.depth, ..j })
        }),
{
    let opened = j.checkpoint();
    lemma_ops_reversible(opened, ops);
    lemma_revert_of_extension(opened, apply_ops(opened, ops));
}

// ----- warm stays warm across reverts -----
/// Whether undoing `entry` leaves warm what is warm in `j`: the entry
/// records no first load of an account that is warm in `j`, and no first
/// load of a slot that is warm in `j`.
pub open spec fn entry_spares(j: JournalModel, entry: JournalEntry) -> bool {
    match entry {
        JournalEntry::AccountWarmed { address } => !account_is_warm(j, address),
        JournalEntry::StorageWarmed { address, key } => !slot_is_warm(j, address, key),
        _ => true,
    }
}

/// Whether `after` has the entries of `before` and beyond them only
/// entries whose undoing leaves warm what is warm in `before`.
pub open spec fn journals_sparingly(before: JournalModel, after: JournalModel) -> bool {
    &&& before.journal.len() <= after.journal.len()
    &&& forall|i: int|
        0 <= i < before.journal.len() ==> #[trigger] after.journal[i] == before.journal[i]
    &&& forall|i: int|
        before.journal.len() <= i < after.journal.len() ==> entry_spares(
            before,
            #[trigger] after.journal[i],
        )
}

/// Two stretches that journal sparingly, the first of which keeps warm
/// what is warm, journal sparingly together.
pub proof fn lemma_journals_sparingly_transitive(a: JournalModel, b: JournalModel, c: JournalModel)
    requires
        keeps_warm(a, b),
        journals_sparingly(a, b),
        journals_sparingly(b, c),
    ensures
        journals_sparingly(a, c),
{
    assert forall|i: int| a.journal.len() <= i < c.journal.len() implies entry_spares(
        a,
        #[trigger] c.journal[i],
    ) by {
        if i < b.journal.len() {
            assert(c.journal[i] == b.journal[i]);
        } else {
            let entry = c.journal[i];
            assert(entry_spares(b, entry));
            match entry {
                JournalEntry::AccountWarmed { address } => {
                    assert(account_is_warm(a, address) ==> account_is_warm(b, address));
                },
                JournalEntry::StorageWarmed { address, key } => {
                    assert(slot_is_warm(a, address, key) ==> slot_is_warm(b, address, key));
                },
                _ => {},
            }
        }
    }
}

/// Undoing an entry that spares what is warm in `base` leaves it warm, and
/// leaves the original value of every slot that is warm in `base`.
pub proof fn lemma_undo_entry_keeps_warm(base: JournalModel, j: JournalModel, entry: JournalEntry)
    requires
        keeps_warm(base, j),
        entry_spares(base, entry),
    ensures
        keeps_warm(base, j.with_state(entry.undo_state(j.state))),
{
    let undone = j.with_state(entry.undo_state(j.state));
    assert forall|address: Address| #[trigger] account_is_warm(base, address) implies account_is_warm(
        undone,
        address,
    ) by {
        assert(account_is_warm(j, address));
    }
    assert forall|address: Address, key: StorageKey| #[trigger]
        slot_is_warm(base, address, key) implies slot_is_warm(undone, address, key)
        && undone.state[address].storage[key].original_value
        == base.state[address].storage[key].original_value by {
        assert(slot_is_warm(j, address, key));
        assert(account_is_warm(base, address));
        assert(account_is_warm(j, address));
    }
}

/// Undoing entries that each spare what is warm in `base` leaves it warm,
/// and leaves the original value of every slot that is warm in `base`.
pub proof fn lemma_undo_all_keeps_warm(base: JournalModel, j: JournalModel, entries: Seq<JournalEntry>)
    requires
        keeps_warm(base, j),
        forall|i: int| 0 <= i < entries.len() ==> entry_spares(base, #[trigger] entries[i]),
    ensures
        keeps_warm(base, j.with_state(undo_all(j.state, entries))),
    decreases entries.len(),
{
    if entries.len() == 0 {
        assert(j.with_state(j.state) == j);
    } else {
        let entry = entries.last();
        assert(entry == entries[entries.len() - 1]);
        lemma_undo_entry_keeps_warm(base, j, entry);
        let undone = j.with_state(entry.undo_state(j.state));
        assert forall|i: int| 0 <= i < entries.drop_last().len() implies entry_spares(
            base,
            #[trigger] entries.drop_last()[i],
        ) by {
            assert(entries.drop_last()[i] == entries[i]);
        }
        lemma_undo_all_keeps_warm(base, undone, entries.drop_last());
        assert(undone.with_state(undo_all(undone.state, entries.drop_last())) == j.with_state(
            undo_all(j.state, entries),
        ));
    }
}

/// A revert to a checkpoint that was taken at `base` or later leaves warm
/// what is warm in `base`, where the journal since `base` holds only
/// entries that spare it.
pub proof fn lemma_revert_keeps_warm(base: JournalModel, j: JournalModel, checkpoint: JournalCheckpoint)
    requires
        keeps_warm(base, j),
        journals_sparingly(base, j),
        base.journal.len() <= checkpoint.journal_i <= j.journal.len(),
    ensures
        keeps_warm(base, j.checkpoint_revert(checkpoint)),
        journals_sparingly(base, j.checkpoint_revert(checkpoint)),
{
    let undone = j.journal.subrange(checkpoint.journal_i as int, j.journal.len() as int);
    let reverted = j.checkpoint_revert(checkpoint);
    assert forall|i: int| 0 <= i < undone.len() implies entry_spares(base, #[trigger] undone[i]) by {
        assert(undone[i] == j.journal[checkpoint.journal_i + i]);
    }
    lemma_undo_all_keeps_warm(base, j, undone);
    let rolled = j.with_state(undo_all(j.state, undone));
    assert(reverted.state == rolled.state);
    assert forall|address: Address| #[trigger] account_is_warm(base, address) implies account_is_warm(
        reverted,
        address,
    ) by {
        assert(account_is_warm(rolled, address));
    }
    assert forall|address: Address, key: StorageKey| #[trigger]
        slot_is_warm(base, address, key) implies slot_is_warm(reverted, address, key)
        && reverted.state[address].storage[key].original_value
        == base.state[address].storage[key].original_value by {
        assert(slot_is_warm(rolled, address, key));
    }
    assert forall|i: int| base.journal.len() <= i < reverted.journal.len() implies entry_spares(
        base,
        #[trigger] reverted.journal[i],
    ) by {
        assert(reverted.journal[i] == j.journal[i]);
    }
    assert forall|i: int| 0 <= i < base.journal.len() implies #[trigger] reverted.journal[i]
        == base.journal[i] by {
        assert(reverted.journal[i] == j.journal[i]);
    }
}

/// A load of an account journals sparingly: it journals the load only
/// where the account was not warm.
pub proof fn lemma_load_journals_sparingly(
    j: JournalModel,
    address: Address,
    fetched: Option<AccountInfoModel>,
)
    ensures
        journals_sparingly(j, j.load_account(address, fetched)),
{
}

/// A touch journals sparingly.
pub proof fn lemma_touch_journals_sparingly(j: JournalModel, address: Address)
    ensures
        journals_sparingly(j, j.touch(address)),
        keeps_warm(j, j.touch(address)),
{
}

/// Making code present journals nothing.
pub proof fn lemma_load_code_journals_sparingly(
    j: JournalModel,
    address: Address,
    fetched_code: BytecodeModel,
)
    ensures
        journals_sparingly(j, j.load_code_of(address, fetched_code)),
{
}

/// A load of a slot journals sparingly: it journals the load only where
/// the slot was not warm.
pub proof fn lemma_sload_journals_sparingly(
    j: JournalModel,
    address: Address,
    key: StorageKey,
    fetched: StorageValue,
)
    ensures
        journals_sparingly(j, j.sload(address, key, fetched)),
{
}

/// Loads of slots journal sparingly.
pub proof fn lemma_sload_all_journals_sparingly(
    j: JournalModel,
    address: Address,
    keys: Seq<StorageKey>,
    fetched: Seq<StorageValue>,
)
    requires
        account_is_warm(j, address),
    ensures
        journals_sparingly(j, j.sload_all(address, keys, fetched)),
    decreases keys.len(),
{
    if keys.len() > 0 {
        let before = j.sload_all(address, keys.drop_last(), fetched.drop_last());
        lemma_sload_all_journals_sparingly(j, address, keys.drop_last(), fetched.drop_last());
        lemma_sload_all_warms(j, address, keys.drop_last(), fetched.drop_last());
        lemma_sload_journals_sparingly(before, address, keys.last(), fetched.last());
        lemma_journals_sparingly_transitive(j, before, j.sload_all(address, keys, fetched));
    }
}

/// A move of value between two accounts journals sparingly.
pub proof fn lemma_moved_journals_sparingly(j: JournalModel, from: Address, to: Address, amount: U256)
    ensures
        journals_sparingly(j, j.moved(from, to, amount)),
{
}

/// No operation but a revert journals anything whose undoing would make
/// cold what was warm before the operation.
pub proof fn lemma_op_journals_sparingly(j: JournalModel, op: JournalOp)
    requires
        op.is_defined_on(j),
        !(op is CheckpointRevert),
    ensures
        journals_sparingly(j, op.apply(j)),
{
    match op {
        JournalOp::Touch { address } => {
            lemma_touch_journals_sparingly(j, address);
        },
        JournalOp::LoadAccount { address, fetched } => {
            lemma_load_journals_sparingly(j, address, fetched);
        },
        JournalOp::LoadCode { address, fetched, fetched_code } => {
            let loaded = j.load_account(address, fetched);
            lemma_load_journals_sparingly(j, address, fetched);
            lemma_load_keeps_warm(j, address, fetched);
            lemma_load_code_journals_sparingly(loaded, address, fetched_code);
            lemma_journals_sparingly_transitive(j, loaded, op.apply(j));
        },
        JournalOp::LoadAccountDelegated { address, fetched, fetched_code, fetched_delegate } => {
            let for_call = j.load_for_call(address, fetched, fetched_code);
            lemma_load_account_optional_journals_sparingly(
                j,
                address,
                j.spec.is_enabled_in(SpecId::PRAGUE),
                Seq::empty(),
                fetched,
                fetched_code,
                Seq::empty(),
            );
            lemma_load_account_optional_warms(
                j,
                address,
                j.spec.is_enabled_in(SpecId::PRAGUE),
                Seq::empty(),
                fetched,
                fetched_code,
                Seq::empty(),
            );
            match for_call.delegate_of(address) {
                Some(delegate) => {
                    lemma_load_journals_sparingly(for_call, delegate, fetched_delegate);
                    lemma_journals_sparingly_transitive(j, for_call, op.apply(j));
                },
                None => {},
            }
        },
        JournalOp::SetCodeWithHash { address, code, hash } => {
            lemma_set_code_journals_sparingly(j, address, code, hash);
        },
        JournalOp::SetCode { address, code } => {
            lemma_set_code_journals_sparingly(
                j,
                address,
                BytecodeModel::Empty,
                B256::spec_keccak_empty(),
            );
            lemma_set_code_journals_sparingly(j, address, code, code.code_hash());
        },
        JournalOp::BalanceIncr { address, amount, fetched } => {
            let loaded = j.load_account(address, fetched);
            let touched = loaded.touch(address);
            lemma_load_journals_sparingly(j, address, fetched);
            lemma_load_keeps_warm(j, address, fetched);
            lemma_touch_journals_sparingly(loaded, address);
            lemma_journals_sparingly_transitive(j, loaded, touched);
            lemma_keeps_warm_transitive(j, loaded, touched);
            assert(journals_sparingly(touched, op.apply(j)));
            lemma_journals_sparingly_transitive(j, touched, op.apply(j));
        },
        JournalOp::Transfer { from, to, amount, fetched_from, fetched_to } => {
            lemma_transfer_journals_sparingly(j, from, to, amount, fetched_from, fetched_to);
        },
        JournalOp::CreateAccountCheckpoint { caller, target, value, spec_id } => {
            lemma_create_journals_sparingly(j, caller, target, value, spec_id);
        },
        JournalOp::Selfdestruct { address, target, fetched_target } => {
            lemma_selfdestruct_journals_sparingly(j, address, target, fetched_target);
        },
        JournalOp::Sload { address, key, fetched } => {
            lemma_sload_journals_sparingly(j, address, key, fetched);
        },
        JournalOp::Sstore { address, key, new, fetched } => {
            let loaded = j.sload(address, key, fetched);
            lemma_sload_journals_sparingly(j, address, key, fetched);
            lemma_sload_keeps_warm(j, address, key, fetched);
            assert(journals_sparingly(loaded, op.apply(j)));
            lemma_journals_sparingly_transitive(j, loaded, op.apply(j));
        },
        JournalOp::Tstore { address, key, new } => {},
        JournalOp::Log { log } => {},
        JournalOp::LoadAccountOptional {
            address,
            load_code,
            keys,
            fetched,
            fetched_code,
            fetched_slots,
        } => {
            lemma_load_account_optional_journals_sparingly(
                j,
                address,
                load_code,
                keys,
                fetched,
                fetched_code,
                fetched_slots,
            );
        },
        JournalOp::CallerAccounting { address, old_balance, bump_nonce } => {},
        JournalOp::NonceBump { address } => {},
        JournalOp::Checkpoint => {},
        JournalOp::CheckpointCommit => {},
        JournalOp::CheckpointRevert { checkpoint } => {},
    }
}

/// A load of an account with code and slots journals sparingly.
pub proof fn lemma_load_account_optional_journals_sparingly(
    j: JournalModel,
    address: Address,
    load_code: bool,
    keys: Seq<StorageKey>,
    fetched: Option<AccountInfoModel>,
    fetched_code: BytecodeModel,
    fetched_slots: Seq<StorageValue>,
)
    ensures
        journals_sparingly(
            j,
            j.load_account_optional(address, load_code, keys, fetched, fetched_code, fetched_slots),
        ),
{
    let loaded = j.load_account(address, fetched);
    lemma_load_keeps_warm(j, address, fetched);
    lemma_load_journals_sparingly(j, address, fetched);
    let with_code = if load_code {
        loaded.load_code_of(address, fetched_code)
    } else {
        loaded
    };
    lemma_load_code_keeps_warm(loaded, address, fetched_code);
    lemma_load_code_journals_sparingly(loaded, address, fetched_code);
    lemma_keeps_warm_transitive(j, loaded, with_code);
    lemma_journals_sparingly_transitive(j, loaded, with_code);
    lemma_sload_all_journals_sparingly(with_code, address, keys, fetched_slots);
    lemma_journals_sparingly_transitive(
        j,
        with_code,
        with_code.sload_all(address, keys, fetched_slots),
    );
}

/// Installing code journals sparingly.
pub proof fn lemma_set_code_journals_sparingly(
    j: JournalModel,
    address: Address,
    code: BytecodeModel,
    hash: B256,
)
    ensures
        journals_sparingly(j, j.set_code_with_hash(address, code, hash)),
{
    let touched = j.touch(address);
    lemma_touch_journals_sparingly(j, address);
    assert(journals_sparingly(touched, j.set_code_with_hash(address, code, hash)));
    lemma_journals_sparingly_transitive(j, touched, j.set_code_with_hash(address, code, hash));
}

/// A transfer journals sparingly.
pub proof fn lemma_transfer_journals_sparingly(
    j: JournalModel,
    from: Address,
    to: Address,
    amount: U256,
    fetched_from: Option<AccountInfoModel>,
    fetched_to: Option<AccountInfoModel>,
)
    ensures
        journals_sparingly(j, j.transfer(from, to, amount, fetched_from, fetched_to)),
{
    if amount == U256::spec_zero() {
        let loaded = j.load_account(to, fetched_to);
        lemma_load_journals_sparingly(j, to, fetched_to);
        lemma_load_keeps_warm(j, to, fetched_to);
        lemma_touch_journals_sparingly(loaded, to);
        lemma_journals_sparingly_transitive(j, loaded, loaded.touch(to));
    } else {
        let first = j.load_account(from, fetched_from);
        let second = first.load_account(to, fetched_to);
        let third = second.touch(from);
        let prepared = third.touch(to);
        lemma_load_journals_sparingly(j, from, fetched_from);
        lemma_load_keeps_warm(j, from, fetched_from);
        lemma_load_journals_sparingly(first, to, fetched_to);
        lemma_load_keeps_warm(first, to, fetched_to);
        lemma_journals_sparingly_transitive(j, first, second);
        lemma_keeps_warm_transitive(j, first, second);
        lemma_touch_journals_sparingly(second, from);
        lemma_journals_sparingly_transitive(j, second, third);
        lemma_keeps_warm_transitive(j, second, third);
        lemma_touch_journals_sparingly(third, to);
        lemma_journals_sparingly_transitive(j, third, prepared);
        lemma_keeps_warm_transitive(j, third, prepared);
        lemma_moved_journals_sparingly(prepared, from, to, amount);
        lemma_journals_sparingly_transitive(j, prepared, prepared.moved(from, to, amount));
    }
}

/// A creation journals sparingly.
pub proof fn lemma_create_journals_sparingly(
    j: JournalModel,
    caller: Address,
    target: Address,
    value: U256,
    spec_id: SpecId,
)
    requires
        j.state.contains_key(caller),
        j.state.contains_key(target),
    ensures
        journals_sparingly(j, j.create_account_checkpoint(caller, target, value, spec_id)),
{
    if j.create_error(caller, target, value) is None {
        let opened = j.checkpoint();
        let account = j.state[target];
        let created = account.marked_created_locally().with_code(None).with_nonce(
            if spec_id.is_enabled_in(SpecId::SPURIOUS_DRAGON) {
                1
            } else {
                account.info.nonce
            },
        );
        let entered = opened.with_entry(
            JournalEntry::AccountCreated {
                address: target,
                was_globally_created: account.status.created_globally,
            },
        ).with_account(target, created);
        let marked = opened.create_marked(target, spec_id);
        assert(marked == entered.touch(target));
        assert(journals_sparingly(j, entered));
        assert(keeps_warm(j, entered));
        lemma_touch_journals_sparingly(entered, target);
        lemma_journals_sparingly_transitive(j, entered, marked);
        lemma_keeps_warm_transitive(j, entered, marked);
        lemma_moved_journals_sparingly(marked, caller, target, value);
        lemma_journals_sparingly_transitive(j, marked, marked.moved(caller, target, value));
    }
}

/// A selfdestruct journals sparingly.
pub proof fn lemma_selfdestruct_journals_sparingly(
    j: JournalModel,
    address: Address,
    target: Address,
    fetched_target: Option<AccountInfoModel>,
)
    ensures
        journals_sparingly(j, j.selfdestruct(address, target, fetched_target)),
{
    let loaded = j.load_account(target, fetched_target);
    lemma_load_journals_sparingly(j, target, fetched_target);
    lemma_load_keeps_warm(j, target, fetched_target);
    let credited = loaded.selfdestruct_credit(address, target);
    if address != target {
        let touched = loaded.touch(target);
        lemma_touch_journals_sparingly(loaded, target);
        assert(credited.journal == touched.journal);
    }
    assert(journals_sparingly(loaded, credited));
    assert(journals_sparingly(loaded, loaded.selfdestruct_loaded(address, target)));
    lemma_journals_sparingly_transitive(j, loaded, loaded.selfdestruct_loaded(address, target));
}

/// Whether each of `ops` may be called in its turn, starting from `j`, and
/// each revert among them goes to a checkpoint that was taken at `j` or
/// later: it points at no entry that `j` had.
pub open spec fn ops_defined_since(j: JournalModel, ops: Seq<JournalOp>) -> bool
    decreases ops.len(),
{
    ops.len() == 0 || {
        &&& ops_defined_since(j, ops.drop_last())
        &&& ops.last().is_defined_on(apply_ops(j, ops.drop_last()))
        &&& ops.last() is CheckpointRevert ==> j.journal.len()
            <= ops.last()->checkpoint.journal_i
    }
}

/// One more operation after a stretch that kept warm what was warm in
/// `base` and journaled sparingly: the same holds of the longer stretch. A
/// revert must go to a checkpoint taken at `base` or later.
pub proof fn lemma_op_steps_warmly(base: JournalModel, j: JournalModel, op: JournalOp)
    requires
        keeps_warm(base, j),
        journals_sparingly(base, j),
        op.is_defined_on(j),
        op is CheckpointRevert ==> base.journal.len() <= op->checkpoint.journal_i,
    ensures
        keeps_warm(base, op.apply(j)),
        journals_sparingly(base, op.apply(j)),
{
    if op is CheckpointRevert {
        lemma_revert_keeps_warm(base, j, op->checkpoint);
    } else {
        lemma_op_keeps_warm(j, op);
        lemma_op_journals_sparingly(j, op);
        lemma_keeps_warm_transitive(base, j, op.apply(j));
        lemma_journals_sparingly_transitive(base, j, op.apply(j));
    }
}

/// Operations with reverts among them to checkpoints taken since `j` keep
/// warm what is warm in `j`, and journal since `j` only what can be undone
/// without making it cold.
pub proof fn lemma_ops_step_warmly(j: JournalModel, ops: Seq<JournalOp>)
    requires
        ops_defined_since(j, ops),
    ensures
        keeps_warm(j, apply_ops(j, ops)),
        journals_sparingly(j, apply_ops(j, ops)),
    decreases ops.len(),
{
    if ops.len() > 0 {
        lemma_ops_step_warmly(j, ops.drop_last());
        lemma_op_steps_warmly(j, apply_ops(j, ops.drop_last()), ops.last());
    }
}

/// Warm stays warm. Through any operations within one transaction, reverts
/// among them included as long as each goes to a checkpoint that was taken
/// no earlier than the start, an account or slot that is warm at the start
/// stays warm, so that no later load of it is cold, and a slot that is warm
/// at the start keeps its original value.
pub proof fn lemma_ops_keep_warm(j: JournalModel, ops: Seq<JournalOp>)
    requires
        ops_defined_since(j, ops),
    ensures
        keeps_warm(j, apply_ops(j, ops)),
        forall|address: Address| #[trigger]
            account_is_warm(j, address) ==> !apply_ops(j, ops).load_is_cold(address),
        forall|address: Address, key: StorageKey| #[trigger]
            slot_is_warm(j, address, key) ==> !apply_ops(j, ops).sload_is_cold(address, key)
                && apply_ops(j, ops).state[address].storage[key].original_value
                == j.state[address].storage[key].original_value,
{
    lemma_ops_step_warmly(j, ops);
    assert forall|address: Address| #[trigger] account_is_warm(j, address) implies !apply_ops(
        j,
        ops,
    ).load_is_cold(address) by {
        assert(account_is_warm(apply_ops(j, ops), address));
    }
    assert forall|address: Address, key: StorageKey| #[trigger]
        slot_is_warm(j, address, key) implies !apply_ops(j, ops).sload_is_cold(address, key)
        && apply_ops(j, ops).state[address].storage[key].original_value
        == j.state[address].storage[key].original_value by {
        assert(slot_is_warm(apply_ops(j, ops), address, key));
    }
}

// ----- a touched slot keeps its original value -----
/// Whether slot `key` of `address` is in memory and was touched by the
/// current transaction, whether or not the account is warm.
pub open spec fn slot_is_touched(j: JournalModel, address: Address, key: StorageKey) -> bool {
    j.state.contains_key(address) && !j.state[address].slot_is_cold(key, j.transaction_id)
}

/// Whether every slot that is touched in `before` is touched in `after`,
/// with its original value, and the transaction is the same.
pub open spec fn keeps_touched(before: JournalModel, after: JournalModel) -> bool {
    &&& after.transaction_id == before.transaction_id
    &&& forall|address: Address, key: StorageKey| #[trigger]
        slot_is_touched(before, address, key) ==> slot_is_touched(after, address, key)
            && after.state[address].storage[key].original_value
            == before.state[address].storage[key].original_value
}

/// Whether `after` has the entries of `before` and beyond them no entry
/// for the first load of a slot that is touched in `before`.
pub open spec fn journals_no_touched_slot(before: JournalModel, after: JournalModel) -> bool {
    &&& before.journal.len() <= after.journal.len()
    &&& forall|i: int|
        0 <= i < before.journal.len() ==> #[trigger] after.journal[i] == before.journal[i]
    &&& forall|i: int|
        before.journal.len() <= i < after.journal.len() ==> match #[trigger] after.journal[i] {
            JournalEntry::StorageWarmed { address, key } => !slot_is_touched(before, address, key),
            _ => true,
        }
}

/// Whether the operation loads no account: it works on accounts in memory
/// as they are, and so wipes the storage of none.
pub open spec fn loads_no_account(op: JournalOp) -> bool {
    match op {
        JournalOp::Touch { .. }
        | JournalOp::SetCodeWithHash { .. }
        | JournalOp::SetCode { .. }
        | JournalOp::CreateAccountCheckpoint { .. }
        | JournalOp::Sload { .. }
        | JournalOp::Sstore { .. }
        | JournalOp::Tstore { .. }
        | JournalOp::Log { .. }
        | JournalOp::CallerAccounting { .. }
        | JournalOp::NonceBump { .. }
        | JournalOp::Checkpoint
        | JournalOp::CheckpointCommit
        | JournalOp::CheckpointRevert { .. } => true,
        _ => false,
    }
}

/// What stays touched over two stretches stays touched over both.
pub proof fn lemma_keeps_touched_transitive(a: JournalModel, b: JournalModel, c: JournalModel)
    requires
        keeps_touched(a, b),
        journals_no_touched_slot(a, b),
        keeps_touched(b, c),
        journals_no_touched_slot(b, c),
    ensures
        keeps_touched(a, c),
        journals_no_touched_slot(a, c),
{
    assert forall|address: Address, key: StorageKey| #[trigger]
        slot_is_touched(a, address, key) implies slot_is_touched(c, address, key)
        && c.state[address].storage[key].original_value
        == a.state[address].storage[key].original_value by {
        assert(slot_is_touched(b, address, key));
    }
    assert forall|i: int| a.journal.len() <= i < c.journal.len() implies match #[trigger] c.journal[i] {
        JournalEntry::StorageWarmed { address, key } => !slot_is_touched(a, address, key),
        _ => true,
    } by {
        if i < b.journal.len() {
            assert(c.journal[i] == b.journal[i]);
        } else {
            match c.journal[i] {
                JournalEntry::StorageWarmed { address, key } => {
                    assert(slot_is_touched(a, address, key) ==> slot_is_touched(b, address, key));
                },
                _ => {},
            }
        }
    }
}

/// Undoing entries, none of them for the first load of a slot that is
/// touched in `base`, leaves those slots touched, with their original
/// values.
pub proof fn lemma_undo_all_keeps_touched(base: JournalModel, j: JournalModel, entries: Seq<JournalEntry>)
    requires
        keeps_touched(base, j),
        forall|i: int|
            0 <= i < entries.len() ==> match #[trigger] entries[i] {
                JournalEntry::StorageWarmed { address, key } => !slot_is_touched(base, address, key),
                _ => true,
            },
    ensures
        keeps_touched(base, j.with_state(undo_all(j.state, entries))),
    decreases entries.len(),
{
    if entries.len() == 0 {
        assert(j.with_state(j.state) == j);
    } else {
        let entry = entries.last();
        assert(entry == entries[entries.len() - 1]);
        let undone = j.with_state(entry.undo_state(j.state));
        assert forall|address: Address, key: StorageKey| #[trigger]
            slot_is_touched(base, address, key) implies slot_is_touched(undone, address, key)
            && undone.state[address].storage[key].original_value
            == base.state[address].storage[key].original_value by {
            assert(slot_is_touched(j, address, key));
        }
        assert forall|i: int| 0 <= i < entries.drop_last().len() implies match #[trigger] entries.drop_last()[i] {
            JournalEntry::StorageWarmed { address, key } => !slot_is_touched(base, address, key),
            _ => true,
        } by {
            assert(entries.drop_last()[i] == entries[i]);
        }
        lemma_undo_all_keeps_touched(base, undone, entries.drop_last());
        assert(undone.with_state(undo_all(undone.state, entries.drop_last())) == j.with_state(
            undo_all(j.state, entries),
        ));
    }
}

/// One more operation that loads no account, after a stretch that kept the
/// touched slots of `base`: the longer stretch keeps them too. A revert
/// must go to a checkpoint taken at `base` or later.
pub proof fn lemma_op_keeps_touched(base: JournalModel, j: JournalModel, op: JournalOp)
    requires
        keeps_touched(base, j),
        journals_no_touched_slot(base, j),
        op.is_defined_on(j),
        loads_no_account(op),
        op is CheckpointRevert ==> base.journal.len() <= op->checkpoint.journal_i,
    ensures
        keeps_touched(base, op.apply(j)),
        journals_no_touched_slot(base, op.apply(j)),
{
    let after = op.apply(j);
    match op {
        JournalOp::CheckpointRevert { checkpoint } => {
            let undone = j.journal.subrange(checkpoint.journal_i as int, j.journal.len() as int);
            assert forall|i: int| 0 <= i < undone.len() implies match #[trigger] undone[i] {
                JournalEntry::StorageWarmed { address, key } => !slot_is_touched(base, address, key),
                _ => true,
            } by {
                assert(undone[i] == j.journal[checkpoint.journal_i + i]);
            }
            lemma_undo_all_keeps_touched(base, j, undone);
            let rolled = j.with_state(undo_all(j.state, undone));
            assert(after.state == rolled.state);
            assert forall|address: Address, key: StorageKey| #[trigger]
                slot_is_touched(base, address, key) implies slot_is_touched(after, address, key)
                && after.state[address].storage[key].original_value
                == base.state[address].storage[key].original_value by {
                assert(slot_is_touched(rolled, address, key));
            }
            assert forall|i: int| 0 <= i < after.journal.len() implies #[trigger] after.journal[i]
                == j.journal[i] by {}
        },
        JournalOp::SetCodeWithHash { address, code, hash } => {
            lemma_set_code_keeps_touched(j, address, code, hash);
            lemma_keeps_touched_transitive(base, j, after);
        },
        JournalOp::SetCode { address, code } => {
            lemma_set_code_keeps_touched(
                j,
                address,
                BytecodeModel::Empty,
                B256::spec_keccak_empty(),
            );
            lemma_set_code_keeps_touched(j, address, code, code.code_hash());
            lemma_keeps_touched_transitive(base, j, after);
        },
        JournalOp::CreateAccountCheckpoint { caller, target, value, spec_id } => {
            lemma_create_keeps_touched(j, caller, target, value, spec_id);
            lemma_keeps_touched_transitive(base, j, after);
        },
        JournalOp::Sstore { address, key, new, fetched } => {
            let loaded = j.sload(address, key, fetched);
            assert(keeps_touched(j, loaded) && journals_no_touched_slot(j, loaded));
            assert(keeps_touched(loaded, after) && journals_no_touched_slot(loaded, after));
            lemma_keeps_touched_transitive(j, loaded, after);
            lemma_keeps_touched_transitive(base, j, after);
        },
        _ => {
            assert(keeps_touched(j, after) && journals_no_touched_slot(j, after));
            lemma_keeps_touched_transitive(base, j, after);
        },
    }
}

/// Installing code keeps the touched slots.
proof fn lemma_set_code_keeps_touched(
    j: JournalModel,
    address: Address,
    code: BytecodeModel,
    hash: B256,
)
    ensures
        keeps_touched(j, j.set_code_with_hash(address, code, hash)),
        journals_no_touched_slot(j, j.set_code_with_hash(address, code, hash)),
{
    let touched = j.touch(address);
    let after = j.set_code_with_hash(address, code, hash);
    assert(keeps_touched(j, touched) && journals_no_touched_slot(j, touched));
    assert(keeps_touched(touched, after) && journals_no_touched_slot(touched, after));
    lemma_keeps_touched_transitive(j, touched, after);
}

/// A creation keeps the touched slots.
proof fn lemma_create_keeps_touched(
    j: JournalModel,
    caller: Address,
    target: Address,
    value: U256,
    spec_id: SpecId,
)
    requires
        j.state.contains_key(caller),
        j.state.contains_key(target),
    ensures
        keeps_touched(j, j.create_account_checkpoint(caller, target, value, spec_id)),
        journals_no_touched_slot(j, j.create_account_checkpoint(caller, target, value, spec_id)),
{
    if j.create_error(caller, target, value) is None {
        let opened = j.checkpoint();
        let account = j.state[target];
        let created = account.marked_created_locally().with_code(None).with_nonce(
            if spec_id.is_enabled_in(SpecId::SPURIOUS_DRAGON) {
                1
            } else {
                account.info.nonce
            },
        );
        let entered = opened.with_entry(
            JournalEntry::AccountCreated {
                address: target,
                was_globally_created: account.status.created_globally,
            },
        ).with_account(target, created);
        let marked = opened.create_marked(target, spec_id);
        let after = marked.moved(caller, target, value);
        assert(marked == entered.touch(target));
        assert(keeps_touched(j, entered) && journals_no_touched_slot(j, entered));
        assert(keeps_touched(entered, marked) && journals_no_touched_slot(entered, marked));
        lemma_keeps_touched_transitive(j, entered, marked);
        assert(keeps_touched(marked, after) && journals_no_touched_slot(marked, after));
        lemma_keeps_touched_transitive(j, marked, after);
    }
}

/// Whether each of `ops` loads no account.
pub open spec fn ops_load_no_account(ops: Seq<JournalOp>) -> bool {
    forall|i: int| 0 <= i < ops.len() ==> loads_no_account(#[trigger] ops[i])
}

/// Operations that load no account keep the touched slots.
proof fn lemma_ops_keep_touched(j: JournalModel, ops: Seq<JournalOp>)
    requires
        ops_defined_since(j, ops),
        ops_load_no_account(ops),
    ensures
        keeps_touched(j, apply_ops(j, ops)),
        journals_no_touched_slot(j, apply_ops(j, ops)),
    decreases ops.len(),
{
    if ops.len() > 0 {
        assert forall|i: int| 0 <= i < ops.drop_last().len() implies loads_no_account(
            #[trigger] ops.drop_last()[i],
        ) by {
            assert(ops.drop_last()[i] == ops[i]);
        }
        assert(ops.last() == ops[ops.len() - 1]);
        lemma_ops_keep_touched(j, ops.drop_last());
        lemma_op_keeps_touched(j, apply_ops(j, ops.drop_last()), ops.last());
    }
}

/// The original value is stable. A slot that this transaction has touched,
/// of an account that is warm or not, stays touched through loads and
/// stores of slots and any other operations that load no account, reverts
/// among them included as long as each goes to a checkpoint that was taken
/// no earlier than the start. No later load of the slot is cold, and a
/// store to it reports and keeps the original value that the slot had at
/// the start, whatever is stored.
pub proof fn lemma_touched_slot_keeps_original_value(
    j: JournalModel,
    ops: Seq<JournalOp>,
    address: Address,
    key: StorageKey,
    new: StorageValue,
    fetched: StorageValue,
)
    requires
        ops_defined_since(j, ops),
        ops_load_no_account(ops),
        slot_is_touched(j, address, key),
    ensures
        ({
            let after = apply_ops(j, ops);
            let original = j.state[address].storage[key].original_value;
            &&& after.state.contains_key(address)
            &&& !after.sload_is_cold(address, key)
            &&& after.state[address].storage[key].original_value == original
            &&& after.sload_value(address, key, fetched)
                == after.state[address].storage[key].present_value
            &&& after.sstore_result(address, key, new, fetched).original_value == original
            &&& after.sstore(address, key, new, fetched).state[address].storage[key] == (StorageSlot {
                present_value: new,
                ..after.state[address].storage[key]
            })
        }),
{
    lemma_ops_keep_touched(j, ops);
    let after = apply_ops(j, ops);
    assert(slot_is_touched(after, address, key));
}

// ----- once loaded, warm -----
/// Once loaded, an account is warm. After a load of `address`, whatever
/// the database had for it, and any operations of the same transaction,
/// reverts among them included as long as none goes back beyond the load,
/// the account is in memory, a load of it is not cold, and such a load
/// changes nothing: it journals no entry, and what the database would
/// answer makes no difference.
pub proof fn lemma_loaded_account_stays_warm(
    j: JournalModel,
    address: Address,
    fetched: Option<AccountInfoModel>,
    ops: Seq<JournalOp>,
    later: Option<AccountInfoModel>,
)
    requires
        ops_defined_since(j.load_account(address, fetched), ops),
    ensures
        ({
            let after = apply_ops(j.load_account(address, fetched), ops);
            &&& after.state.contains_key(address)
            &&& !after.load_is_cold(address)
            &&& after.load_account(address, later) == after
        }),
{
    let loaded = j.load_account(address, fetched);
    let after = apply_ops(loaded, ops);
    lemma_load_keeps_warm(j, address, fetched);
    lemma_ops_keep_warm(loaded, ops);
    assert(account_is_warm(after, address));
    lemma_load_warm_account(after, address, later);
}

/// Once loaded, a slot is warm. After a load of slot `key` of `address`,
/// an account in memory, and any operations of the same transaction,
/// reverts among them included as long as none goes back beyond the load,
/// a load of the slot is not cold, finds the present value and changes
/// nothing: it journals no entry, and what the database would answer makes
/// no difference. The operations may be any where the account is warm, and
/// else any that load no account.
pub proof fn lemma_loaded_slot_stays_warm(
    j: JournalModel,
    address: Address,
    key: StorageKey,
    fetched: StorageValue,
    ops: Seq<JournalOp>,
    later: StorageValue,
)
    requires
        j.state.contains_key(address),
        ops_defined_since(j.sload(address, key, fetched), ops),
        account_is_warm(j, address) || ops_load_no_account(ops),
    ensures
        ({
            let after = apply_ops(j.sload(address, key, fetched), ops);
            &&& after.state.contains_key(address)
            &&& !after.sload_is_cold(address, key)
            &&& after.sload_value(address, key, later)
                == after.state[address].storage[key].present_value
            &&& after.sload(address, key, later) == after
        }),
{
    let loaded = j.sload(address, key, fetched);
    let after = apply_ops(loaded, ops);
    assert(slot_is_touched(loaded, address, key));
    if ops_load_no_account(ops) {
        lemma_ops_keep_touched(loaded, ops);
    } else {
        lemma_sload_keeps_warm(j, address, key, fetched);
        assert(account_is_warm(loaded, address));
        assert(slot_is_warm(loaded, address, key));
        lemma_ops_keep_warm(loaded, ops);
        assert(slot_is_warm(after, address, key));
    }
    assert(slot_is_touched(after, address, key));
    let account = after.state[address];
    assert(account.storage.insert(key, account.storage[key]) =~= account.storage);
    assert(account.with_slot_loaded(key, after.transaction_id, later) == account);
    assert(after.state.insert(address, account) =~= after.state);
}

/// The first load fixes the original value. The value that the first load
/// of a slot in a transaction finds is the original value of the slot from
/// then on: through any later loads and stores of slots, and the other
/// operations that [`lemma_loaded_slot_stays_warm`] admits, the slot keeps
/// it, and a store reports and keeps it, whatever is stored.
pub proof fn lemma_first_load_fixes_original_value(
    j: JournalModel,
    address: Address,
    key: StorageKey,
    fetched: StorageValue,
    ops: Seq<JournalOp>,
    new: StorageValue,
    later: StorageValue,
)
    requires
        j.state.contains_key(address),
        j.sload_is_cold(address, key),
        ops_defined_since(j.sload(address, key, fetched), ops),
        account_is_warm(j, address) || ops_load_no_account(ops),
    ensures
        ({
            let found = j.sload_value(address, key, fetched);
            let after = apply_ops(j.sload(address, key, fetched), ops);
            let stored = after.sstore(address, key, new, later);
            &&& after.state[address].storage[key].original_value == found
            &&& after.sstore_result(address, key, new, later).original_value == found
            &&& stored.state[address].storage[key].original_value == found
            &&& stored.state[address].storage[key].present_value == new
        }),
{
    let loaded = j.sload(address, key, fetched);
    let after = apply_ops(loaded, ops);
    assert(slot_is_touched(loaded, address, key));
    assert(loaded.state[address].storage[key].original_value == j.sload_value(
        address,
        key,
        fetched,
    ));
    if ops_load_no_account(ops) {
        lemma_ops_keep_touched(loaded, ops);
    } else {
        lemma_sload_keeps_warm(j, address, key, fetched);
        assert(slot_is_warm(loaded, address, key));
        lemma_ops_keep_warm(loaded, ops);
        assert(slot_is_warm(after, address, key));
    }
    assert(slot_is_touched(after, address, key));
    lemma_loaded_slot_stays_warm(j, address, key, fetched, ops, later);
}

/// A revert to a checkpoint changes the original value of no slot that is
/// still in memory after it, as long as what was done since the checkpoint
/// can be taken back in full.
pub proof fn lemma_revert_keeps_original_values(j: JournalModel, ops: Seq<JournalOp>)
    requires
        j.wf(),
        j.journal.len() <= usize::MAX,
        j.logs.len() <= usize::MAX,
        ops_reversible(j.checkpoint(), ops),
    ensures
        forall|address: Address, key: StorageKey|
            j.state.contains_key(address) && #[trigger] j.state[address].storage.contains_key(key)
                ==> apply_ops(j.checkpoint(), ops).checkpoint_revert(
                j.checkpoint_mark(),
            ).state[address].storage[key].original_value
                == j.state[address].storage[key].original_value,
{
    lemma_revert_restores(j, ops);
}

} // verus!
