use journaled_evm::database::Database;
use journaled_evm::entry::{JournalEntry, SelfdestructionRevertStatus};
use journaled_evm::journal::{sload_fetched, sload_with_account, JournalInner};
use journaled_evm::journal_model::{JournalCheckpoint, SStoreResult, TransferError};
use journaled_evm::primitives::{Address, SpecId, B256, U256};
use journaled_evm::state::{Account, AccountInfo, Bytecode};
use journaled_evm::vec_map::{SlotId, VecSet};

fn u(v: u64) -> U256 {
    U256::from_u64(v)
}

fn addr(v: u128) -> Address {
    Address { hi: 0, lo: v }
}

fn info(balance: U256, nonce: u64) -> AccountInfo {
    AccountInfo { balance, nonce, code_hash: B256::keccak_empty(), code: None }
}

/// A database that answers from two lists and counts what it is asked.
struct MockDb {
    accounts: Vec<(Address, AccountInfo)>,
    slots: Vec<(Address, U256, U256)>,
    codes: Vec<(B256, Vec<u8>)>,
    fail: bool,
    basic_calls: usize,
    storage_calls: usize,
    code_calls: usize,
}

impl MockDb {
    fn new() -> Self {
        MockDb {
            accounts: Vec::new(),
            slots: Vec::new(),
            codes: Vec::new(),
            fail: false,
            basic_calls: 0,
            storage_calls: 0,
            code_calls: 0,
        }
    }
}

impl Database for MockDb {
    type Error = String;

    fn basic(&mut self, address: Address) -> Result<Option<AccountInfo>, String> {
        self.basic_calls += 1;
        if self.fail {
            return Err("basic failed".to_string());
        }
        Ok(self.accounts.iter().find(|(a, _)| *a == address).map(|(_, i)| i.clone()))
    }

    fn code_by_hash(&mut self, code_hash: B256) -> Result<Bytecode, String> {
        self.code_calls += 1;
        if self.fail {
            return Err("code failed".to_string());
        }
        match self.codes.iter().find(|(h, _)| *h == code_hash) {
            Some((_, bytes)) => Ok(Bytecode::Raw(bytes.clone())),
            None => Ok(Bytecode::Empty),
        }
    }

    fn storage(&mut self, address: Address, index: U256) -> Result<U256, String> {
        self.storage_calls += 1;
        if self.fail {
            return Err("storage failed".to_string());
        }
        Ok(self
            .slots
            .iter()
            .find(|(a, k, _)| *a == address && *k == index)
            .map(|(_, _, v)| *v)
            .unwrap_or(U256::zero()))
    }
}

/// A journal under `spec` that holds each of `accounts` as if the current
/// transaction had loaded it.
fn journal_with(spec: SpecId, accounts: Vec<(Address, AccountInfo)>) -> JournalInner {
    let mut journal = JournalInner::new();
    journal.set_spec_id(spec);
    for (address, info) in accounts {
        journal.state.insert(address, Account::from_info(info, 0));
    }
    journal
}

fn balance(journal: &JournalInner, address: Address) -> U256 {
    journal.account(address).info.balance
}

// ----- scenarios -----

#[test]
fn cold_then_warm_sload() {
    let a = addr(0xaa);
    let mut journal = journal_with(SpecId::CANCUN, vec![(a, info(u(0), 0))]);
    let mut db = MockDb::new();
    db.slots.push((a, u(1), u(0x42)));

    let first = journal.sload(&mut db, a, u(1)).unwrap();
    assert!(first.is_cold);
    assert_eq!(first.data, u(0x42));
    assert_eq!(journal.journal, vec![JournalEntry::StorageWarmed { address: a, key: u(1) }]);

    let second = journal.sload(&mut db, a, u(1)).unwrap();
    assert!(!second.is_cold);
    assert_eq!(second.data, u(0x42));
    assert_eq!(journal.journal.len(), 1);
    assert_eq!(db.storage_calls, 1);

    let slot = journal.account(a).storage.get(&u(1)).unwrap();
    assert_eq!(slot.original_value, u(0x42));
    assert_eq!(slot.present_value, u(0x42));
}

#[test]
fn sstore_then_revert_leaves_the_slot_cold_and_empty() {
    let a = addr(0xaa);
    let mut journal = journal_with(SpecId::CANCUN, vec![(a, info(u(0), 0))]);
    let mut db = MockDb::new();

    let checkpoint = journal.checkpoint();
    let stored = journal.sstore(&mut db, a, u(1), u(7)).unwrap();
    assert!(stored.is_cold);
    assert_eq!(
        stored.data,
        SStoreResult { original_value: u(0), present_value: u(0), new_value: u(7) }
    );
    assert_eq!(
        journal.journal,
        vec![
            JournalEntry::StorageWarmed { address: a, key: u(1) },
            JournalEntry::StorageChanged { address: a, key: u(1), old_value: u(0) },
        ]
    );
    assert_eq!(journal.account(a).storage.get(&u(1)).unwrap().present_value, u(7));

    journal.checkpoint_revert(checkpoint);
    assert_eq!(journal.depth, 0);
    assert!(journal.journal.is_empty());
    assert!(journal.account(a).storage.get(&u(1)).is_none());

    let again = journal.sload(&mut db, a, u(1)).unwrap();
    assert_eq!(again.data, u(0));
    assert!(again.is_cold);
}

#[test]
fn create_collision_is_fully_reverted() {
    let caller = addr(1);
    let target = addr(2);
    let mut journal =
        journal_with(SpecId::ISTANBUL, vec![(caller, info(u(50), 0)), (target, info(u(0), 1))]);

    let result = journal.create_account_checkpoint(caller, target, u(0), SpecId::ISTANBUL);
    assert_eq!(result, Err(TransferError::CreateCollision));
    assert_eq!(journal.depth, 0);
    assert!(journal.journal.is_empty());
    let account = journal.account(target);
    assert!(!account.is_touched());
    assert!(!account.is_created_locally());
    assert_eq!(account.info.nonce, 1);
    assert_eq!(account.info.balance, u(0));
    assert_eq!(balance(&journal, caller), u(50));
}

#[test]
fn selfdestruct_under_cancun_only_moves_the_balance() {
    let a = addr(0xa);
    let t = addr(0xb);
    let mut journal =
        journal_with(SpecId::CANCUN, vec![(a, info(u(100), 1)), (t, info(u(5), 0))]);
    let mut db = MockDb::new();

    let result = journal.selfdestruct(&mut db, a, t).unwrap();
    assert!(result.data.had_value);
    assert!(result.data.target_exists);
    assert!(!result.data.previously_destroyed);
    assert!(!result.is_cold);
    assert_eq!(balance(&journal, t), u(105));
    assert_eq!(balance(&journal, a), u(0));
    assert!(!journal.account(a).is_selfdestructed());
    assert!(!journal.account(a).is_selfdestructed_locally());
    assert_eq!(
        journal.journal,
        vec![
            JournalEntry::AccountTouched { address: t },
            JournalEntry::BalanceTransfer { from: a, to: t, amount: u(100) },
        ]
    );
}

#[test]
fn selfdestruct_under_london_destroys() {
    let a = addr(0xa);
    let t = addr(0xb);
    let mut journal =
        journal_with(SpecId::LONDON, vec![(a, info(u(100), 1)), (t, info(u(5), 0))]);
    let mut db = MockDb::new();

    let result = journal.selfdestruct(&mut db, a, t).unwrap();
    assert!(result.data.had_value);
    assert!(!result.data.previously_destroyed);
    assert_eq!(balance(&journal, t), u(105));
    assert_eq!(balance(&journal, a), u(0));
    assert!(journal.account(a).is_selfdestructed());
    assert!(journal.account(a).is_selfdestructed_locally());
    assert_eq!(
        journal.journal,
        vec![
            JournalEntry::AccountTouched { address: t },
            JournalEntry::AccountDestroyed {
                address: a,
                target: t,
                status: SelfdestructionRevertStatus::GloballySelfdestroyed,
                had_balance: u(100),
            },
        ]
    );

    let again = journal.selfdestruct(&mut db, a, t).unwrap();
    assert!(again.data.previously_destroyed);
    assert!(!again.data.had_value);
}

#[test]
fn created_contract_starts_at_nonce_one_from_spurious_dragon() {
    let caller = addr(1);
    let target = addr(2);

    let mut journal = journal_with(
        SpecId::SPURIOUS_DRAGON,
        vec![(caller, info(u(50), 0)), (target, info(u(0), 0))],
    );
    let result = journal.create_account_checkpoint(caller, target, u(20), SpecId::SPURIOUS_DRAGON);
    assert_eq!(result, Ok(JournalCheckpoint { log_i: 0, journal_i: 0 }));
    assert_eq!(journal.account(target).info.nonce, 1);
    assert_eq!(journal.depth, 1);
    assert_eq!(balance(&journal, target), u(20));
    assert_eq!(balance(&journal, caller), u(30));
    assert!(journal.account(target).is_created_locally());
    assert!(journal.account(target).is_created());
    assert!(journal.account(target).is_touched());
    assert_eq!(
        journal.journal,
        vec![
            JournalEntry::AccountCreated { address: target, was_globally_created: false },
            JournalEntry::AccountTouched { address: target },
            JournalEntry::BalanceTransfer { from: caller, to: target, amount: u(20) },
        ]
    );

    let mut journal =
        journal_with(SpecId::HOMESTEAD, vec![(caller, info(u(50), 0)), (target, info(u(0), 0))]);
    let result = journal.create_account_checkpoint(caller, target, u(20), SpecId::HOMESTEAD);
    assert!(result.is_ok());
    assert_eq!(journal.account(target).info.nonce, 0);
}

#[test]
fn transfer_overflow_is_reported_and_reverts_cleanly() {
    let from = addr(1);
    let to = addr(2);
    let mut journal = journal_with(
        SpecId::CANCUN,
        vec![(from, info(u(10), 0)), (to, info(U256::max_value(), 0))],
    );
    let mut db = MockDb::new();

    let checkpoint = journal.checkpoint();
    let outcome = journal.transfer(&mut db, from, to, u(1)).unwrap();
    assert_eq!(outcome, Some(TransferError::OverflowPayment));
    assert_eq!(balance(&journal, from), u(10));
    assert_eq!(balance(&journal, to), U256::max_value());

    journal.checkpoint_revert(checkpoint);
    assert!(journal.journal.is_empty());
    assert_eq!(journal.depth, 0);
    assert_eq!(balance(&journal, from), u(10));
    assert_eq!(balance(&journal, to), U256::max_value());
    assert!(!journal.account(from).is_touched());
    assert!(!journal.account(to).is_touched());
}

// ----- transfers -----

#[test]
fn transfer_moves_value_and_journals_one_entry_for_it() {
    let from = addr(1);
    let to = addr(2);
    let mut journal =
        journal_with(SpecId::CANCUN, vec![(from, info(u(10), 0)), (to, info(u(1), 0))]);
    let mut db = MockDb::new();
    assert_eq!(journal.transfer(&mut db, from, to, u(4)).unwrap(), None);
    assert_eq!(balance(&journal, from), u(6));
    assert_eq!(balance(&journal, to), u(5));
    assert_eq!(
        journal.journal,
        vec![
            JournalEntry::AccountTouched { address: from },
            JournalEntry::AccountTouched { address: to },
            JournalEntry::BalanceTransfer { from, to, amount: u(4) },
        ]
    );
    assert_eq!(db.basic_calls, 0);
}

#[test]
fn transfer_out_of_funds_changes_no_balance() {
    let from = addr(1);
    let to = addr(2);
    let mut journal =
        journal_with(SpecId::CANCUN, vec![(from, info(u(3), 0)), (to, info(u(1), 0))]);
    let mut db = MockDb::new();
    assert_eq!(
        journal.transfer(&mut db, from, to, u(4)).unwrap(),
        Some(TransferError::OutOfFunds)
    );
    assert_eq!(balance(&journal, from), u(3));
    assert_eq!(balance(&journal, to), u(1));
    assert!(journal.account(from).is_touched());
    assert!(journal.account(to).is_touched());
}

#[test]
fn transfer_of_zero_loads_and_touches_the_receiver_only() {
    let from = addr(1);
    let to = addr(2);
    let mut journal = journal_with(SpecId::CANCUN, vec![]);
    let mut db = MockDb::new();
    db.accounts.push((to, info(u(9), 3)));
    assert_eq!(journal.transfer(&mut db, from, to, U256::zero()).unwrap(), None);
    assert!(journal.state.get(&from).is_none());
    assert!(journal.account(to).is_touched());
    assert_eq!(balance(&journal, to), u(9));
    assert_eq!(
        journal.journal,
        vec![
            JournalEntry::AccountWarmed { address: to },
            JournalEntry::AccountTouched { address: to },
        ]
    );
}

#[test]
fn transfer_to_oneself_keeps_the_balance() {
    let a = addr(1);
    let mut journal = journal_with(SpecId::CANCUN, vec![(a, info(U256::max_value(), 0))]);
    let mut db = MockDb::new();
    assert_eq!(journal.transfer(&mut db, a, a, u(4)).unwrap(), None);
    assert_eq!(balance(&journal, a), U256::max_value());
}

#[test]
fn transfer_hands_on_a_database_error() {
    let mut journal = journal_with(SpecId::CANCUN, vec![]);
    let mut db = MockDb::new();
    db.fail = true;
    assert_eq!(journal.transfer(&mut db, addr(1), addr(2), u(4)), Err("basic failed".to_string()));
    assert!(journal.state.get(&addr(1)).is_none());
    assert!(journal.journal.is_empty());
}

// ----- loads -----

#[test]
fn load_of_an_unknown_account_inserts_a_placeholder() {
    let a = addr(5);
    let mut journal = journal_with(SpecId::CANCUN, vec![]);
    let mut db = MockDb::new();
    {
        let load = journal.load_account(&mut db, a).unwrap();
        assert!(load.is_cold);
        assert!(load.data.is_loaded_as_not_existing());
        assert!(load.data.is_empty());
    }
    assert_eq!(journal.journal, vec![JournalEntry::AccountWarmed { address: a }]);
    let again = journal.load_account(&mut db, a).unwrap();
    assert!(!again.is_cold);
    assert_eq!(db.basic_calls, 1);
}

#[test]
fn load_of_a_known_account_takes_what_the_database_has() {
    let a = addr(5);
    let mut journal = journal_with(SpecId::CANCUN, vec![]);
    journal.transaction_id = 3;
    let mut db = MockDb::new();
    db.accounts.push((a, info(u(77), 4)));
    let load = journal.load_account(&mut db, a).unwrap();
    assert!(load.is_cold);
    assert_eq!(load.data.info.balance, u(77));
    assert_eq!(load.data.info.nonce, 4);
    assert_eq!(load.data.last_touched_tx, 3);
    assert!(!load.data.is_loaded_as_not_existing());
}

#[test]
fn preloaded_addresses_and_the_coinbase_load_warm() {
    let precompile = addr(1);
    let coinbase = addr(2);
    let other = addr(3);
    let mut journal = journal_with(SpecId::CANCUN, vec![]);
    let mut precompiles = VecSet::new();
    precompiles.insert(precompile);
    journal.warm_precompiles(precompiles);
    journal.warm_coinbase_account(coinbase);
    let mut db = MockDb::new();
    assert!(!journal.load_account(&mut db, precompile).unwrap().is_cold);
    assert!(!journal.load_account(&mut db, coinbase).unwrap().is_cold);
    assert!(journal.load_account(&mut db, other).unwrap().is_cold);
    assert_eq!(journal.journal, vec![JournalEntry::AccountWarmed { address: other }]);
}

#[test]
fn an_account_is_cold_again_in_the_next_transaction() {
    let a = addr(5);
    let mut journal = journal_with(SpecId::CANCUN, vec![(a, info(u(1), 0))]);
    let mut db = MockDb::new();
    assert!(!journal.load_account(&mut db, a).unwrap().is_cold);
    journal.commit_tx();
    assert!(journal.load_account(&mut db, a).unwrap().is_cold);
    assert!(!journal.load_account(&mut db, a).unwrap().is_cold);
}

#[test]
fn a_destroyed_account_is_wiped_by_the_first_load_of_the_next_transaction() {
    let a = addr(5);
    let t = addr(6);
    let mut journal =
        journal_with(SpecId::LONDON, vec![(a, info(u(9), 2)), (t, info(u(0), 0))]);
    let mut db = MockDb::new();
    journal.sstore(&mut db, a, u(1), u(7)).unwrap();
    journal.selfdestruct(&mut db, a, t).unwrap();
    journal.commit_tx();
    let load = journal.load_account(&mut db, a).unwrap();
    assert!(load.is_cold);
    assert!(!load.data.is_selfdestructed_locally());
    assert!(load.data.is_selfdestructed());
    assert_eq!(load.data.info.nonce, 0);
    assert!(load.data.storage.get(&u(1)).is_none());
}

#[test]
fn load_code_fetches_code_by_its_hash() {
    let a = addr(5);
    let hash = B256 { hi: 1, lo: 2 };
    let mut journal = journal_with(SpecId::CANCUN, vec![]);
    let mut db = MockDb::new();
    db.accounts.push((a, AccountInfo { balance: u(0), nonce: 1, code_hash: hash, code: None }));
    db.codes.push((hash, vec![0x60, 0x00]));
    {
        let load = journal.load_code(&mut db, a).unwrap();
        match &load.data.info.code {
            Some(Bytecode::Raw(bytes)) => assert_eq!(bytes, &vec![0x60, 0x00]),
            other => panic!("unexpected code {:?}", other),
        }
    }
    assert_eq!(db.code_calls, 1);
    journal.load_code(&mut db, a).unwrap();
    assert_eq!(db.code_calls, 1);
}

#[test]
fn load_code_of_an_account_without_code_asks_nothing() {
    let a = addr(5);
    let mut journal = journal_with(SpecId::CANCUN, vec![(a, info(u(0), 0))]);
    let mut db = MockDb::new();
    let load = journal.load_code(&mut db, a).unwrap();
    assert!(matches!(load.data.info.code, Some(Bytecode::Empty)));
    assert_eq!(db.code_calls, 0);
}

#[test]
fn load_account_optional_loads_the_slots_in_order() {
    let a = addr(5);
    let mut journal = journal_with(SpecId::CANCUN, vec![]);
    let mut db = MockDb::new();
    db.accounts.push((a, info(u(1), 0)));
    db.slots.push((a, u(2), u(22)));
    {
        let load = journal
            .load_account_optional(&mut db, a, false, &[u(1), u(2), u(1)])
            .unwrap();
        assert!(load.is_cold);
        assert_eq!(load.data.storage.get(&u(2)).unwrap().present_value, u(22));
        assert_eq!(load.data.storage.get(&u(1)).unwrap().present_value, u(0));
    }
    assert_eq!(
        journal.journal,
        vec![
            JournalEntry::AccountWarmed { address: a },
            JournalEntry::StorageWarmed { address: a, key: u(1) },
            JournalEntry::StorageWarmed { address: a, key: u(2) },
        ]
    );
    assert_eq!(db.storage_calls, 2);
}

#[test]
fn load_account_delegated_follows_a_delegation_from_prague_on() {
    let a = addr(5);
    let d = addr(6);
    let delegating = AccountInfo {
        balance: u(1),
        nonce: 1,
        code_hash: B256 { hi: 9, lo: 9 },
        code: Some(Bytecode::Eip7702 { delegate: d }),
    };
    let mut journal = journal_with(SpecId::PRAGUE, vec![]);
    let mut db = MockDb::new();
    db.accounts.push((a, delegating.clone()));
    let load = journal.load_account_delegated(&mut db, a).unwrap();
    assert!(load.is_cold);
    assert!(!load.data.is_empty);
    assert_eq!(load.data.is_delegate_account_cold, Some(true));
    assert!(journal.state.get(&d).is_some());
    let again = journal.load_account_delegated(&mut db, a).unwrap();
    assert!(!again.is_cold);
    assert_eq!(again.data.is_delegate_account_cold, Some(false));

    let mut journal = journal_with(SpecId::CANCUN, vec![]);
    let mut db = MockDb::new();
    db.accounts.push((a, delegating));
    let load = journal.load_account_delegated(&mut db, a).unwrap();
    assert_eq!(load.data.is_delegate_account_cold, None);
    assert!(journal.state.get(&d).is_none());
}

#[test]
fn emptiness_depends_on_the_fork() {
    let a = addr(5);
    // Before Spurious Dragon an account counts as empty only while it is a
    // placeholder that nothing has touched.
    let mut journal = journal_with(SpecId::HOMESTEAD, vec![(a, info(u(0), 0))]);
    let mut db = MockDb::new();
    assert!(!journal.load_account_delegated(&mut db, a).unwrap().data.is_empty);
    assert!(journal.load_account_delegated(&mut db, addr(6)).unwrap().data.is_empty);
    journal.touch(addr(6));
    assert!(!journal.load_account_delegated(&mut db, addr(6)).unwrap().data.is_empty);

    let mut journal = journal_with(SpecId::SPURIOUS_DRAGON, vec![(a, info(u(0), 0))]);
    assert!(journal.load_account_delegated(&mut db, a).unwrap().data.is_empty);
}

// ----- storage -----

#[test]
fn storage_of_an_account_created_in_this_transaction_is_zero_without_the_database() {
    let caller = addr(1);
    let target = addr(2);
    let mut journal =
        journal_with(SpecId::CANCUN, vec![(caller, info(u(5), 0)), (target, info(u(0), 0))]);
    let mut db = MockDb::new();
    db.slots.push((target, u(1), u(99)));
    journal.create_account_checkpoint(caller, target, u(0), SpecId::CANCUN).unwrap();
    let load = journal.sload(&mut db, target, u(1)).unwrap();
    assert_eq!(load.data, u(0));
    assert!(load.is_cold);
    assert_eq!(db.storage_calls, 0);
}

#[test]
fn sstore_of_the_present_value_journals_nothing_more() {
    let a = addr(5);
    let mut journal = journal_with(SpecId::CANCUN, vec![(a, info(u(0), 0))]);
    let mut db = MockDb::new();
    db.slots.push((a, u(1), u(3)));
    let stored = journal.sstore(&mut db, a, u(1), u(3)).unwrap();
    assert_eq!(
        stored.data,
        SStoreResult { original_value: u(3), present_value: u(3), new_value: u(3) }
    );
    assert_eq!(journal.journal, vec![JournalEntry::StorageWarmed { address: a, key: u(1) }]);
    let stored = journal.sstore(&mut db, a, u(1), u(4)).unwrap();
    assert!(!stored.is_cold);
    let stored = journal.sstore(&mut db, a, u(1), u(5)).unwrap();
    assert_eq!(
        stored.data,
        SStoreResult { original_value: u(3), present_value: u(4), new_value: u(5) }
    );
}

#[test]
fn sload_hands_on_a_database_error_and_changes_nothing() {
    let a = addr(5);
    let mut journal = journal_with(SpecId::CANCUN, vec![(a, info(u(0), 0))]);
    let mut db = MockDb::new();
    db.fail = true;
    assert!(journal.sload(&mut db, a, u(1)).is_err());
    assert!(journal.account(a).storage.get(&u(1)).is_none());
    assert!(journal.journal.is_empty());
}

#[test]
fn sload_with_account_works_on_a_bare_account() {
    let a = addr(5);
    let mut account = Account::from_info(info(u(0), 0), 4);
    let mut entries = Vec::new();
    let mut db = MockDb::new();
    db.slots.push((a, u(1), u(8)));
    let load = sload_with_account(&mut account, &mut db, &mut entries, 4, a, u(1)).unwrap();
    assert_eq!(load.data, u(8));
    assert!(load.is_cold);
    assert_eq!(entries, vec![JournalEntry::StorageWarmed { address: a, key: u(1) }]);
    let load = sload_with_account(&mut account, &mut db, &mut entries, 5, a, u(1)).unwrap();
    assert!(load.is_cold, "another transaction finds the slot cold");
    assert_eq!(entries.len(), 2);
}

#[test]
fn the_original_value_is_fixed_at_the_first_touch_of_a_transaction() {
    let a = addr(5);
    let mut journal = journal_with(SpecId::CANCUN, vec![(a, info(u(0), 0))]);
    let mut db = MockDb::new();
    db.slots.push((a, u(1), u(3)));
    journal.sstore(&mut db, a, u(1), u(4)).unwrap();
    journal.sstore(&mut db, a, u(1), u(5)).unwrap();
    journal.sload(&mut db, a, u(1)).unwrap();
    assert_eq!(journal.account(a).storage.get(&u(1)).unwrap().original_value, u(3));
    journal.commit_tx();
    journal.load_account(&mut db, a).unwrap();
    let stored = journal.sstore(&mut db, a, u(1), u(6)).unwrap();
    assert!(stored.is_cold);
    assert_eq!(
        stored.data,
        SStoreResult { original_value: u(5), present_value: u(5), new_value: u(6) }
    );
}

#[test]
fn transient_storage_journals_only_changes() {
    let a = addr(5);
    let mut journal = journal_with(SpecId::CANCUN, vec![]);
    assert_eq!(journal.tload(a, u(1)), u(0));
    journal.tstore(a, u(1), u(0));
    assert!(journal.journal.is_empty());
    journal.tstore(a, u(1), u(9));
    journal.tstore(a, u(1), u(9));
    assert_eq!(
        journal.journal,
        vec![JournalEntry::TransientStorageChanged { address: a, key: u(1), old_value: u(0) }]
    );
    assert_eq!(journal.tload(a, u(1)), u(9));
    journal.tstore(a, u(1), u(0));
    assert_eq!(journal.tload(a, u(1)), u(0));
    assert!(journal.transient_storage.get(&SlotId { address: a, key: u(1) }).is_none());
    assert_eq!(
        journal.journal[1],
        JournalEntry::TransientStorageChanged { address: a, key: u(1), old_value: u(9) }
    );
}

#[test]
fn transient_storage_is_reverted_with_a_checkpoint() {
    let a = addr(5);
    let mut journal = journal_with(SpecId::CANCUN, vec![]);
    journal.tstore(a, u(1), u(9));
    let checkpoint = journal.checkpoint();
    journal.tstore(a, u(1), u(10));
    journal.tstore(a, u(2), u(11));
    journal.tstore(a, u(1), u(0));
    journal.checkpoint_revert(checkpoint);
    assert_eq!(journal.tload(a, u(1)), u(9));
    assert_eq!(journal.tload(a, u(2)), u(0));
    assert_eq!(journal.journal.len(), 1);
}

// ----- code and balances -----

#[test]
fn set_code_installs_code_under_its_hash() {
    let a = addr(5);
    let mut journal = journal_with(SpecId::CANCUN, vec![(a, info(u(0), 0))]);
    journal.set_code(a, Bytecode::Raw(b"abc".to_vec()));
    let account = journal.account(a);
    assert_eq!(
        account.info.code_hash,
        B256 {
            hi: 0x4e03657aea45a94fc7d47ba826c8d667,
            lo: 0xc0d1e6e33a64a036ec44f58fa12d6c45,
        }
    );
    assert!(matches!(&account.info.code, Some(Bytecode::Raw(bytes)) if bytes == b"abc"));
    assert!(account.is_touched());
    assert_eq!(
        journal.journal,
        vec![
            JournalEntry::AccountTouched { address: a },
            JournalEntry::CodeChanged { address: a },
        ]
    );
}

#[test]
fn set_code_with_a_delegation_to_zero_erases_the_code() {
    let a = addr(5);
    let mut journal = journal_with(SpecId::PRAGUE, vec![(a, info(u(0), 0))]);
    journal.set_code(a, Bytecode::Eip7702 { delegate: addr(9) });
    assert_ne!(journal.account(a).info.code_hash, B256::keccak_empty());
    journal.set_code(a, Bytecode::Eip7702 { delegate: Address::zero() });
    assert_eq!(journal.account(a).info.code_hash, B256::keccak_empty());
    assert!(matches!(journal.account(a).info.code, Some(Bytecode::Empty)));
}

#[test]
fn set_code_is_undone_by_a_revert() {
    let a = addr(5);
    let mut journal = journal_with(SpecId::CANCUN, vec![(a, info(u(0), 0))]);
    let checkpoint = journal.checkpoint();
    journal.set_code_with_hash(a, Bytecode::Raw(vec![1, 2]), B256 { hi: 3, lo: 4 });
    assert_eq!(journal.account(a).info.code_hash, B256 { hi: 3, lo: 4 });
    journal.checkpoint_revert(checkpoint);
    assert_eq!(journal.account(a).info.code_hash, B256::keccak_empty());
    assert!(journal.account(a).info.code.is_none());
    assert!(!journal.account(a).is_touched());
}

#[test]
fn balance_incr_saturates_and_journals_the_old_balance() {
    let a = addr(5);
    let mut journal = journal_with(SpecId::CANCUN, vec![(a, info(u(10), 0))]);
    let mut db = MockDb::new();
    journal.balance_incr(&mut db, a, u(5)).unwrap();
    assert_eq!(balance(&journal, a), u(15));
    assert_eq!(
        journal.journal,
        vec![
            JournalEntry::AccountTouched { address: a },
            JournalEntry::BalanceChanged { address: a, old_balance: u(10) },
        ]
    );
    journal.balance_incr(&mut db, a, U256::max_value()).unwrap();
    assert_eq!(balance(&journal, a), U256::max_value());
    journal.discard_tx();
    assert_eq!(balance(&journal, a), u(10));
    assert!(!journal.account(a).is_touched());
}

#[test]
fn caller_accounting_entries_undo_what_the_caller_paid() {
    let a = addr(5);
    let mut journal = journal_with(SpecId::CANCUN, vec![(a, info(u(10), 3))]);
    {
        let account = journal.state().get_mut(&a).unwrap();
        account.info.balance = u(4);
        account.info.nonce = 4;
        account.mark_touch();
    }
    journal.caller_accounting_journal_entry(a, u(10), true);
    assert_eq!(
        journal.journal,
        vec![
            JournalEntry::BalanceChanged { address: a, old_balance: u(10) },
            JournalEntry::AccountTouched { address: a },
            JournalEntry::NonceChanged { address: a },
        ]
    );
    journal.discard_tx();
    assert_eq!(balance(&journal, a), u(10));
    assert_eq!(journal.account(a).info.nonce, 3);
    assert!(!journal.account(a).is_touched());

    journal.nonce_bump_journal_entry(a);
    journal.caller_accounting_journal_entry(a, u(1), false);
    assert_eq!(journal.journal.len(), 3);
}

#[test]
fn create_out_of_funds_and_overflow_leave_no_trace() {
    let caller = addr(1);
    let target = addr(2);
    let mut journal =
        journal_with(SpecId::CANCUN, vec![(caller, info(u(5), 0)), (target, info(u(0), 0))]);
    assert_eq!(
        journal.create_account_checkpoint(caller, target, u(6), SpecId::CANCUN),
        Err(TransferError::OutOfFunds)
    );
    assert_eq!(journal.depth, 0);
    assert!(journal.journal.is_empty());

    let mut journal = journal_with(
        SpecId::CANCUN,
        vec![(caller, info(u(5), 0)), (target, info(U256::max_value(), 0))],
    );
    assert_eq!(
        journal.create_account_checkpoint(caller, target, u(1), SpecId::CANCUN),
        Err(TransferError::OverflowPayment)
    );
    assert_eq!(journal.depth, 0);
    assert!(journal.journal.is_empty());
    let account = journal.account(target);
    assert!(!account.is_created_locally() && !account.is_created() && !account.is_touched());
    assert_eq!(account.info.nonce, 0);
    assert_eq!(account.info.balance, U256::max_value());
    assert_eq!(balance(&journal, caller), u(5));
}

#[test]
fn create_collides_with_code() {
    let caller = addr(1);
    let target = addr(2);
    let with_code =
        AccountInfo { balance: u(0), nonce: 0, code_hash: B256 { hi: 1, lo: 1 }, code: None };
    let mut journal =
        journal_with(SpecId::CANCUN, vec![(caller, info(u(5), 0)), (target, with_code)]);
    assert_eq!(
        journal.create_account_checkpoint(caller, target, u(1), SpecId::CANCUN),
        Err(TransferError::CreateCollision)
    );
}

#[test]
fn selfdestruct_of_an_account_created_in_this_transaction_destroys_under_cancun() {
    let caller = addr(1);
    let a = addr(2);
    let t = addr(3);
    let mut journal = journal_with(
        SpecId::CANCUN,
        vec![(caller, info(u(50), 0)), (a, info(u(0), 0)), (t, info(u(0), 0))],
    );
    let mut db = MockDb::new();
    journal.create_account_checkpoint(caller, a, u(20), SpecId::CANCUN).unwrap();
    let result = journal.selfdestruct(&mut db, a, t).unwrap();
    assert!(result.data.had_value);
    assert!(!result.data.target_exists);
    assert!(journal.account(a).is_selfdestructed_locally());
    assert_eq!(balance(&journal, t), u(20));
    assert_eq!(balance(&journal, a), u(0));
}

#[test]
fn selfdestruct_to_oneself() {
    let a = addr(2);
    // From Cancun on an account that was not created in this transaction
    // keeps its balance.
    let mut journal = journal_with(SpecId::CANCUN, vec![(a, info(u(7), 1))]);
    let mut db = MockDb::new();
    let result = journal.selfdestruct(&mut db, a, a).unwrap();
    assert!(result.data.had_value);
    assert_eq!(balance(&journal, a), u(7));
    assert!(journal.journal.is_empty());
    // Before Cancun the balance is lost.
    let mut journal = journal_with(SpecId::LONDON, vec![(a, info(u(7), 1))]);
    journal.selfdestruct(&mut db, a, a).unwrap();
    assert_eq!(balance(&journal, a), u(0));
    journal.discard_tx();
    assert_eq!(balance(&journal, a), u(7));
    assert!(!journal.account(a).is_selfdestructed());
}

// ----- checkpoints and boundaries -----

#[test]
fn checkpoints_count_depth_and_keep_entries_on_commit() {
    let a = addr(5);
    let mut journal = journal_with(SpecId::CANCUN, vec![(a, info(u(0), 0))]);
    let outer = journal.checkpoint();
    journal.touch(a);
    let inner = journal.checkpoint();
    assert_eq!(inner, JournalCheckpoint { log_i: 0, journal_i: 1 });
    assert_eq!(journal.depth, 2);
    journal.tstore(a, u(1), u(2));
    journal.checkpoint_commit();
    assert_eq!(journal.depth, 1);
    assert_eq!(journal.journal.len(), 2);
    journal.checkpoint_revert(outer);
    assert_eq!(journal.depth, 0);
    assert!(journal.journal.is_empty());
    assert!(!journal.account(a).is_touched());
    assert_eq!(journal.tload(a, u(1)), u(0));
}

#[test]
fn revert_drops_the_logs_since_the_checkpoint() {
    let mut journal = journal_with(SpecId::CANCUN, vec![]);
    journal.log(revm_primitives::Log::default());
    let checkpoint = journal.checkpoint();
    journal.log(revm_primitives::Log::default());
    journal.log(revm_primitives::Log::default());
    assert_eq!(journal.logs.len(), 3);
    journal.checkpoint_revert(checkpoint);
    assert_eq!(journal.logs.len(), 1);
    assert_eq!(journal.take_logs().len(), 1);
    assert!(journal.logs.is_empty());
}

#[test]
fn touch_marks_once() {
    let a = addr(5);
    let mut journal = journal_with(SpecId::CANCUN, vec![(a, info(u(0), 0))]);
    journal.touch(a);
    journal.touch(a);
    journal.touch(addr(6));
    assert_eq!(journal.journal, vec![JournalEntry::AccountTouched { address: a }]);
}

#[test]
fn revert_restores_what_the_checkpoint_saw() {
    let a = addr(1);
    let b = addr(2);
    let c = addr(3);
    let mut journal = journal_with(
        SpecId::LONDON,
        vec![(a, info(u(100), 1)), (b, info(u(5), 0)), (c, info(u(0), 0))],
    );
    let mut db = MockDb::new();
    db.slots.push((a, u(1), u(11)));
    journal.sload(&mut db, a, u(2)).unwrap();
    journal.tstore(a, u(1), u(3));
    journal.log(revm_primitives::Log::default());
    let entries_before = journal.journal.clone();

    let checkpoint = journal.checkpoint();
    journal.transfer(&mut db, a, b, u(30)).unwrap();
    journal.sstore(&mut db, a, u(1), u(12)).unwrap();
    journal.sstore(&mut db, a, u(2), u(13)).unwrap();
    journal.tstore(a, u(1), u(0));
    journal.tstore(b, u(1), u(4));
    journal.balance_incr(&mut db, b, u(7)).unwrap();
    journal.set_code(b, Bytecode::Raw(vec![1]));
    journal.create_account_checkpoint(a, c, u(10), SpecId::LONDON).unwrap();
    journal.checkpoint_commit();
    journal.selfdestruct(&mut db, a, b).unwrap();
    journal.log(revm_primitives::Log::default());
    journal.checkpoint_revert(checkpoint);

    assert_eq!(journal.depth, 0);
    assert_eq!(journal.journal, entries_before);
    assert_eq!(journal.logs.len(), 1);
    assert_eq!(journal.tload(a, u(1)), u(3));
    assert_eq!(journal.tload(b, u(1)), u(0));
    let account = journal.account(a);
    assert_eq!(account.info.balance, u(100));
    assert_eq!(account.info.nonce, 1);
    assert!(!account.is_touched() && !account.is_selfdestructed());
    assert!(account.storage.get(&u(1)).is_none());
    assert_eq!(account.storage.get(&u(2)).unwrap().present_value, u(0));
    let account = journal.account(b);
    assert_eq!(account.info.balance, u(5));
    assert!(account.info.code.is_none());
    assert_eq!(account.info.code_hash, B256::keccak_empty());
    assert!(!account.is_touched());
    let account = journal.account(c);
    assert_eq!(account.info.balance, u(0));
    assert_eq!(account.info.nonce, 0);
    assert!(!account.is_created() && !account.is_created_locally() && !account.is_touched());
}

#[test]
fn commit_then_discard_only_counts_transactions() {
    let a = addr(5);
    let mut journal = journal_with(SpecId::CANCUN, vec![(a, info(u(3), 1))]);
    let mut precompiles = VecSet::new();
    precompiles.insert(addr(1));
    journal.warm_precompiles(precompiles);
    journal.commit_tx();
    assert_eq!(journal.transaction_id, 1);
    journal.discard_tx();
    assert_eq!(journal.transaction_id, 2);
    assert_eq!(balance(&journal, a), u(3));
    assert_eq!(journal.depth, 0);
    assert!(journal.journal.is_empty() && journal.logs.is_empty());
    assert!(journal.warm_coinbase_address.is_none());
    assert_eq!(journal.warm_preloaded_addresses.len(), 1);
    assert!(journal.warm_preloaded_addresses.contains(&addr(1)));
    assert_eq!(journal.spec, SpecId::CANCUN);
}

#[test]
fn a_transaction_boundary_resets_what_is_pending() {
    let a = addr(5);
    for boundary in 0..3 {
        let mut journal = journal_with(SpecId::CANCUN, vec![(a, info(u(3), 1))]);
        let mut precompiles = VecSet::new();
        precompiles.insert(addr(1));
        precompiles.insert(addr(2));
        journal.warm_precompiles(precompiles);
        journal.warm_account(addr(7));
        journal.warm_coinbase_account(addr(8));
        journal.checkpoint();
        journal.tstore(a, u(1), u(9));
        journal.touch(a);
        journal.log(revm_primitives::Log::default());
        match boundary {
            0 => {
                journal.commit_tx();
                assert_eq!(journal.transaction_id, 1);
                assert!(journal.account(a).is_touched());
            }
            1 => {
                journal.discard_tx();
                assert_eq!(journal.transaction_id, 1);
                assert!(!journal.account(a).is_touched());
            }
            _ => {
                let state = journal.finalize();
                assert_eq!(journal.transaction_id, 0);
                assert!(state.get(&a).unwrap().is_touched());
                assert!(journal.state.get(&a).is_none());
            }
        }
        assert_eq!(journal.tload(a, u(1)), u(0));
        assert!(journal.transient_storage.get(&SlotId { address: a, key: u(1) }).is_none());
        assert!(journal.journal.is_empty() && journal.logs.is_empty());
        assert_eq!(journal.depth, 0);
        assert!(journal.warm_coinbase_address.is_none());
        assert_eq!(journal.warm_preloaded_addresses.len(), 2);
        assert!(journal.warm_preloaded_addresses.contains(&addr(1)));
        assert!(journal.warm_preloaded_addresses.contains(&addr(2)));
        assert!(!journal.warm_preloaded_addresses.contains(&addr(7)));
        assert_eq!(journal.precompiles.len(), 2);
    }
}

#[test]
fn warm_stays_warm_through_other_operations() {
    let a = addr(1);
    let b = addr(2);
    let mut journal =
        journal_with(SpecId::CANCUN, vec![(a, info(u(100), 1)), (b, info(u(5), 0))]);
    let mut db = MockDb::new();
    db.slots.push((a, u(1), u(11)));
    assert!(journal.sload(&mut db, a, u(1)).unwrap().is_cold);
    journal.transfer(&mut db, a, b, u(1)).unwrap();
    journal.sstore(&mut db, a, u(2), u(5)).unwrap();
    journal.tstore(a, u(1), u(1));
    journal.balance_incr(&mut db, a, u(1)).unwrap();
    journal.selfdestruct(&mut db, a, b).unwrap();
    journal.checkpoint();
    journal.checkpoint_commit();
    assert!(!journal.load_account(&mut db, a).unwrap().is_cold);
    assert!(!journal.load_account(&mut db, b).unwrap().is_cold);
    let load = journal.sload(&mut db, a, u(1)).unwrap();
    assert!(!load.is_cold);
    assert_eq!(journal.account(a).storage.get(&u(1)).unwrap().original_value, u(11));
}

#[test]
fn entry_revert_skips_transient_storage_when_none_is_given() {
    let a = addr(1);
    let mut journal = journal_with(SpecId::CANCUN, vec![(a, info(u(1), 0))]);
    journal.tstore(a, u(1), u(5));
    let entry = JournalEntry::TransientStorageChanged { address: a, key: u(1), old_value: u(0) };
    entry.revert(&mut journal.state, None, true);
    assert_eq!(journal.tload(a, u(1)), u(5));
    entry.revert(&mut journal.state, Some(&mut journal.transient_storage), true);
    assert_eq!(journal.tload(a, u(1)), u(0));
    // An entry about an account that is not held changes nothing.
    JournalEntry::NonceChanged { address: addr(9) }.revert(&mut journal.state, None, false);
    assert!(journal.state.get(&addr(9)).is_none());
}

#[test]
fn entry_revert_of_each_kind() {
    let a = addr(1);
    let b = addr(2);
    let mut journal = journal_with(SpecId::CANCUN, vec![(a, info(u(10), 3)), (b, info(u(4), 0))]);
    JournalEntry::NonceChanged { address: a }.revert(&mut journal.state, None, true);
    assert_eq!(journal.account(a).info.nonce, 2);
    JournalEntry::BalanceChanged { address: a, old_balance: u(1) }
        .revert(&mut journal.state, None, true);
    assert_eq!(balance(&journal, a), u(1));
    JournalEntry::BalanceTransfer { from: a, to: b, amount: u(3) }
        .revert(&mut journal.state, None, true);
    assert_eq!(balance(&journal, a), u(4));
    assert_eq!(balance(&journal, b), u(1));
    JournalEntry::AccountWarmed { address: a }.revert(&mut journal.state, None, true);
    let mut db = MockDb::new();
    assert!(journal.load_account(&mut db, a).unwrap().is_cold);
    journal.state().get_mut(&a).unwrap().mark_selfdestructed_locally();
    JournalEntry::AccountDestroyed {
        address: a,
        target: b,
        status: SelfdestructionRevertStatus::LocallySelfdestroyed,
        had_balance: u(1),
    }
    .revert(&mut journal.state, None, true);
    assert!(journal.account(a).is_selfdestructed());
    assert!(!journal.account(a).is_selfdestructed_locally());
    assert_eq!(balance(&journal, a), u(5));
    assert_eq!(balance(&journal, b), u(0));
    journal.state().get_mut(&a).unwrap().mark_created_locally();
    JournalEntry::AccountCreated { address: a, was_globally_created: true }
        .revert(&mut journal.state, None, true);
    assert!(journal.account(a).is_created());
    assert!(!journal.account(a).is_created_locally());
    assert_eq!(journal.account(a).info.nonce, 0);
}

#[test]
fn entry_revert_of_storage_and_code_entries() {
    let a = addr(1);
    let mut journal = journal_with(SpecId::CANCUN, vec![(a, info(u(10), 3))]);
    let mut db = MockDb::new();
    journal.sstore(&mut db, a, u(1), u(5)).unwrap();
    journal.set_code_with_hash(a, Bytecode::Raw(vec![1]), B256 { hi: 1, lo: 1 });
    JournalEntry::StorageChanged { address: a, key: u(1), old_value: u(4) }
        .revert(&mut journal.state, None, true);
    assert_eq!(journal.account(a).storage.get(&u(1)).unwrap().present_value, u(4));
    JournalEntry::StorageChanged { address: a, key: u(2), old_value: u(4) }
        .revert(&mut journal.state, None, true);
    assert!(journal.account(a).storage.get(&u(2)).is_none());
    JournalEntry::StorageWarmed { address: a, key: u(1) }.revert(&mut journal.state, None, true);
    assert!(journal.account(a).storage.get(&u(1)).is_none());
    JournalEntry::CodeChanged { address: a }.revert(&mut journal.state, None, true);
    assert_eq!(journal.account(a).info.code_hash, B256::keccak_empty());
    assert!(journal.account(a).info.code.is_none());
    assert!(journal.account(a).is_touched());
    JournalEntry::AccountTouched { address: a }.revert(&mut journal.state, None, true);
    assert!(!journal.account(a).is_touched());
    JournalEntry::AccountDestroyed {
        address: a,
        target: a,
        status: SelfdestructionRevertStatus::RepeatedSelfdestruction,
        had_balance: u(2),
    }
    .revert(&mut journal.state, None, false);
    assert_eq!(balance(&journal, a), u(12));
    JournalEntry::NonceChanged { address: a }.revert(&mut journal.state, None, false);
    JournalEntry::NonceChanged { address: a }.revert(&mut journal.state, None, false);
    JournalEntry::NonceChanged { address: a }.revert(&mut journal.state, None, false);
    JournalEntry::NonceChanged { address: a }.revert(&mut journal.state, None, false);
    assert_eq!(journal.account(a).info.nonce, u64::MAX);
}

#[test]
fn account_marks() {
    let mut account = Account::new_not_existing(2);
    assert!(account.is_loaded_as_not_existing() && account.is_empty());
    assert!(account.state_clear_aware_is_empty(SpecId::HOMESTEAD));
    assert!(account.state_clear_aware_is_empty(SpecId::CANCUN));
    account.mark_touch();
    assert!(!account.state_clear_aware_is_empty(SpecId::HOMESTEAD));
    assert!(account.state_clear_aware_is_empty(SpecId::CANCUN));
    account.unmark_touch();
    assert!(!account.is_touched());
    assert!(!account.mark_warm_with_transaction_id(2));
    assert!(account.mark_warm_with_transaction_id(3));
    account.mark_cold();
    assert!(account.mark_warm_with_transaction_id(3));
    assert!(!account.mark_warm_with_transaction_id(3));
    assert!(!account.mark_created_locally());
    assert!(account.mark_created_locally());
    assert!(!account.mark_selfdestructed_locally());
    assert!(account.mark_selfdestructed_locally());
    account.info.balance = u(1);
    assert!(!account.is_empty());
    account.selfdestruct();
    assert!(account.is_empty());
    let default = AccountInfo::default();
    assert!(default.is_empty());
    assert!(matches!(default.code, Some(Bytecode::Empty)));
    let zero_hash = AccountInfo { code_hash: B256::zero(), ..default };
    assert!(zero_hash.is_empty());
}

#[test]
fn finalized_state_can_be_taken_apart() {
    let a = addr(1);
    let mut journal = journal_with(SpecId::CANCUN, vec![(a, info(u(10), 3))]);
    let mut db = MockDb::new();
    journal.sstore(&mut db, a, u(1), u(5)).unwrap();
    let (addresses, accounts) = journal.finalize().into_parts();
    assert_eq!(addresses, vec![a]);
    let account = accounts.into_iter().next().unwrap();
    let (keys, slots) = account.storage.into_parts();
    assert_eq!(keys, vec![u(1)]);
    assert_eq!(slots[0].present_value, u(5));
    assert_eq!(slots[0].original_value, u(0));
    let mut set = VecSet::new();
    set.insert(addr(3));
    set.insert(addr(4));
    assert_eq!(set.to_vec(), vec![addr(3), addr(4)]);
}

#[test]
fn load_with_a_given_answer() {
    let a = addr(5);
    let mut journal = journal_with(SpecId::CANCUN, vec![]);
    assert!(journal.load_account_with(a, Some(info(u(9), 2))));
    assert_eq!(balance(&journal, a), u(9));
    // The answer is not looked at for an account in memory.
    assert!(!journal.load_account_with(a, Some(info(u(1), 1))));
    assert_eq!(balance(&journal, a), u(9));
    assert!(journal.load_account_with(addr(6), None));
    assert!(journal.account(addr(6)).is_loaded_as_not_existing());
    assert_eq!(
        journal.journal,
        vec![
            JournalEntry::AccountWarmed { address: a },
            JournalEntry::AccountWarmed { address: addr(6) },
        ]
    );
}

#[test]
fn load_code_with_a_given_answer() {
    let a = addr(5);
    let b = addr(6);
    let hashed = AccountInfo { balance: u(0), nonce: 0, code_hash: B256 { hi: 1, lo: 1 }, code: None };
    let mut journal =
        journal_with(SpecId::CANCUN, vec![(a, info(u(0), 0)), (b, hashed)]);
    journal.load_code_with(a, Bytecode::Raw(vec![1]));
    assert!(matches!(journal.account(a).info.code, Some(Bytecode::Empty)));
    journal.load_code_with(b, Bytecode::Raw(vec![1]));
    assert!(matches!(&journal.account(b).info.code, Some(Bytecode::Raw(bytes)) if bytes == &vec![1]));
    journal.load_code_with(b, Bytecode::Raw(vec![2]));
    assert!(matches!(&journal.account(b).info.code, Some(Bytecode::Raw(bytes)) if bytes == &vec![1]));
    assert!(journal.journal.is_empty());
}

#[test]
fn a_failed_fetch_of_code_leaves_the_account_loaded() {
    let a = addr(5);
    let mut journal = journal_with(SpecId::CANCUN, vec![]);
    let mut db = MockDb::new();
    db.accounts.push((
        a,
        AccountInfo { balance: u(3), nonce: 0, code_hash: B256 { hi: 1, lo: 1 }, code: None },
    ));
    assert!(journal.load_account(&mut db, a).is_ok());
    db.fail = true;
    assert!(journal.load_code(&mut db, a).is_err());
    assert_eq!(balance(&journal, a), u(3));
    assert!(journal.account(a).info.code.is_none());
    assert_eq!(journal.journal, vec![JournalEntry::AccountWarmed { address: a }]);
}

#[test]
fn a_failed_fetch_of_a_slot_keeps_the_slots_loaded_before() {
    struct FailsOnSecond(usize);
    impl Database for FailsOnSecond {
        type Error = String;
        fn basic(&mut self, _address: Address) -> Result<Option<AccountInfo>, String> {
            Ok(None)
        }
        fn code_by_hash(&mut self, _code_hash: B256) -> Result<Bytecode, String> {
            Ok(Bytecode::Empty)
        }
        fn storage(&mut self, _address: Address, index: U256) -> Result<U256, String> {
            self.0 += 1;
            if self.0 == 2 {
                Err("second".to_string())
            } else {
                Ok(index)
            }
        }
    }
    let a = addr(5);
    let mut journal = journal_with(SpecId::CANCUN, vec![]);
    let mut db = FailsOnSecond(0);
    assert_eq!(
        journal.load_account_optional(&mut db, a, false, &[u(1), u(2), u(3)]).err(),
        Some("second".to_string())
    );
    assert_eq!(journal.account(a).storage.get(&u(1)).unwrap().present_value, u(1));
    assert!(journal.account(a).storage.get(&u(2)).is_none());
    assert!(journal.account(a).storage.get(&u(3)).is_none());
    assert_eq!(
        journal.journal,
        vec![
            JournalEntry::AccountWarmed { address: a },
            JournalEntry::StorageWarmed { address: a, key: u(1) },
        ]
    );
}

#[test]
fn an_outer_revert_restores_across_inner_reverts() {
    let a = addr(1);
    let b = addr(2);
    let mut journal =
        journal_with(SpecId::CANCUN, vec![(a, info(u(100), 1)), (b, info(u(5), 0))]);
    let mut db = MockDb::new();
    journal.log(revm_primitives::Log::default());

    let outer = journal.checkpoint();
    journal.transfer(&mut db, a, b, u(10)).unwrap();
    let inner = journal.checkpoint();
    journal.sstore(&mut db, a, u(1), u(9)).unwrap();
    journal.tstore(a, u(1), u(3));
    journal.log(revm_primitives::Log::default());
    journal.checkpoint_revert(inner);
    assert_eq!(balance(&journal, a), u(90));
    assert!(journal.account(a).storage.get(&u(1)).is_none());
    assert_eq!(journal.logs.len(), 1);
    journal.sstore(&mut db, b, u(2), u(8)).unwrap();
    let second = journal.checkpoint();
    journal.balance_incr(&mut db, a, u(1)).unwrap();
    journal.checkpoint_commit();
    assert_eq!(second.journal_i, 5);
    journal.checkpoint_revert(outer);

    assert_eq!(journal.depth, 0);
    assert!(journal.journal.is_empty());
    assert_eq!(journal.logs.len(), 1);
    assert_eq!(balance(&journal, a), u(100));
    assert_eq!(balance(&journal, b), u(5));
    assert!(!journal.account(a).is_touched() && !journal.account(b).is_touched());
    assert!(journal.account(b).storage.get(&u(2)).is_none());
    assert_eq!(journal.tload(a, u(1)), u(0));
}

#[test]
fn a_load_after_a_reverted_load_is_cold_and_is_taken_back_again() {
    let a = addr(1);
    let mut journal = journal_with(SpecId::CANCUN, vec![]);
    let mut db = MockDb::new();
    db.accounts.push((a, info(u(7), 0)));
    let first = journal.checkpoint();
    assert!(journal.load_account(&mut db, a).unwrap().is_cold);
    journal.checkpoint_revert(first);
    // The account stays in memory, marked cold.
    assert!(journal.state.get(&a).unwrap().status.cold);
    let before = journal.state.get(&a).unwrap().clone();

    let second = journal.checkpoint();
    assert!(journal.load_account(&mut db, a).unwrap().is_cold);
    assert!(!journal.load_account(&mut db, a).unwrap().is_cold);
    journal.checkpoint_revert(second);
    let after = journal.state.get(&a).unwrap();
    assert_eq!(after.status, before.status);
    assert_eq!(after.last_touched_tx, before.last_touched_tx);
    assert_eq!(after.info.balance, before.info.balance);
    assert!(journal.journal.is_empty());
    assert_eq!(db.basic_calls, 1);
}

#[test]
fn a_load_with_slots_in_memory_does_not_ask_the_database() {
    let a = addr(5);
    let mut journal = journal_with(SpecId::CANCUN, vec![(a, info(u(1), 0))]);
    let mut db = MockDb::new();
    db.slots.push((a, u(1), u(11)));
    journal.sload(&mut db, a, u(1)).unwrap();
    db.fail = true;
    let load = journal.load_account_optional(&mut db, a, true, &[u(1), u(1)]).unwrap();
    assert!(!load.is_cold);
    assert_eq!(load.data.storage.get(&u(1)).unwrap().present_value, u(11));
    assert!(matches!(load.data.info.code, Some(Bytecode::Empty)));
    assert!(journal.load_account_optional(&mut db, a, false, &[u(2)]).is_err());
}

#[test]
fn a_fetched_word_becomes_the_slot() {
    let a = addr(0xaa);
    let mut account = Account::from_info(info(u(0), 0), 3);
    let mut entries = Vec::new();
    let load = sload_fetched(&mut account, &mut entries, 3, a, u(1), u(0x42));
    assert!(load.is_cold);
    assert_eq!(load.data, u(0x42));
    assert_eq!(entries, vec![JournalEntry::StorageWarmed { address: a, key: u(1) }]);
    let slot = *account.storage.get(&u(1)).unwrap();
    assert_eq!(slot.original_value, u(0x42));
    assert_eq!(slot.present_value, u(0x42));
    assert_eq!(slot.last_touched_tx, 3);
    // A slot in memory keeps its value, whatever is handed in.
    let load = sload_fetched(&mut account, &mut entries, 3, a, u(1), u(0x99));
    assert!(!load.is_cold);
    assert_eq!(load.data, u(0x42));
    assert_eq!(entries.len(), 1);
    // A missing slot of an account created in this transaction is zero.
    account.mark_created_locally();
    let load = sload_fetched(&mut account, &mut entries, 3, a, u(2), u(0x99));
    assert!(load.is_cold);
    assert_eq!(load.data, u(0));
}

#[test]
fn sload_with_account_asks_the_database_for_a_missing_slot_only() {
    let a = addr(0xaa);
    let mut account = Account::from_info(info(u(0), 0), 0);
    let mut entries = Vec::new();
    let mut db = MockDb::new();
    db.slots.push((a, u(1), u(0x42)));
    let load = sload_with_account(&mut account, &mut db, &mut entries, 0, a, u(1)).unwrap();
    assert_eq!(load.data, u(0x42));
    assert_eq!(db.storage_calls, 1);
    sload_with_account(&mut account, &mut db, &mut entries, 0, a, u(1)).unwrap();
    assert_eq!(db.storage_calls, 1);
    account.mark_created_locally();
    let load = sload_with_account(&mut account, &mut db, &mut entries, 0, a, u(7)).unwrap();
    assert_eq!(load.data, u(0));
    assert_eq!(db.storage_calls, 1);
}

#[test]
fn a_transfer_of_zero_never_looks_at_the_sender() {
    let to = addr(2);
    let mut journal = journal_with(SpecId::CANCUN, vec![(to, info(u(1), 0))]);
    let mut db = MockDb::new();
    db.fail = true;
    assert_eq!(journal.transfer(&mut db, addr(1), to, U256::zero()), Ok(None));
    assert_eq!(db.basic_calls, 0);
    assert!(journal.state.get(&addr(1)).is_none());
    assert!(journal.account(to).is_touched());
    assert_eq!(balance(&journal, to), u(1));
    assert_eq!(journal.journal, vec![JournalEntry::AccountTouched { address: to }]);
}

#[test]
fn a_failed_first_query_leaves_the_journal_as_it_was() {
    let a = addr(5);
    let mut journal = journal_with(SpecId::CANCUN, vec![(addr(6), info(u(1), 0))]);
    journal.transaction_id = 4;
    journal.checkpoint();
    journal.log(revm_primitives::Log::default());
    let mut db = MockDb::new();
    db.fail = true;
    assert_eq!(
        journal.load_account_optional(&mut db, a, false, &[]).err(),
        Some("basic failed".to_string())
    );
    assert_eq!(
        journal.load_account_optional(&mut db, a, true, &[u(1)]).err(),
        Some("basic failed".to_string())
    );
    assert!(journal.state.get(&a).is_none());
    assert!(journal.journal.is_empty());
    assert_eq!(journal.logs.len(), 1);
    assert_eq!(journal.depth, 1);
    assert_eq!(journal.transaction_id, 4);
}

#[test]
fn a_boundary_resets_the_warm_addresses_whatever_they_were() {
    let mut journal = journal_with(SpecId::CANCUN, vec![]);
    journal.precompiles.insert(addr(2));
    journal.warm_preloaded_addresses.insert(addr(1));
    journal.commit_tx();
    assert_eq!(journal.warm_preloaded_addresses.to_vec(), vec![addr(2)]);
    journal.warm_preloaded_addresses.clear();
    journal.warm_preloaded_addresses.insert(addr(3));
    journal.discard_tx();
    assert_eq!(journal.warm_preloaded_addresses.to_vec(), vec![addr(2)]);
    journal.warm_preloaded_addresses.clear();
    journal.warm_preloaded_addresses.insert(addr(3));
    journal.finalize();
    assert_eq!(journal.warm_preloaded_addresses.to_vec(), vec![addr(2)]);
}

#[test]
fn what_was_warm_before_a_checkpoint_is_warm_after_its_revert() {
    let a = addr(1);
    let b = addr(2);
    let c = addr(3);
    let mut journal = journal_with(SpecId::CANCUN, vec![]);
    let mut db = MockDb::new();
    db.accounts.push((a, info(u(100), 1)));
    db.accounts.push((b, info(u(5), 0)));
    db.slots.push((a, u(1), u(11)));
    assert!(journal.load_account(&mut db, a).unwrap().is_cold);
    assert!(journal.sload(&mut db, a, u(1)).unwrap().is_cold);

    let later = journal.checkpoint();
    assert!(journal.load_account(&mut db, b).unwrap().is_cold);
    assert!(journal.sload(&mut db, a, u(2)).unwrap().is_cold);
    journal.sstore(&mut db, a, u(1), u(12)).unwrap();
    journal.transfer(&mut db, a, c, u(1)).unwrap();
    journal.checkpoint_revert(later);

    // Loaded before the checkpoint: warm, with the original value kept.
    assert!(!journal.load_account(&mut db, a).unwrap().is_cold);
    let load = journal.sload(&mut db, a, u(1)).unwrap();
    assert!(!load.is_cold);
    assert_eq!(load.data, u(11));
    assert_eq!(journal.account(a).storage.get(&u(1)).unwrap().original_value, u(11));
    // Loaded since the checkpoint: cold again.
    assert!(journal.load_account(&mut db, b).unwrap().is_cold);
    assert!(journal.sload(&mut db, a, u(2)).unwrap().is_cold);
}

#[test]
fn a_warm_load_changes_nothing() {
    let a = addr(1);
    let mut journal = journal_with(SpecId::CANCUN, vec![(a, info(u(100), 1))]);
    let mut db = MockDb::new();
    db.fail = true;
    let entries = journal.journal.len();
    let before = journal.state.get(&a).unwrap().clone();
    let load = journal.load_account(&mut db, a).unwrap();
    assert!(!load.is_cold);
    assert_eq!(load.data.info.balance, u(100));
    assert_eq!(journal.journal.len(), entries);
    let load = journal.load_account_optional(&mut db, a, false, &[]).unwrap();
    assert!(!load.is_cold);
    assert_eq!(journal.journal.len(), entries);
    let after = journal.state.get(&a).unwrap();
    assert_eq!(after.status, before.status);
    assert_eq!(after.last_touched_tx, before.last_touched_tx);
    assert_eq!(db.basic_calls, 0);
}

#[test]
fn a_warm_slot_is_loaded_with_its_present_value_and_no_entry() {
    let a = addr(1);
    let mut journal = journal_with(SpecId::CANCUN, vec![(a, info(u(100), 1))]);
    let mut db = MockDb::new();
    db.slots.push((a, u(1), u(11)));
    journal.sstore(&mut db, a, u(1), u(12)).unwrap();
    let entries = journal.journal.len();
    db.fail = true;
    let load = journal.sload(&mut db, a, u(1)).unwrap();
    assert!(!load.is_cold);
    assert_eq!(load.data, u(12));
    assert_eq!(journal.journal.len(), entries);
    let slot = *journal.account(a).storage.get(&u(1)).unwrap();
    assert_eq!(slot.original_value, u(11));
    assert_eq!(slot.present_value, u(12));
}

#[test]
fn a_store_to_a_touched_slot_keeps_the_original_value() {
    let a = addr(1);
    let mut journal = journal_with(SpecId::CANCUN, vec![(a, info(u(100), 1))]);
    let mut db = MockDb::new();
    db.slots.push((a, u(1), u(11)));
    let first = journal.sstore(&mut db, a, u(1), u(12)).unwrap();
    assert!(first.is_cold);
    assert_eq!(
        first.data,
        SStoreResult { original_value: u(11), present_value: u(11), new_value: u(12) }
    );
    db.fail = true;
    let second = journal.sstore(&mut db, a, u(1), u(13)).unwrap();
    assert!(!second.is_cold);
    assert_eq!(
        second.data,
        SStoreResult { original_value: u(11), present_value: u(12), new_value: u(13) }
    );
    let slot = *journal.account(a).storage.get(&u(1)).unwrap();
    assert_eq!(slot.original_value, u(11));
    assert_eq!(slot.present_value, u(13));
    assert_eq!(slot.last_touched_tx, 0);
}
