//! What happens before the first frame runs: the caller pays up front and
//! the accounts that the transaction names are warmed.
use crate::context::{AccessListItem, CfgEnv, Context, TxEnv};
use crate::database::Database;
use crate::entry::JournalEntry;
use crate::journal_laws::{
    account_is_warm, added_entries, extends_reversibly, keeps_warm, lemma_keeps_warm_transitive,
    lemma_load_account_optional_warms, same_but_state, slot_is_warm,
};
use crate::journal_model::{lemma_undo_all_push, JournalModel};
use crate::primitives::{lemma_value_bounds, word_max, wrapping_diff, Address, SpecId, U256};
use crate::result::InvalidTransaction;
use crate::state::{AccountInfoModel, AccountModel, BytecodeModel};
use vstd::prelude::*;

verus! {

/// What the caller pays up front: the highest price for all the gas of
/// the transaction, and the value.
pub open spec fn caller_payment(gas_limit: u64, gas_price: u128, value: U256) -> int {
    gas_limit as int * gas_price as int + value.value()
}

/// Why the caller, whose account is `account`, cannot send the
/// transaction, if it cannot. The payment must fit 256 bits and the balance
/// must cover it; then, unless the check is switched off, the nonce of the
/// transaction must be that of the account; and the nonce must be able to
/// go up.
pub open spec fn deduct_error(
    account: AccountModel,
    gas_limit: u64,
    gas_price: u128,
    value: U256,
    nonce: u64,
    disable_nonce_check: bool,
) -> Option<InvalidTransaction> {
    let payment = caller_payment(gas_limit, gas_price, value);
    if payment > word_max() {
        Some(InvalidTransaction::OverflowPaymentInTransaction)
    } else if account.info.balance.value() < payment {
        Some(
            InvalidTransaction::LackOfFundForMaxFee {
                fee: U256::from_int(payment),
                balance: account.info.balance,
            },
        )
    } else if !disable_nonce_check && nonce > account.info.nonce {
        Some(InvalidTransaction::NonceTooHigh { tx: nonce, state: account.info.nonce })
    } else if !disable_nonce_check && nonce < account.info.nonce {
        Some(InvalidTransaction::NonceTooLow { tx: nonce, state: account.info.nonce })
    } else if account.info.nonce == u64::MAX {
        Some(InvalidTransaction::NonceOverflowInTransaction)
    } else {
        None
    }
}

/// Why the caller of `tx`, whose account is in memory in `j`, cannot send
/// the transaction, if it cannot: what [`deduct_error`] says of its account
/// once it is loaded.
pub open spec fn caller_error(j: JournalModel, tx: TxEnv, cfg: CfgEnv) -> Option<InvalidTransaction> {
    deduct_error(
        j.load_account(tx.caller, None).state[tx.caller],
        tx.gas_limit,
        tx.gas_price,
        tx.value,
        tx.nonce,
        cfg.disable_nonce_check,
    )
}

/// The journal after `caller`, an account in memory, has paid `payment`
/// and its nonce has gone up: the account is touched, and the old balance,
/// the touch and the change of the nonce are journaled.
pub open spec fn deducted(j: JournalModel, caller: Address, payment: U256) -> JournalModel {
    let account = j.state[caller];
    j.with_account(
        caller,
        account.with_balance(wrapping_diff(account.info.balance, payment)).with_nonce(
            (account.info.nonce + 1) as u64,
        ).touched(),
    ).caller_accounting_journal_entry(caller, account.info.balance, true)
}

/// What the caller has paid up front is taken back in full when the
/// transaction is discarded, where the caller was not touched before.
pub proof fn lemma_deducted_reversible(j: JournalModel, caller: Address, payment: U256)
    requires
        j.state.contains_key(caller),
        !j.state[caller].status.touched,
        j.state[caller].info.nonce < u64::MAX,
    ensures
        extends_reversibly(j, deducted(j, caller, payment)),
        keeps_warm(j, deducted(j, caller, payment)),
{
    let account = j.state[caller];
    let paid = j.with_account(
        caller,
        account.with_balance(wrapping_diff(account.info.balance, payment)).with_nonce(
            (account.info.nonce + 1) as u64,
        ).touched(),
    );
    let after = deducted(j, caller, payment);
    let entries = Seq::<JournalEntry>::empty().push(
        JournalEntry::BalanceChanged { address: caller, old_balance: account.info.balance },
    ).push(JournalEntry::AccountTouched { address: caller }).push(
        JournalEntry::NonceChanged { address: caller },
    );
    assert(after.journal.subrange(0, j.journal.len() as int) =~= j.journal);
    assert(after.logs.subrange(0, j.logs.len() as int) =~= j.logs);
    assert(added_entries(j, after) =~= entries);
    lemma_undo_all_push(after.state, after.transient_storage, entries.drop_last(), entries[2]);
    let after_nonce = entries[2].undo_state(after.state);
    assert(entries.drop_last() =~= Seq::<JournalEntry>::empty().push(entries[0]).push(entries[1]));
    lemma_undo_all_push(after_nonce, after.transient_storage, Seq::empty().push(entries[0]), entries[1]);
    let after_touch = entries[1].undo_state(after_nonce);
    lemma_undo_all_push(after_touch, after.transient_storage, Seq::empty(), entries[0]);
    assert(entries[0].undo_state(after_touch) =~= j.state);
}

/// Loads the caller of the transaction, holds the transaction against its
/// account and makes it pay up front. Reports why the transaction cannot
/// be sent, as [`deduct_error`] says; then nothing but the load has
/// happened. Else the caller has paid and its nonce has gone up, as
/// [`deducted`] says. Where the database fails nothing changes.
pub fn validate_against_state_and_deduct_caller<DB: Database>(ctx: &mut Context<DB>) -> (r: Result<
    Option<InvalidTransaction>,
    DB::Error,
>)
    ensures
        old(ctx).journal@.state.contains_key(old(ctx).tx.caller) ==> r is Ok,
        final(ctx).tx == old(ctx).tx,
        final(ctx).block == old(ctx).block,
        final(ctx).cfg == old(ctx).cfg,
        match r {
            Ok(outcome) => exists|fetched: Option<AccountInfoModel>|
                {
                    let loaded = #[trigger] old(ctx).journal@.load_account(
                        old(ctx).tx.caller,
                        fetched,
                    );
                    &&& outcome == deduct_error(
                        loaded.state[old(ctx).tx.caller],
                        old(ctx).tx.gas_limit,
                        old(ctx).tx.gas_price,
                        old(ctx).tx.value,
                        old(ctx).tx.nonce,
                        old(ctx).cfg.disable_nonce_check,
                    )
                    &&& final(ctx).journal@ == if outcome is None {
                        deducted(
                            loaded,
                            old(ctx).tx.caller,
                            U256::from_int(
                                caller_payment(
                                    old(ctx).tx.gas_limit,
                                    old(ctx).tx.gas_price,
                                    old(ctx).tx.value,
                                ),
                            ),
                        )
                    } else {
                        loaded
                    }
                },
            Err(_) => final(ctx).journal == old(ctx).journal,
        },
{
    let caller = ctx.tx.caller;
    let max_fee = U256::from_product(ctx.tx.gas_limit, ctx.tx.gas_price);
    let value = ctx.tx.value;
    let nonce = ctx.tx.nonce;
    let disable_nonce_check = ctx.cfg.disable_nonce_check;
    proof {
        assert forall|fetched: Option<AccountInfoModel>|
            {
                let loaded = #[trigger] ctx.journal@.load_account(caller, fetched);
                loaded.with_account(caller, loaded.state[caller]) == loaded
            } by {
            let loaded = ctx.journal@.load_account(caller, fetched);
            assert(loaded.state.insert(caller, loaded.state[caller]) =~= loaded.state);
        }
    }
    let load = match ctx.journal.load_account(&mut ctx.db, caller) {
        Ok(load) => load,
        Err(e) => {
            return Err(e);
        },
    };
    let account = load.data;
    let payment = match max_fee.checked_add(value) {
        Some(payment) => payment,
        None => {
            return Ok(Some(InvalidTransaction::OverflowPaymentInTransaction));
        },
    };
    proof {
        lemma_value_bounds(payment);
    }
    let old_balance = account.info.balance;
    let new_balance = match old_balance.checked_sub(payment) {
        Some(left) => left,
        None => {
            return Ok(
                Some(InvalidTransaction::LackOfFundForMaxFee { fee: payment, balance: old_balance }),
            );
        },
    };
    let state_nonce = account.info.nonce;
    if !disable_nonce_check {
        if nonce > state_nonce {
            return Ok(Some(InvalidTransaction::NonceTooHigh { tx: nonce, state: state_nonce }));
        }
        if nonce < state_nonce {
            return Ok(Some(InvalidTransaction::NonceTooLow { tx: nonce, state: state_nonce }));
        }
    }
    if state_nonce == u64::MAX {
        return Ok(Some(InvalidTransaction::NonceOverflowInTransaction));
    }
    account.info.balance = new_balance;
    account.info.nonce = state_nonce + 1;
    account.mark_touch();
    ctx.journal.caller_accounting_journal_entry(caller, old_balance, true);
    Ok(None)
}

/// The journal with the beneficiary of the block as its coinbase, from
/// Shanghai on.
pub open spec fn beneficiary_warmed(j: JournalModel, spec: SpecId, beneficiary: Address) -> JournalModel {
    if spec.is_enabled_in(SpecId::SHANGHAI) {
        JournalModel { warm_coinbase_address: Some(beneficiary), ..j }
    } else {
        j
    }
}

/// The journal after each account of `list` is loaded with the slots that
/// the list names for it, one after the other, where the database is not
/// asked.
pub open spec fn access_list_loaded(j: JournalModel, list: Seq<AccessListItem>) -> JournalModel
    decreases list.len(),
{
    if list.len() == 0 {
        j
    } else {
        access_list_loaded(j, list.drop_last()).load_account_optional_from_memory(
            list.last().address,
            false,
            list.last().storage_keys@,
        )
    }
}

/// Whether the loads of the accounts and slots of `list` get by without
/// the database: when its turn comes, each account is in memory, and each
/// slot is in memory or belongs to an account created in this transaction.
pub open spec fn access_list_asks_nothing(j: JournalModel, list: Seq<AccessListItem>) -> bool
    decreases list.len(),
{
    list.len() == 0 || {
        &&& access_list_asks_nothing(j, list.drop_last())
        &&& access_list_loaded(j, list.drop_last()).load_asks_nothing(
            list.last().address,
            false,
            list.last().storage_keys@,
        )
    }
}

/// Where the loads of an access list get by without the database, so do
/// the loads of its first `n` items.
pub proof fn lemma_access_list_prefix_asks_nothing(j: JournalModel, list: Seq<AccessListItem>, n: int)
    requires
        access_list_asks_nothing(j, list),
        0 <= n <= list.len(),
    ensures
        access_list_asks_nothing(j, list.subrange(0, n)),
    decreases list.len(),
{
    if n == list.len() {
        assert(list.subrange(0, n) =~= list);
    } else {
        lemma_access_list_prefix_asks_nothing(j, list.drop_last(), n);
        assert(list.drop_last().subrange(0, n) =~= list.subrange(0, n));
    }
}

/// Warms what the transaction names: from Shanghai on the beneficiary of
/// the block counts as warm, and each account of the access list is loaded
/// with the slots that the list names for it. After that each of those
/// accounts and slots is warm, and so is whatever was warm before. Where
/// the database fails, what was loaded before the failure stays loaded.
/// Where [`access_list_asks_nothing`] holds, the database is not asked, the
/// step succeeds, and the journal is what [`access_list_loaded`] says.
pub fn load_accounts<DB: Database>(ctx: &mut Context<DB>) -> (r: Result<(), DB::Error>)
    ensures
        old(ctx).tx.access_list@.len() == 0 ==> r is Ok,
        access_list_asks_nothing(
            beneficiary_warmed(old(ctx).journal@, old(ctx).cfg.spec, old(ctx).block.beneficiary),
            old(ctx).tx.access_list@,
        ) ==> r is Ok && final(ctx).journal@ == access_list_loaded(
            beneficiary_warmed(old(ctx).journal@, old(ctx).cfg.spec, old(ctx).block.beneficiary),
            old(ctx).tx.access_list@,
        ),
        final(ctx).tx == old(ctx).tx,
        final(ctx).block == old(ctx).block,
        final(ctx).cfg == old(ctx).cfg,
        r is Ok ==> {
            &&& keeps_warm(old(ctx).journal@, final(ctx).journal@)
            &&& final(ctx).journal@.warm_coinbase_address == if old(ctx).cfg.spec.is_enabled_in(
                SpecId::SHANGHAI,
            ) {
                Some(old(ctx).block.beneficiary)
            } else {
                old(ctx).journal@.warm_coinbase_address
            }
            &&& forall|i: int|
                0 <= i < old(ctx).tx.access_list@.len() ==> account_is_warm(
                    final(ctx).journal@,
                    (#[trigger] old(ctx).tx.access_list@[i]).address,
                )
            &&& forall|i: int, k: int|
                0 <= i < old(ctx).tx.access_list@.len()
                    && 0 <= k < old(ctx).tx.access_list@[i].storage_keys@.len() ==> slot_is_warm(
                    final(ctx).journal@,
                    old(ctx).tx.access_list@[i].address,
                    #[trigger] old(ctx).tx.access_list@[i].storage_keys@[k],
                )
            &&& old(ctx).journal.wf() ==> final(ctx).journal.wf()
        },
{
    if ctx.cfg.spec.is_enabled_in(SpecId::SHANGHAI) {
        let beneficiary = ctx.block.beneficiary;
        ctx.journal.warm_coinbase_account(beneficiary);
    }
    let ghost start = ctx.journal@;
    let ghost owed = access_list_asks_nothing(start, ctx.tx.access_list@);
    proof {
        assert(keeps_warm(old(ctx).journal@, start));
        assert(old(ctx).journal.wf() ==> start.wf());
        assert(start == beneficiary_warmed(
            old(ctx).journal@,
            old(ctx).cfg.spec,
            old(ctx).block.beneficiary,
        ));
        assert(ctx.tx.access_list@.subrange(0, 0) =~= Seq::<AccessListItem>::empty());
    }
    let mut i: usize = 0;
    while i < ctx.tx.access_list.len()
        invariant
            i <= ctx.tx.access_list@.len(),
            owed == access_list_asks_nothing(start, ctx.tx.access_list@),
            start == beneficiary_warmed(
                old(ctx).journal@,
                old(ctx).cfg.spec,
                old(ctx).block.beneficiary,
            ),
            owed ==> ctx.journal@ == access_list_loaded(
                start,
                ctx.tx.access_list@.subrange(0, i as int),
            ),
            ctx.tx == old(ctx).tx,
            ctx.block == old(ctx).block,
            ctx.cfg == old(ctx).cfg,
            keeps_warm(start, ctx.journal@),
            ctx.journal@.warm_coinbase_address == start.warm_coinbase_address,
            start.wf() ==> ctx.journal.wf(),
            forall|n: int|
                0 <= n < i ==> account_is_warm(
                    ctx.journal@,
                    (#[trigger] ctx.tx.access_list@[n]).address,
                ),
            forall|n: int, k: int|
                0 <= n < i && 0 <= k < ctx.tx.access_list@[n].storage_keys@.len() ==> slot_is_warm(
                    ctx.journal@,
                    ctx.tx.access_list@[n].address,
                    #[trigger] ctx.tx.access_list@[n].storage_keys@[k],
                ),
        decreases ctx.tx.access_list@.len() - i,
    {
        let ghost before = ctx.journal@;
        let address = ctx.tx.access_list[i].address;
        proof {
            if owed {
                let next = ctx.tx.access_list@.subrange(0, i + 1);
                lemma_access_list_prefix_asks_nothing(start, ctx.tx.access_list@, i + 1);
                assert(next.drop_last() =~= ctx.tx.access_list@.subrange(0, i as int));
                assert(next.last() == ctx.tx.access_list@[i as int]);
                assert(before.load_asks_nothing(
                    address,
                    false,
                    ctx.tx.access_list@[i as int].storage_keys@,
                ));
                lemma_load_account_optional_warms(
                    before,
                    address,
                    false,
                    ctx.tx.access_list@[i as int].storage_keys@,
                    None,
                    BytecodeModel::Empty,
                    Seq::empty(),
                );
            }
            assert forall|
                fetched: Option<AccountInfoModel>,
                fetched_code: BytecodeModel,
                fetched_slots: Seq<U256>,
            |
                {
                    let loaded = #[trigger] before.load_account_optional(
                        address,
                        false,
                        ctx.tx.access_list@[i as int].storage_keys@,
                        fetched,
                        fetched_code,
                        fetched_slots,
                    );
                    &&& keeps_warm(before, loaded)
                    &&& account_is_warm(loaded, address)
                    &&& (before.wf() ==> loaded.wf())
                    &&& same_but_state(before, loaded)
                    &&& loaded.with_account(address, loaded.state[address]) == loaded
                    &&& forall|k: int|
                        0 <= k < ctx.tx.access_list@[i as int].storage_keys@.len() ==> slot_is_warm(
                            loaded,
                            address,
                            #[trigger] ctx.tx.access_list@[i as int].storage_keys@[k],
                        )
                } by {
                lemma_load_account_optional_warms(
                    before,
                    address,
                    false,
                    ctx.tx.access_list@[i as int].storage_keys@,
                    fetched,
                    fetched_code,
                    fetched_slots,
                );
            }
        }
        match ctx.journal.load_account_optional(
            &mut ctx.db,
            address,
            false,
            ctx.tx.access_list[i].storage_keys.as_slice(),
        ) {
            Ok(_) => {},
            Err(e) => {
                return Err(e);
            },
        }
        proof {
            lemma_keeps_warm_transitive(start, before, ctx.journal@);
        }
        i = i + 1;
    }
    proof {
        lemma_keeps_warm_transitive(old(ctx).journal@, start, ctx.journal@);
        assert(ctx.tx.access_list@.subrange(0, i as int) =~= ctx.tx.access_list@);
    }
    Ok(())
}

} // verus!
