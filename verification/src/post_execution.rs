//! What happens to the gas once the frames have run: the refund is capped,
//! the floor is applied, the caller gets back what was not used and the
//! beneficiary is paid.
use crate::context::{spec_effective_gas_price, Context};
use crate::database::Database;
use crate::frame::FrameResult;
use crate::gas::Gas;
use crate::interpreter::InstructionResult;
use crate::journal_model::JournalModel;
use crate::primitives::{saturating_sum, SpecId, U256};
use crate::result::{ExecutionResult, InitialAndFloorGas, Outcome};
use crate::state::AccountInfoModel;
use vstd::prelude::*;

verus! {

/// The gas meter of a transaction after its first frame has ended with
/// `result` and the meter `frame_gas`: the whole limit of the transaction
/// counts as spent; what the frame has left, and no more than the limit,
/// comes back where the frame ended well or was reverted; what the frame
/// recorded as refund is kept where it ended well.
pub open spec fn last_frame_gas(result: InstructionResult, frame_gas: Gas, gas_limit: u64) -> Gas {
    let returned = if result.spec_is_ok_or_revert() {
        if frame_gas.remaining < gas_limit {
            frame_gas.remaining
        } else {
            gas_limit
        }
    } else {
        0
    };
    Gas {
        remaining: returned,
        refunded: if result.spec_is_ok() {
            frame_gas.refunded
        } else {
            0
        },
        ..Gas::spec_new_spent(gas_limit)
    }
}

/// Settles the gas of the first frame against the gas limit of the
/// transaction: see [`last_frame_gas`].
pub fn last_frame_result(frame_result: &mut FrameResult, gas_limit: u64)
    ensures
        final(frame_result)@ == old(frame_result)@.with_gas(
            last_frame_gas(
                old(frame_result)@.result().result,
                old(frame_result)@.result().gas,
                gas_limit,
            ),
        ),
        final(frame_result)@.result().gas.wf(),
{
    let instruction_result = frame_result.interpreter_result().result;
    let gas = frame_result.gas_mut();
    let remaining = gas.remaining();
    let refunded = gas.refunded();
    *gas = Gas::new_spent(gas_limit);
    if instruction_result.is_ok_or_revert() {
        gas.erase_cost(
            if remaining < gas_limit {
                remaining
            } else {
                gas_limit
            },
        );
    }
    if instruction_result.is_ok() {
        gas.record_refund(refunded);
    }
}

/// `value` cut to the range of an `i64`.
pub open spec fn clamped_i64(value: int) -> i64 {
    if value > i64::MAX {
        i64::MAX
    } else if value < i64::MIN {
        i64::MIN
    } else {
        value as i64
    }
}

/// The gas meter after the refund is settled: the refund for
/// authorizations is added to what was recorded, and the sum is capped at a
/// fifth of what was spent from London on, at half of it before.
pub open spec fn refunded_gas(spec: SpecId, gas: Gas, eip7702_refund: i64) -> Gas {
    let recorded = Gas { refunded: clamped_i64(gas.refunded + eip7702_refund), ..gas };
    Gas { refunded: recorded.final_refund(spec.is_enabled_in(SpecId::LONDON)), ..recorded }
}

/// Settles the refund: see [`refunded_gas`].
pub fn refund(spec: SpecId, gas: &mut Gas, eip7702_refund: i64)
    requires
        old(gas).remaining <= old(gas).limit,
    ensures
        *final(gas) == refunded_gas(spec, *old(gas), eip7702_refund),
        final(gas).remaining <= final(gas).limit,
        0 <= final(gas).refunded <= final(gas).spec_spent(),
{
    let sum: i128 = gas.refunded as i128 + eip7702_refund as i128;
    gas.refunded = if sum > i64::MAX as i128 {
        i64::MAX
    } else if sum < i64::MIN as i128 {
        i64::MIN
    } else {
        sum as i64
    };
    gas.set_final_refund(spec.is_enabled_in(SpecId::LONDON));
}

/// What counts as used: what was spent, less the refund.
pub open spec fn used_gas(gas: Gas) -> u64 {
    let refund: int = if gas.refunded < 0 {
        0
    } else {
        gas.refunded as int
    };
    (if gas.spec_spent() < refund {
        0
    } else {
        gas.spec_spent() - refund
    }) as u64
}

/// What counts as used: what was spent, less the refund.
pub fn gas_used(gas: &Gas) -> (r: u64)
    requires
        gas.remaining <= gas.limit,
    ensures
        r == used_gas(*gas),
{
    let refund: u64 = if gas.refunded < 0 {
        0
    } else {
        gas.refunded as u64
    };
    let spent = gas.spent();
    if spent < refund {
        0
    } else {
        spent - refund
    }
}

/// The gas meter after the floor is applied: where less than the floor
/// counts as used, the floor, or the whole limit if that is less, counts as
/// spent and nothing is refunded.
pub open spec fn floored_gas(gas: Gas, floor_gas: u64) -> Gas {
    if used_gas(gas) < floor_gas {
        Gas {
            remaining: if floor_gas < gas.limit {
                (gas.limit - floor_gas) as u64
            } else {
                0
            },
            refunded: 0,
            ..gas
        }
    } else {
        gas
    }
}

/// Applies the least cost of the transaction: see [`floored_gas`].
pub fn eip7623_check_gas_floor(gas: &mut Gas, init_and_floor_gas: InitialAndFloorGas)
    requires
        old(gas).remaining <= old(gas).limit,
    ensures
        *final(gas) == floored_gas(*old(gas), init_and_floor_gas.floor_gas),
        final(gas).remaining <= final(gas).limit,
{
    if gas_used(gas) < init_and_floor_gas.floor_gas {
        let limit = gas.limit();
        gas.set_spent(
            if init_and_floor_gas.floor_gas < limit {
                init_and_floor_gas.floor_gas
            } else {
                limit
            },
        );
        gas.refunded = 0;
    }
}

/// The gas that the caller is paid back for: what is left and what is
/// refunded, capped at `u64::MAX`.
pub open spec fn reimbursed_gas(gas: Gas) -> u64 {
    let refund: int = if gas.refunded < 0 {
        0
    } else {
        gas.refunded as int
    };
    (if gas.remaining + refund > u64::MAX {
        u64::MAX as int
    } else {
        gas.remaining + refund
    }) as u64
}

/// What the caller is paid back: the price that it paid for each unit of
/// gas, for each unit that is left or refunded, and `additional_refund` on
/// top; capped at `2^256 - 1`.
pub open spec fn reimbursement(gas: Gas, effective_gas_price: u128, additional_refund: U256)
    -> U256 {
    saturating_sum(
        U256::from_int(reimbursed_gas(gas) as int * effective_gas_price as int),
        additional_refund,
    )
}

/// What the caller is paid back: see [`reimbursement`].
pub fn reimbursement_of(gas: &Gas, effective_gas_price: u128, additional_refund: U256) -> (r: U256)
    ensures
        r == reimbursement(*gas, effective_gas_price, additional_refund),
{
    let refund: u64 = if gas.refunded < 0 {
        0
    } else {
        gas.refunded as u64
    };
    let units = gas.remaining().saturating_add(refund);
    let paid = U256::from_product(units, effective_gas_price);
    proof {
        crate::primitives::lemma_value_bounds(paid);
    }
    paid.saturating_add(additional_refund)
}

/// Pays the caller of the transaction back for the gas that is left or
/// refunded: its balance goes up by [`reimbursement`], as
/// [`balance_incr`](crate::journal::JournalInner::balance_incr) raises it.
/// Where the database fails nothing changes.
pub fn reimburse_caller<DB: Database>(ctx: &mut Context<DB>, gas: &Gas, additional_refund: U256) -> (r: Result<
    (),
    DB::Error,
>)
    ensures
        old(ctx).journal@.state.contains_key(old(ctx).tx.caller) ==> r is Ok,
        final(ctx).tx == old(ctx).tx,
        final(ctx).block == old(ctx).block,
        final(ctx).cfg == old(ctx).cfg,
        match r {
            Ok(_) => exists|fetched: Option<AccountInfoModel>|
                final(ctx).journal@ == #[trigger] old(ctx).journal@.balance_incr(
                    old(ctx).tx.caller,
                    reimbursement(
                        *gas,
                        spec_effective_gas_price(
                            old(ctx).tx.gas_price,
                            old(ctx).tx.gas_priority_fee,
                            old(ctx).block.basefee,
                        ),
                        additional_refund,
                    ),
                    fetched,
                ),
            Err(_) => final(ctx).journal == old(ctx).journal,
        },
{
    let effective_gas_price = ctx.tx.effective_gas_price(ctx.block.basefee);
    let amount = reimbursement_of(gas, effective_gas_price, additional_refund);
    let caller = ctx.tx.caller;
    ctx.journal.balance_incr(&mut ctx.db, caller, amount)
}

/// The price of each unit of gas that goes to the beneficiary: from
/// London on what the caller pays above the base fee, before London all of
/// it.
pub open spec fn coinbase_gas_price(spec: SpecId, effective_gas_price: u128, basefee: u64) -> u128 {
    if spec.is_enabled_in(SpecId::LONDON) {
        if effective_gas_price < basefee {
            0
        } else {
            (effective_gas_price - basefee) as u128
        }
    } else {
        effective_gas_price
    }
}

/// What the beneficiary is paid: its price for each unit of gas that
/// counts as used.
pub open spec fn beneficiary_reward(spec: SpecId, gas: Gas, effective_gas_price: u128, basefee: u64) -> U256 {
    U256::from_int(
        used_gas(gas) as int * coinbase_gas_price(spec, effective_gas_price, basefee) as int,
    )
}

/// What the beneficiary is paid: see [`beneficiary_reward`].
pub fn beneficiary_reward_of(spec: SpecId, gas: &Gas, effective_gas_price: u128, basefee: u64)
    -> (r: U256)
    requires
        gas.remaining <= gas.limit,
    ensures
        r == beneficiary_reward(spec, *gas, effective_gas_price, basefee),
{
    let price = if spec.is_enabled_in(SpecId::LONDON) {
        if effective_gas_price < basefee as u128 {
            0
        } else {
            effective_gas_price - basefee as u128
        }
    } else {
        effective_gas_price
    };
    let reward = U256::from_product(gas_used(gas), price);
    proof {
        crate::primitives::lemma_value_bounds(reward);
    }
    reward
}

/// Pays the beneficiary of the block for the gas that counts as used: its
/// balance goes up by [`beneficiary_reward`], as
/// [`balance_incr`](crate::journal::JournalInner::balance_incr) raises it.
/// Where the database fails nothing changes.
pub fn reward_beneficiary<DB: Database>(ctx: &mut Context<DB>, gas: &Gas)
    -> (r: Result<(), DB::Error>)
    requires
        gas.remaining <= gas.limit,
    ensures
        old(ctx).journal@.state.contains_key(old(ctx).block.beneficiary) ==> r is Ok,
        final(ctx).tx == old(ctx).tx,
        final(ctx).block == old(ctx).block,
        final(ctx).cfg == old(ctx).cfg,
        match r {
            Ok(_) => exists|fetched: Option<AccountInfoModel>|
                final(ctx).journal@ == #[trigger] old(ctx).journal@.balance_incr(
                    old(ctx).block.beneficiary,
                    beneficiary_reward(
                        old(ctx).cfg.spec,
                        *gas,
                        spec_effective_gas_price(
                            old(ctx).tx.gas_price,
                            old(ctx).tx.gas_priority_fee,
                            old(ctx).block.basefee,
                        ),
                        old(ctx).block.basefee,
                    ),
                    fetched,
                ),
            Err(_) => final(ctx).journal == old(ctx).journal,
        },
{
    let effective_gas_price = ctx.tx.effective_gas_price(ctx.block.basefee);
    let amount = beneficiary_reward_of(ctx.cfg.spec, gas, effective_gas_price, ctx.block.basefee);
    let beneficiary = ctx.block.beneficiary;
    ctx.journal.balance_incr(&mut ctx.db, beneficiary, amount)
}

/// Makes the result of the transaction from the result of its first
/// frame, and takes the logs out of the journal. The gas that counts as
/// used is what was spent less the refund.
pub fn output<DB: Database>(ctx: &mut Context<DB>, result: FrameResult) -> (r: ExecutionResult)
    requires
        result@.result().gas.remaining <= result@.result().gas.limit,
    ensures
        r.outcome == Outcome::spec_of(result@.result().result),
        r.gas_used == used_gas(result@.result().gas),
        r.gas_refunded as int == if result@.result().gas.refunded < 0 {
            0
        } else {
            result@.result().gas.refunded as int
        },
        r.logs@ == old(ctx).journal@.logs,
        r.output@ == result@.result().output,
        final(ctx).journal@ == (JournalModel { logs: Seq::empty(), ..old(ctx).journal@ }),
        final(ctx).tx == old(ctx).tx,
        final(ctx).block == old(ctx).block,
        final(ctx).cfg == old(ctx).cfg,
        final(ctx).error == old(ctx).error,
{
    let gas = result.gas();
    let gas_refunded: u64 = if gas.refunded < 0 {
        0
    } else {
        gas.refunded as u64
    };
    let gas_used = gas_used(&gas);
    let outcome = Outcome::of(result.interpreter_result().result);
    let logs = ctx.journal.take_logs();
    ExecutionResult { outcome, gas_used, gas_refunded, logs, output: result.into_output() }
}

} // verus!
