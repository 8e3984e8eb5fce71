//! The handler: the phases that take one transaction from validation to
//! its result, and the clean-up after an error.
use crate::context::{spec_effective_gas_price, CfgEnv, Context, ContextError, TxEnv};
use crate::database::Database;
use crate::execution::{
    create_init_frame, frame_loop_step, init_frame_of, FrameAction, FrameEvent,
};
use crate::frame::{FrameInit, FrameResult, FrameResultModel, ItemOrResult};
use crate::interpreter::SharedMemory;
use crate::journal::JournalInner;
use crate::journal_laws::{account_is_warm, keeps_warm, slot_is_warm};
use crate::journal_model::{undo_all, JournalModel};
use crate::post_execution;
use crate::pre_execution;
use crate::primitives::{SpecId, StorageValue, U256};
use crate::result::{
    ExecutionResult, FromStringError, InitialAndFloorGas, InvalidHeader, InvalidTransaction,
    Outcome,
};
use crate::state::AccountInfoModel;
use crate::validation;
use crate::vec_map::SlotId;
use vstd::prelude::*;
use vstd::std_specs::convert::FromSpec;

verus! {

/// The most rounds that the frame loop makes for one transaction.
pub const FRAME_STEP_LIMIT: u64 = u64::MAX;

/// What runs the frames of a transaction. Nothing is assumed of what a
/// frame does to the context or of what it answers.
pub trait EvmTr {
    /// The database that the frames read from.
    type Db: Database;

    /// Starts the frame that `frame_input` asks for, on top of the frames
    /// that run. Hands back a result instead where no frame was started.
    fn frame_init(&mut self, ctx: &mut Context<Self::Db>, frame_input: FrameInit) -> Result<
        ItemOrResult<(), FrameResult>,
        ContextError<<Self::Db as Database>::Error>,
    >;

    /// Runs the topmost frame until it asks for a child frame or ends.
    fn frame_run(&mut self, ctx: &mut Context<Self::Db>) -> Result<
        ItemOrResult<FrameInit, FrameResult>,
        ContextError<<Self::Db as Database>::Error>,
    >;

    /// Hands `result` to the frame below the one that ended; hands it
    /// back where no frame is left.
    fn frame_return_result(&mut self, ctx: &mut Context<Self::Db>, result: FrameResult) -> Result<
        Option<FrameResult>,
        ContextError<<Self::Db as Database>::Error>,
    >;

    /// Drops every frame.
    fn clear_frame_stack(&mut self);
}

/// What the error of a handler must be made from: the errors of
/// validation, of the database and of the context, and a message.
pub trait EvmTrError<EVM: EvmTr>: From<InvalidTransaction> + From<InvalidHeader> + From<
    <EVM::Db as Database>::Error,
> + From<ContextError<<EVM::Db as Database>::Error>> + FromStringError {

}

impl<
    EVM: EvmTr,
    T: From<InvalidTransaction> + From<InvalidHeader> + From<<EVM::Db as Database>::Error> + From<
        ContextError<<EVM::Db as Database>::Error>,
    > + FromStringError,
> EvmTrError<EVM> for T {

}

/// Whether nothing of a transaction is pending in the journal: no entry,
/// no log, no transient word, no open checkpoint, no coinbase.
pub open spec fn nothing_pending(j: JournalModel) -> bool {
    &&& j.journal.len() == 0
    &&& j.logs.len() == 0
    &&& j.transient_storage == Map::<SlotId, StorageValue>::empty()
    &&& j.depth == 0
    &&& j.warm_coinbase_address is None
}

/// Whether `error` is what `source` is made into: the error that
/// `From::from` gives for `source`, as far as that conversion has a
/// specification.
pub open spec fn made_from<T, E: From<T>>(source: T, error: E) -> bool {
    <E as FromSpec<T>>::obeys_from_spec() ==> error == <E as FromSpec<T>>::from_spec(source)
}

/// Whether `error` is what some value of `T` is made into.
pub open spec fn made_from_some<T, E: From<T>>(error: E) -> bool {
    exists|source: T| #[trigger] made_from(source, error)
}

/// The refund for authorizations as a signed number, capped at
/// `i64::MAX`.
pub fn refund_as_signed(refund: u64) -> (r: i64)
    ensures
        r as int == if refund > i64::MAX {
            i64::MAX as int
        } else {
            refund as int
        },
{
    if refund > i64::MAX as u64 {
        i64::MAX
    } else {
        refund as i64
    }
}

/// The execution of one transaction in four phases: validation,
/// pre-execution, execution and post-execution. Whoever implements the
/// trait supplies the three steps that depend on the kind of chain, and may
/// replace any other step.
pub trait Handler {
    /// What runs the frames.
    type Evm: EvmTr;

    /// The error that the handler reports.
    type Error: EvmTrError<Self::Evm>;

    /// Checks block, transaction and configuration without looking at the
    /// state.
    fn validate_env(&self, ctx: &Context<<Self::Evm as EvmTr>::Db>) -> Result<(), Self::Error>;

    /// The gas that the transaction costs before it runs, and the least
    /// that it costs in the end.
    fn initial_tx_gas(&self, tx: &TxEnv, cfg: &CfgEnv) -> InitialAndFloorGas;

    /// Checks and installs the authorizations of the transaction and hands
    /// back the refund that they earn.
    fn apply_eip7702_auth_list(
        &self,
        journal: &mut JournalInner,
        db: &mut <Self::Evm as EvmTr>::Db,
        tx: &TxEnv,
        cfg: &CfgEnv,
    ) -> Result<u64, Self::Error>;

    /// Runs the transaction. Whatever the outcome, nothing of the
    /// transaction is pending in the journal afterwards and the buffer of
    /// the transaction is empty: a result means that the transaction was
    /// committed, an error that it was discarded.
    fn run(&mut self, evm: &mut Self::Evm, ctx: &mut Context<<Self::Evm as EvmTr>::Db>)
        -> (r: Result<
        ExecutionResult,
        Self::Error,
    >)
        ensures
            nothing_pending(final(ctx).journal@),
            final(ctx).local.shared_memory_buffer@.len() == 0,
            r is Ok ==> final(ctx).error is Ok,
    {
        match self.run_without_catch_error(evm, ctx) {
            Ok(output) => Ok(output),
            Err(e) => self.catch_error(evm, ctx, e),
        }
    }

    /// Runs the transaction as a call of the system: without validation,
    /// without pre-execution and without paying anyone. Whatever the
    /// outcome, nothing of the transaction is pending in the journal
    /// afterwards.
    fn run_system_call(&mut self, evm: &mut Self::Evm, ctx: &mut Context<<Self::Evm as EvmTr>::Db>) -> (r: Result<
        ExecutionResult,
        Self::Error,
    >)
        ensures
            nothing_pending(final(ctx).journal@),
            final(ctx).local.shared_memory_buffer@.len() == 0,
            r is Ok ==> final(ctx).error is Ok,
    {
        let init_and_floor_gas = InitialAndFloorGas::new(0, 0);
        let exec_result = match self.execution(evm, ctx, &init_and_floor_gas) {
            Ok(exec_result) => exec_result,
            Err(e) => {
                return self.catch_error(evm, ctx, e);
            },
        };
        match self.execution_result(evm, ctx, exec_result) {
            Ok(output) => Ok(output),
            Err(e) => self.catch_error(evm, ctx, e),
        }
    }

    /// Runs the four phases and makes the result. An error is handed on as
    /// it is; the journal is then left as the failing phase left it. A
    /// result means that the transaction was committed, and it never counts
    /// more gas as used than the transaction allows. A transaction whose
    /// caller is in memory and cannot send it is never run: it ends in an
    /// error before any frame starts, with nothing done but, at most, the
    /// load of the caller.
    fn run_without_catch_error(
        &mut self,
        evm: &mut Self::Evm,
        ctx: &mut Context<<Self::Evm as EvmTr>::Db>,
    ) -> (r: Result<ExecutionResult, Self::Error>)
        ensures
            r is Ok ==> nothing_pending(final(ctx).journal@) && final(ctx).error is Ok,
            r is Ok ==> final(ctx).local.shared_memory_buffer@.len() == 0,
            r matches Ok(produced) ==> produced.gas_used <= final(ctx).tx.gas_limit,
            old(ctx).journal@.state.contains_key(old(ctx).tx.caller) && pre_execution::caller_error(
                old(ctx).journal@,
                old(ctx).tx,
                old(ctx).cfg,
            ) is Some ==> {
                &&& r is Err
                &&& final(ctx).tx == old(ctx).tx
                &&& (final(ctx).journal@ == old(ctx).journal@
                    || final(ctx).journal@ == old(ctx).journal@.load_account(
                    old(ctx).tx.caller,
                    None,
                ))
            },
    {
        let init_and_floor_gas = match self.validate(ctx) {
            Ok(gas) => gas,
            Err(e) => {
                return Err(e);
            },
        };
        let eip7702_refund = match self.pre_execution(ctx) {
            Ok(refund) => refund_as_signed(refund),
            Err(e) => {
                return Err(e);
            },
        };
        let mut exec_result = match self.execution(evm, ctx, &init_and_floor_gas) {
            Ok(exec_result) => exec_result,
            Err(e) => {
                return Err(e);
            },
        };
        match self.post_execution(ctx, &mut exec_result, init_and_floor_gas, eip7702_refund) {
            Ok(_) => {},
            Err(e) => {
                return Err(e);
            },
        }
        self.execution_result(evm, ctx, exec_result)
    }

    /// Validates the transaction without looking at the state. The gas
    /// that it hands back is covered by the gas limit of the transaction.
    fn validate(&self, ctx: &Context<<Self::Evm as EvmTr>::Db>) -> (r: Result<
        InitialAndFloorGas,
        Self::Error,
    >)
        ensures
            match r {
                Ok(gas) => validation::initial_tx_gas_error(ctx.tx.gas_limit, gas) is None,
                Err(_) => true,
            },
    {
        match self.validate_env(ctx) {
            Ok(_) => {},
            Err(e) => {
                return Err(e);
            },
        }
        self.validate_initial_tx_gas(ctx)
    }

    /// Makes the caller pay up front, warms what the transaction names, and
    /// applies its authorizations. Hands back the refund that the
    /// authorizations earn. The transaction, the block and the
    /// configuration stay as they are. It succeeds only where the caller can
    /// send the transaction; where a caller in memory cannot, the reason is
    /// made into the error and nothing but the load of the caller has
    /// happened. What the journal holds after a success is up to the step
    /// that applies the authorizations.
    fn pre_execution(&self, ctx: &mut Context<<Self::Evm as EvmTr>::Db>)
        -> (r: Result<u64, Self::Error>)
        ensures
            final(ctx).tx == old(ctx).tx,
            final(ctx).block == old(ctx).block,
            final(ctx).cfg == old(ctx).cfg,
            r is Ok ==> exists|fetched: Option<AccountInfoModel>|
                pre_execution::deduct_error(
                    (#[trigger] old(ctx).journal@.load_account(
                        old(ctx).tx.caller,
                        fetched,
                    )).state[old(ctx).tx.caller],
                    old(ctx).tx.gas_limit,
                    old(ctx).tx.gas_price,
                    old(ctx).tx.value,
                    old(ctx).tx.nonce,
                    old(ctx).cfg.disable_nonce_check,
                ) is None,
            old(ctx).journal@.state.contains_key(old(ctx).tx.caller) ==> match pre_execution::caller_error(
                old(ctx).journal@,
                old(ctx).tx,
                old(ctx).cfg,
            ) {
                Some(invalid) => {
                    &&& r matches Err(error) && made_from(invalid, error)
                    &&& final(ctx).journal@ == old(ctx).journal@.load_account(
                        old(ctx).tx.caller,
                        None,
                    )
                },
                None => true,
            },
    {
        match self.validate_against_state_and_deduct_caller(ctx) {
            Ok(_) => {},
            Err(e) => {
                return Err(e);
            },
        }
        match self.load_accounts(ctx) {
            Ok(_) => {},
            Err(e) => {
                return Err(e);
            },
        }
        self.apply_eip7702_auth_list(&mut ctx.journal, &mut ctx.db, &ctx.tx, &ctx.cfg)
    }

    /// Starts the first frame with the gas that the transaction has left
    /// after its cost before the run, lets the frames run, and settles the
    /// gas of the first frame against the gas limit of the transaction. The
    /// result that it hands back is what the frames gave, with the gas
    /// settled as [`post_execution::last_frame_gas`] says: no more gas is
    /// left in it than the limit gives. Whether there is a result is up to
    /// the frames.
    fn execution(
        &mut self,
        evm: &mut Self::Evm,
        ctx: &mut Context<<Self::Evm as EvmTr>::Db>,
        init_and_floor_gas: &InitialAndFloorGas,
    ) -> (r: Result<FrameResult, Self::Error>)
        requires
            init_and_floor_gas.initial_gas <= old(ctx).tx.gas_limit,
        ensures
            match r {
                Ok(frame_result) => {
                    &&& frame_result@.result().gas.wf()
                    &&& frame_result@.result().gas.limit == final(ctx).tx.gas_limit
                    &&& exists|given: FrameResultModel|
                        frame_result@ == #[trigger] given.with_gas(
                            post_execution::last_frame_gas(
                                given.result().result,
                                given.result().gas,
                                final(ctx).tx.gas_limit,
                            ),
                        )
                },
                Err(_) => true,
            },
    {
        let gas_limit = ctx.tx.gas_limit - init_and_floor_gas.initial_gas;
        let first_frame_input = match self.first_frame_input(ctx, gas_limit) {
            Ok(input) => input,
            Err(e) => {
                return Err(e);
            },
        };
        let mut frame_result = match self.run_exec_loop(evm, ctx, first_frame_input) {
            Ok(frame_result) => frame_result,
            Err(e) => {
                return Err(e);
            },
        };
        let ghost given = frame_result@;
        match self.last_frame_result(ctx, &mut frame_result) {
            Ok(_) => {},
            Err(e) => {
                return Err(e);
            },
        }
        proof {
            assert(frame_result@ == given.with_gas(
                post_execution::last_frame_gas(
                    given.result().result,
                    given.result().gas,
                    ctx.tx.gas_limit,
                ),
            ));
        }
        Ok(frame_result)
    }

    /// Settles the refund, applies the least cost, pays the caller back
    /// and pays the beneficiary. Where it succeeds, no more gas is left in
    /// `exec_result` than its limit gives.
    fn post_execution(
        &self,
        ctx: &mut Context<<Self::Evm as EvmTr>::Db>,
        exec_result: &mut FrameResult,
        init_and_floor_gas: InitialAndFloorGas,
        eip7702_gas_refund: i64,
    ) -> (r: Result<(), Self::Error>)
        requires
            old(exec_result)@.result().gas.remaining <= old(exec_result)@.result().gas.limit,
        ensures
            final(ctx).tx == old(ctx).tx,
            final(ctx).block == old(ctx).block,
            final(ctx).cfg == old(ctx).cfg,
            final(exec_result)@ == old(exec_result)@.with_gas(
                post_execution::floored_gas(
                    post_execution::refunded_gas(
                        old(ctx).cfg.spec,
                        old(exec_result)@.result().gas,
                        eip7702_gas_refund,
                    ),
                    init_and_floor_gas.floor_gas,
                ),
            ),
            final(exec_result)@.result().gas.remaining <= final(exec_result)@.result().gas.limit,
            r is Ok ==> exists|
                fetched_caller: Option<AccountInfoModel>,
                fetched_beneficiary: Option<AccountInfoModel>,
            |
                final(ctx).journal@ == #[trigger] old(ctx).journal@.balance_incr(
                    old(ctx).tx.caller,
                    post_execution::reimbursement(
                        final(exec_result)@.result().gas,
                        spec_effective_gas_price(
                            old(ctx).tx.gas_price,
                            old(ctx).tx.gas_priority_fee,
                            old(ctx).block.basefee,
                        ),
                        U256::spec_zero(),
                    ),
                    fetched_caller,
                ).balance_incr(
                    old(ctx).block.beneficiary,
                    post_execution::beneficiary_reward(
                        old(ctx).cfg.spec,
                        final(exec_result)@.result().gas,
                        spec_effective_gas_price(
                            old(ctx).tx.gas_price,
                            old(ctx).tx.gas_priority_fee,
                            old(ctx).block.basefee,
                        ),
                        old(ctx).block.basefee,
                    ),
                    fetched_beneficiary,
                ),
    {
        self.refund(ctx, exec_result, eip7702_gas_refund);
        self.eip7623_check_gas_floor(ctx, exec_result, init_and_floor_gas);
        match self.reimburse_caller(ctx, exec_result) {
            Ok(_) => {},
            Err(e) => {
                return Err(e);
            },
        }
        match self.reward_beneficiary(ctx, exec_result) {
            Ok(_) => {},
            Err(e) => {
                return Err(e);
            },
        }
        Ok(())
    }

    /// Holds the gas limit of the transaction against the cost before the
    /// run and the least cost, and hands both on where the limit covers them.
    fn validate_initial_tx_gas(&self, ctx: &Context<<Self::Evm as EvmTr>::Db>) -> (r: Result<
        InitialAndFloorGas,
        Self::Error,
    >)
        ensures
            match r {
                Ok(gas) => validation::initial_tx_gas_error(ctx.tx.gas_limit, gas) is None,
                Err(_) => true,
            },
            exists|gas: InitialAndFloorGas|
                match #[trigger] validation::initial_tx_gas_error(ctx.tx.gas_limit, gas) {
                    None => r == Ok::<InitialAndFloorGas, Self::Error>(gas),
                    Some(invalid) => r matches Err(error) && made_from(invalid, error),
                },
    {
        let gas = self.initial_tx_gas(&ctx.tx, &ctx.cfg);
        match validation::validate_initial_tx_gas(ctx.tx.gas_limit, gas) {
            Ok(gas) => Ok(gas),
            Err(e) => Err(Self::Error::from(e)),
        }
    }

    /// Warms the beneficiary and the accounts and slots of the access list:
    /// see [`pre_execution::load_accounts`]. It succeeds where the database
    /// is not asked, and the journal is then what
    /// [`pre_execution::access_list_loaded`] says; a failure of the database
    /// is made into the error of the handler.
    fn load_accounts(&self, ctx: &mut Context<<Self::Evm as EvmTr>::Db>)
        -> (r: Result<(), Self::Error>)
        ensures
            old(ctx).tx.access_list@.len() == 0 ==> r is Ok,
            pre_execution::access_list_asks_nothing(
                pre_execution::beneficiary_warmed(
                    old(ctx).journal@,
                    old(ctx).cfg.spec,
                    old(ctx).block.beneficiary,
                ),
                old(ctx).tx.access_list@,
            ) ==> r is Ok && final(ctx).journal@ == pre_execution::access_list_loaded(
                pre_execution::beneficiary_warmed(
                    old(ctx).journal@,
                    old(ctx).cfg.spec,
                    old(ctx).block.beneficiary,
                ),
                old(ctx).tx.access_list@,
            ),
            final(ctx).tx == old(ctx).tx,
            final(ctx).block == old(ctx).block,
            final(ctx).cfg == old(ctx).cfg,
            r is Ok ==> {
                &&& keeps_warm(old(ctx).journal@, final(ctx).journal@)
                &&& final(ctx).journal@.warm_coinbase_address == if old(ctx).cfg.spec.is_enabled_in(
                    SpecId::SHANGHAI,
                ) {
                    Some(old(ctx).block.beneficiary)
                } else {
                    old(ctx).journal@.warm_coinbase_address
                }
                &&& forall|i: int|
                    0 <= i < old(ctx).tx.access_list@.len() ==> account_is_warm(
                        final(ctx).journal@,
                        (#[trigger] old(ctx).tx.access_list@[i]).address,
                    )
                &&& forall|i: int, k: int|
                    0 <= i < old(ctx).tx.access_list@.len()
                        && 0 <= k < old(ctx).tx.access_list@[i].storage_keys@.len()
                        ==> slot_is_warm(
                        final(ctx).journal@,
                        old(ctx).tx.access_list@[i].address,
                        #[trigger] old(ctx).tx.access_list@[i].storage_keys@[k],
                    )
            },
            match r {
                Ok(_) => true,
                Err(error) => made_from_some::<<<Self::Evm as EvmTr>::Db as Database>::Error, Self::Error>(error),
            },
    {
        match pre_execution::load_accounts(ctx) {
            Ok(_) => Ok(()),
            Err(e) => {
                let ghost failure = e;
                let error = Self::Error::from(e);
                proof {
                    assert(made_from(failure, error));
                }
                Err(error)
            },
        }
    }

    /// Holds the transaction against the account of its caller and makes
    /// the caller pay up front: see
    /// [`pre_execution::validate_against_state_and_deduct_caller`]. What that
    /// reports as the reason why the transaction cannot be sent, and what the
    /// database reports as its failure, is made into the error of the
    /// handler. For a caller in memory the step succeeds exactly where
    /// [`pre_execution::caller_error`] finds no reason.
    fn validate_against_state_and_deduct_caller(&self, ctx: &mut Context<<Self::Evm as EvmTr>::Db>) -> (r: Result<
        (),
        Self::Error,
    >)
        ensures
            final(ctx).tx == old(ctx).tx,
            final(ctx).block == old(ctx).block,
            final(ctx).cfg == old(ctx).cfg,
            old(ctx).journal@.state.contains_key(old(ctx).tx.caller) ==> (r is Ok)
                == (pre_execution::caller_error(old(ctx).journal@, old(ctx).tx, old(ctx).cfg) is None),
            match r {
                Ok(_) => exists|fetched: Option<AccountInfoModel>|
                    {
                        let loaded = #[trigger] old(ctx).journal@.load_account(
                            old(ctx).tx.caller,
                            fetched,
                        );
                        &&& pre_execution::deduct_error(
                            loaded.state[old(ctx).tx.caller],
                            old(ctx).tx.gas_limit,
                            old(ctx).tx.gas_price,
                            old(ctx).tx.value,
                            old(ctx).tx.nonce,
                            old(ctx).cfg.disable_nonce_check,
                        ) is None
                        &&& final(ctx).journal@ == pre_execution::deducted(
                            loaded,
                            old(ctx).tx.caller,
                            U256::from_int(
                                pre_execution::caller_payment(
                                    old(ctx).tx.gas_limit,
                                    old(ctx).tx.gas_price,
                                    old(ctx).tx.value,
                                ),
                            ),
                        )
                    },
                Err(error) => {
                    ||| {
                        &&& !old(ctx).journal@.state.contains_key(old(ctx).tx.caller)
                        &&& final(ctx).journal == old(ctx).journal
                        &&& made_from_some::<<<Self::Evm as EvmTr>::Db as Database>::Error, Self::Error>(error)
                    }
                    ||| exists|fetched: Option<AccountInfoModel>|
                        {
                            let loaded = #[trigger] old(ctx).journal@.load_account(
                                old(ctx).tx.caller,
                                fetched,
                            );
                            &&& final(ctx).journal@ == loaded
                            &&& match pre_execution::deduct_error(
                                loaded.state[old(ctx).tx.caller],
                                old(ctx).tx.gas_limit,
                                old(ctx).tx.gas_price,
                                old(ctx).tx.value,
                                old(ctx).tx.nonce,
                                old(ctx).cfg.disable_nonce_check,
                            ) {
                                Some(invalid) => made_from(invalid, error),
                                None => false,
                            }
                        }
                },
            },
    {
        match pre_execution::validate_against_state_and_deduct_caller(ctx) {
            Ok(None) => Ok(()),
            Ok(Some(invalid)) => {
                let error = Self::Error::from(invalid);
                proof {
                    assert(made_from(invalid, error));
                }
                Err(error)
            },
            Err(e) => {
                let ghost failure = e;
                let error = Self::Error::from(e);
                proof {
                    assert(made_from(failure, error));
                }
                Err(error)
            },
        }
    }

    /// Makes what the first frame starts from: nothing below it, the
    /// buffer of the transaction as its memory, and the request that the
    /// transaction stands for. The buffer is taken out of the context, which
    /// is left with an empty one. This step does not fail.
    fn first_frame_input(&mut self, ctx: &mut Context<<Self::Evm as EvmTr>::Db>, gas_limit: u64) -> (r: Result<
        FrameInit,
        Self::Error,
    >)
        ensures
            r is Ok,
            final(ctx).tx == old(ctx).tx,
            final(ctx).journal == old(ctx).journal,
            final(ctx).block == old(ctx).block,
            final(ctx).cfg == old(ctx).cfg,
            final(ctx).error == old(ctx).error,
            final(ctx).db == old(ctx).db,
            final(ctx).local.shared_memory_buffer@.len() == 0,
            match r {
                Ok(init) => init.depth == 0 && init.memory.my_checkpoint == 0 && init.memory.buffer@
                    == old(ctx).local.shared_memory_buffer@ && init.frame_input@ == init_frame_of(
                    old(ctx).tx.caller,
                    old(ctx).tx.kind,
                    old(ctx).tx.value,
                    old(ctx).tx.data@,
                    gas_limit,
                ),
                Err(_) => true,
            },
    {
        let mut buffer: Vec<u8> = Vec::new();
        core::mem::swap(&mut ctx.local.shared_memory_buffer, &mut buffer);
        let memory = SharedMemory { buffer, my_checkpoint: 0 };
        Ok(FrameInit { depth: 0, memory, frame_input: create_init_frame(&ctx.tx, gas_limit) })
    }

    /// Settles the gas of the first frame against the gas limit of the
    /// transaction: see [`post_execution::last_frame_result`]. This step
    /// does not fail.
    fn last_frame_result(
        &mut self,
        ctx: &mut Context<<Self::Evm as EvmTr>::Db>,
        frame_result: &mut FrameResult,
    ) -> (r: Result<(), Self::Error>)
        ensures
            r is Ok,
            *final(ctx) == *old(ctx),
            final(frame_result)@ == old(frame_result)@.with_gas(
                post_execution::last_frame_gas(
                    old(frame_result)@.result().result,
                    old(frame_result)@.result().gas,
                    old(ctx).tx.gas_limit,
                ),
            ),
            final(frame_result)@.result().gas.wf(),
    {
        post_execution::last_frame_result(frame_result, ctx.tx.gas_limit);
        Ok(())
    }

    /// Lets the frames run until the first frame has its result: starts
    /// the first frame, and then does with each answer of the frames what
    /// [`frame_loop_step`] says, until that is `Done`. An error of the frames
    /// ends the loop at once. No more than `FRAME_STEP_LIMIT` answers are
    /// taken; after that the loop ends with an error made from a message.
    fn run_exec_loop(
        &mut self,
        evm: &mut Self::Evm,
        ctx: &mut Context<<Self::Evm as EvmTr>::Db>,
        first_frame_input: FrameInit,
    ) -> (r: Result<FrameResult, Self::Error>)
    {
        let mut action = FrameAction::Start(first_frame_input);
        let mut is_first = true;
        let mut steps: u64 = 0;
        while steps < FRAME_STEP_LIMIT
            decreases FRAME_STEP_LIMIT - steps,
        {
            steps = steps + 1;
            let answer = match action {
                FrameAction::Done(result) => {
                    return Ok(result);
                },
                FrameAction::Start(init) => match evm.frame_init(ctx, init) {
                    Ok(started) => Ok(FrameEvent::Started(started)),
                    Err(e) => Err(e),
                },
                FrameAction::Run => match evm.frame_run(ctx) {
                    Ok(ran) => Ok(FrameEvent::Ran(ran)),
                    Err(e) => Err(e),
                },
                FrameAction::Return(result) => match evm.frame_return_result(ctx, result) {
                    Ok(returned) => Ok(FrameEvent::Returned(returned)),
                    Err(e) => Err(e),
                },
            };
            match answer {
                Ok(event) => {
                    action = frame_loop_step(event, is_first);
                    is_first = false;
                },
                Err(e) => {
                    return Err(Self::Error::from(e));
                },
            }
        }
        match action {
            FrameAction::Done(result) => Ok(result),
            _ => Err(
                Self::Error::from_string("the frames did not end within the step limit".to_string()),
            ),
        }
    }

    /// Applies the least cost of the transaction: see
    /// [`post_execution::eip7623_check_gas_floor`].
    fn eip7623_check_gas_floor(
        &self,
        ctx: &mut Context<<Self::Evm as EvmTr>::Db>,
        exec_result: &mut FrameResult,
        init_and_floor_gas: InitialAndFloorGas,
    )
        requires
            old(exec_result)@.result().gas.remaining <= old(exec_result)@.result().gas.limit,
        ensures
            *final(ctx) == *old(ctx),
            final(exec_result)@ == old(exec_result)@.with_gas(
                post_execution::floored_gas(
                    old(exec_result)@.result().gas,
                    init_and_floor_gas.floor_gas,
                ),
            ),
            final(exec_result)@.result().gas.remaining <= final(exec_result)@.result().gas.limit,
    {
        post_execution::eip7623_check_gas_floor(exec_result.gas_mut(), init_and_floor_gas)
    }

    /// Settles the refund: see [`post_execution::refund`].
    fn refund(
        &self,
        ctx: &mut Context<<Self::Evm as EvmTr>::Db>,
        exec_result: &mut FrameResult,
        eip7702_refund: i64,
    )
        requires
            old(exec_result)@.result().gas.remaining <= old(exec_result)@.result().gas.limit,
        ensures
            *final(ctx) == *old(ctx),
            final(exec_result)@ == old(exec_result)@.with_gas(
                post_execution::refunded_gas(
                    old(ctx).cfg.spec,
                    old(exec_result)@.result().gas,
                    eip7702_refund,
                ),
            ),
            final(exec_result)@.result().gas.remaining <= final(exec_result)@.result().gas.limit,
    {
        let spec = ctx.cfg.spec;
        post_execution::refund(spec, exec_result.gas_mut(), eip7702_refund)
    }

    /// Pays the caller back for the gas that is left or refunded: see
    /// [`post_execution::reimburse_caller`]. It succeeds for a caller in
    /// memory; a failure of the database is made into the error of the
    /// handler, and nothing has changed then.
    fn reimburse_caller(
        &self,
        ctx: &mut Context<<Self::Evm as EvmTr>::Db>,
        exec_result: &mut FrameResult,
    ) -> (r: Result<(), Self::Error>)
        ensures
            old(ctx).journal@.state.contains_key(old(ctx).tx.caller) ==> r is Ok,
            *final(exec_result) == *old(exec_result),
            final(ctx).tx == old(ctx).tx,
            final(ctx).block == old(ctx).block,
            final(ctx).cfg == old(ctx).cfg,
            match r {
                Ok(_) => exists|fetched: Option<AccountInfoModel>|
                    final(ctx).journal@ == #[trigger] old(ctx).journal@.balance_incr(
                        old(ctx).tx.caller,
                        post_execution::reimbursement(
                            old(exec_result)@.result().gas,
                            spec_effective_gas_price(
                                old(ctx).tx.gas_price,
                                old(ctx).tx.gas_priority_fee,
                                old(ctx).block.basefee,
                            ),
                            U256::spec_zero(),
                        ),
                        fetched,
                    ),
                Err(error) => {
                    &&& !old(ctx).journal@.state.contains_key(old(ctx).tx.caller)
                    &&& final(ctx).journal == old(ctx).journal
                    &&& made_from_some::<<<Self::Evm as EvmTr>::Db as Database>::Error, Self::Error>(error)
                },
            },
    {
        let gas = exec_result.gas();
        match post_execution::reimburse_caller(ctx, &gas, U256::zero()) {
            Ok(_) => Ok(()),
            Err(e) => {
                let ghost failure = e;
                let error = Self::Error::from(e);
                proof {
                    assert(made_from(failure, error));
                }
                Err(error)
            },
        }
    }

    /// Pays the beneficiary for the gas that counts as used: see
    /// [`post_execution::reward_beneficiary`]. It succeeds for a beneficiary
    /// in memory; a failure of the database is made into the error of the
    /// handler, and nothing has changed then.
    fn reward_beneficiary(
        &self,
        ctx: &mut Context<<Self::Evm as EvmTr>::Db>,
        exec_result: &mut FrameResult,
    ) -> (r: Result<(), Self::Error>)
        requires
            old(exec_result)@.result().gas.remaining <= old(exec_result)@.result().gas.limit,
        ensures
            old(ctx).journal@.state.contains_key(old(ctx).block.beneficiary) ==> r is Ok,
            *final(exec_result) == *old(exec_result),
            final(ctx).tx == old(ctx).tx,
            final(ctx).block == old(ctx).block,
            final(ctx).cfg == old(ctx).cfg,
            match r {
                Ok(_) => exists|fetched: Option<AccountInfoModel>|
                    final(ctx).journal@ == #[trigger] old(ctx).journal@.balance_incr(
                        old(ctx).block.beneficiary,
                        post_execution::beneficiary_reward(
                            old(ctx).cfg.spec,
                            old(exec_result)@.result().gas,
                            spec_effective_gas_price(
                                old(ctx).tx.gas_price,
                                old(ctx).tx.gas_priority_fee,
                                old(ctx).block.basefee,
                            ),
                            old(ctx).block.basefee,
                        ),
                        fetched,
                    ),
                Err(error) => {
                    &&& !old(ctx).journal@.state.contains_key(old(ctx).block.beneficiary)
                    &&& final(ctx).journal == old(ctx).journal
                    &&& made_from_some::<<<Self::Evm as EvmTr>::Db as Database>::Error, Self::Error>(error)
                },
            },
    {
        let gas = exec_result.gas();
        match post_execution::reward_beneficiary(ctx, &gas) {
            Ok(_) => Ok(()),
            Err(e) => {
                let ghost failure = e;
                let error = Self::Error::from(e);
                proof {
                    assert(made_from(failure, error));
                }
                Err(error)
            },
        }
    }

    /// Ends the transaction with a result. An error that a frame has set
    /// aside is reported in place of a result, a failure of the database as
    /// what the handler makes of it, and the journal is left as it is. Else the result is made from `result` and the logs, and the
    /// transaction is committed; the buffers of the transaction and the
    /// frames are dropped.
    fn execution_result(
        &mut self,
        evm: &mut Self::Evm,
        ctx: &mut Context<<Self::Evm as EvmTr>::Db>,
        result: FrameResult,
    ) -> (r: Result<ExecutionResult, Self::Error>)
        requires
            result@.result().gas.remaining <= result@.result().gas.limit,
        ensures
            final(ctx).error is Ok,
            (r is Ok) == (old(ctx).error is Ok),
            final(ctx).tx == old(ctx).tx,
            final(ctx).block == old(ctx).block,
            final(ctx).cfg == old(ctx).cfg,
            match r {
                Ok(produced) => {
                    &&& produced.outcome == Outcome::spec_of(result@.result().result)
                    &&& produced.gas_used == post_execution::used_gas(result@.result().gas)
                    &&& produced.gas_refunded as int == if result@.result().gas.refunded < 0 {
                        0
                    } else {
                        result@.result().gas.refunded as int
                    }
                    &&& produced.logs@ == old(ctx).journal@.logs
                    &&& produced.output@ == result@.result().output
                    &&& final(ctx).journal@ == old(ctx).journal@.commit_tx()
                    &&& nothing_pending(final(ctx).journal@)
                    &&& final(ctx).local.shared_memory_buffer@.len() == 0
                },
                Err(error) => {
                    &&& final(ctx).journal == old(ctx).journal
                    &&& final(ctx).local == old(ctx).local
                    &&& match old(ctx).error {
                        Err(ContextError::Db(failure)) => made_from(failure, error),
                        _ => true,
                    }
                },
            },
    {
        let mut deferred: Result<(), ContextError<<<Self::Evm as EvmTr>::Db as Database>::Error>> = Ok(
            (),
        );
        core::mem::swap(&mut ctx.error, &mut deferred);
        match deferred {
            Err(ContextError::Db(e)) => {
                let ghost failure = e;
                let error = Self::Error::from(e);
                proof {
                    assert(made_from(failure, error));
                }
                return Err(error);
            },
            Err(ContextError::Custom(e)) => {
                return Err(Self::Error::from_string(e));
            },
            Ok(_) => {},
        }
        let exec_result = post_execution::output(ctx, result);
        ctx.journal.commit_tx();
        ctx.local.clear();
        evm.clear_frame_stack();
        Ok(exec_result)
    }

    /// Cleans up after an error: the buffers of the transaction are
    /// dropped, the transaction is discarded, so that every journaled change
    /// is undone, and the frames are dropped. The error is handed back as
    /// it is.
    fn catch_error(
        &self,
        evm: &mut Self::Evm,
        ctx: &mut Context<<Self::Evm as EvmTr>::Db>,
        error: Self::Error,
    ) -> (r: Result<ExecutionResult, Self::Error>)
        ensures
            r matches Err(handed) && handed == error,
            final(ctx).journal@ == old(ctx).journal@.discard_tx(),
            final(ctx).journal@.state
                == undo_all(old(ctx).journal@.state, old(ctx).journal@.journal),
            nothing_pending(final(ctx).journal@),
            final(ctx).local.shared_memory_buffer@.len() == 0,
            final(ctx).tx == old(ctx).tx,
            final(ctx).block == old(ctx).block,
            final(ctx).cfg == old(ctx).cfg,
            final(ctx).error == old(ctx).error,
    {
        ctx.local.clear();
        ctx.journal.discard_tx();
        evm.clear_frame_stack();
        Err(error)
    }
}

} // verus!
