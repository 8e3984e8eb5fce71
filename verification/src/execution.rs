//! How the first frame of a transaction is asked for, and what the handler
//! does next with each answer of the frames.
use crate::context::{TxEnv, TxKind};
use crate::frame::{FrameInit, FrameResult, ItemOrResult};
use crate::interpreter::{
    CallInput, CallInputModel, CallInputs, CallInputsModel, CallScheme, CallValue, CreateInputs,
    CreateInputsModel, CreateScheme, FrameInput, FrameInputModel,
};
use crate::primitives::{copy_bytes, Address, U256};
use core::ops::Range;
use vstd::prelude::*;

verus! {

/// The request for the first frame of a transaction with `gas_limit` for
/// it. A transaction that calls an account asks for a call of that account
/// in the name of the caller, with the data as input and the value to be
/// moved; one that creates asks for a create with the data as init code.
pub open spec fn init_frame_of(
    caller: Address,
    kind: TxKind,
    value: U256,
    data: Seq<u8>,
    gas_limit: u64,
) -> FrameInputModel {
    match kind {
        TxKind::Call(target) => FrameInputModel::Call(
            CallInputsModel {
                input: CallInputModel::Bytes(data),
                return_memory_offset: Range { start: 0, end: 0 },
                gas_limit,
                bytecode_address: target,
                target_address: target,
                caller,
                value: CallValue::Transfer(value),
                scheme: CallScheme::Call,
                is_static: false,
            },
        ),
        TxKind::Create => FrameInputModel::Create(
            CreateInputsModel {
                caller,
                scheme: CreateScheme::Create,
                value,
                init_code: data,
                gas_limit,
            },
        ),
    }
}

/// Makes the request for the first frame of `tx`: see [`init_frame_of`].
pub fn create_init_frame(tx: &TxEnv, gas_limit: u64) -> (r: FrameInput)
    ensures
        r@ == init_frame_of(tx.caller, tx.kind, tx.value, tx.data@, gas_limit),
{
    let input = copy_bytes(&tx.data);
    match tx.kind {
        TxKind::Call(target_address) => FrameInput::Call(
            CallInputs {
                input: CallInput::Bytes(input),
                gas_limit,
                target_address,
                bytecode_address: target_address,
                caller: tx.caller,
                value: CallValue::Transfer(tx.value),
                scheme: CallScheme::Call,
                is_static: false,
                return_memory_offset: 0..0,
            },
        ),
        TxKind::Create => FrameInput::Create(
            CreateInputs {
                caller: tx.caller,
                scheme: CreateScheme::Create,
                value: tx.value,
                init_code: input,
                gas_limit,
            },
        ),
    }
}

/// What the frames have just answered.
pub enum FrameEvent {
    /// The start of a frame gave this.
    Started(ItemOrResult<(), FrameResult>),
    /// The run of the topmost frame gave this.
    Ran(ItemOrResult<FrameInit, FrameResult>),
    /// Handing a result to the frame below gave this.
    Returned(Option<FrameResult>),
}

/// What the handler asks of the frames next.
pub enum FrameAction {
    /// Run the topmost frame.
    Run,
    /// Start the frame that this asks for.
    Start(FrameInit),
    /// Hand this result to the frame below the one that ended.
    Return(FrameResult),
    /// Nothing more: this is the result of the first frame.
    Done(FrameResult),
}

/// What follows on `event`. A frame that was started is run. A start
/// that gave a result at once has started no frame: for the first frame
/// that result ends the loop, for a child it is handed to the frame that
/// asked. A frame that asks for a child has the child started, one that
/// ends has its result handed to the frame below; where no frame is left
/// below, the result ends the loop, else the frame below is run.
pub open spec fn next_frame_action(event: FrameEvent, is_first: bool) -> FrameAction {
    match event {
        FrameEvent::Started(ItemOrResult::Item(_)) => FrameAction::Run,
        FrameEvent::Started(ItemOrResult::Result(result)) => if is_first {
            FrameAction::Done(result)
        } else {
            FrameAction::Return(result)
        },
        FrameEvent::Ran(ItemOrResult::Item(init)) => FrameAction::Start(init),
        FrameEvent::Ran(ItemOrResult::Result(result)) => FrameAction::Return(result),
        FrameEvent::Returned(Some(result)) => FrameAction::Done(result),
        FrameEvent::Returned(None) => FrameAction::Run,
    }
}

/// Decides what follows on `event`: see [`next_frame_action`]. `is_first`
/// says whether the event is the start of the first frame.
pub fn frame_loop_step(event: FrameEvent, is_first: bool) -> (r: FrameAction)
    ensures
        r == next_frame_action(event, is_first),
{
    match event {
        FrameEvent::Started(ItemOrResult::Item(_)) => FrameAction::Run,
        FrameEvent::Started(ItemOrResult::Result(result)) => if is_first {
            FrameAction::Done(result)
        } else {
            FrameAction::Return(result)
        },
        FrameEvent::Ran(ItemOrResult::Item(init)) => FrameAction::Start(init),
        FrameEvent::Ran(ItemOrResult::Result(result)) => FrameAction::Return(result),
        FrameEvent::Returned(Some(result)) => FrameAction::Done(result),
        FrameEvent::Returned(None) => FrameAction::Run,
    }
}

} // verus!
