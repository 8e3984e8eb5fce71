//! What passes between the handler and the frames that it drives.
use crate::gas::Gas;
use crate::interpreter::{FrameInput, InterpreterResult, InterpreterResultModel, SharedMemory};
use crate::primitives::Address;
use core::ops::Range;
use vstd::prelude::*;

verus! {

/// Either something to go on with or the result that ends the work.
#[derive(Debug)]
pub enum ItemOrResult<ITEM, RES> {
    Item(ITEM),
    Result(RES),
}

/// What a new frame starts from.
#[derive(Debug)]
pub struct FrameInit {
    /// How many frames are below the new one.
    pub depth: usize,
    pub memory: SharedMemory,
    pub frame_input: FrameInput,
}

/// What a call frame ended in.
#[derive(Debug)]
pub struct CallOutcome {
    pub result: InterpreterResult,
    /// Where in the caller's memory the output goes.
    pub memory_offset: Range<usize>,
}

/// What a create frame ended in.
#[derive(Debug)]
pub struct CreateOutcome {
    pub result: InterpreterResult,
    /// The address of the new contract, where one was made.
    pub address: Option<Address>,
}

/// What a frame ended in.
#[derive(Debug)]
pub enum FrameResult {
    Call(CallOutcome),
    Create(CreateOutcome),
}

/// What a [`FrameResult`] holds.
pub enum FrameResultModel {
    Call { result: InterpreterResultModel, memory_offset: Range<usize> },
    Create { result: InterpreterResultModel, address: Option<Address> },
}

impl FrameResultModel {
    /// How the frame ended, what it returned and what gas it has left.
    pub open spec fn result(self) -> InterpreterResultModel {
        match self {
            FrameResultModel::Call { result, .. } => result,
            FrameResultModel::Create { result, .. } => result,
        }
    }

    /// The same frame result with another gas meter.
    pub open spec fn with_gas(self, gas: Gas) -> FrameResultModel {
        match self {
            FrameResultModel::Call { result, memory_offset } => FrameResultModel::Call {
                result: InterpreterResultModel { gas, ..result },
                memory_offset,
            },
            FrameResultModel::Create { result, address } => FrameResultModel::Create {
                result: InterpreterResultModel { gas, ..result },
                address,
            },
        }
    }
}

impl View for FrameResult {
    type V = FrameResultModel;

    open spec fn view(&self) -> FrameResultModel {
        match self {
            FrameResult::Call(outcome) => FrameResultModel::Call {
                result: outcome.result@,
                memory_offset: outcome.memory_offset,
            },
            FrameResult::Create(outcome) => FrameResultModel::Create {
                result: outcome.result@,
                address: outcome.address,
            },
        }
    }
}

impl FrameResult {
    /// How the frame ended, what it returned and what gas it has left.
    pub fn interpreter_result(&self) -> (r: &InterpreterResult)
        ensures
            r@ == self@.result(),
    {
        match self {
            FrameResult::Call(outcome) => &outcome.result,
            FrameResult::Create(outcome) => &outcome.result,
        }
    }

    /// The gas meter of the frame.
    pub fn gas(&self) -> (r: Gas)
        ensures
            r == self@.result().gas,
    {
        match self {
            FrameResult::Call(outcome) => outcome.result.gas,
            FrameResult::Create(outcome) => outcome.result.gas,
        }
    }

    /// The gas meter of the frame, to be changed in place.
    pub fn gas_mut(&mut self) -> (r: &mut Gas)
        ensures
            *r == old(self)@.result().gas,
            final(self)@ == old(self)@.with_gas(*final(r)),
    {
        match self {
            FrameResult::Call(outcome) => &mut outcome.result.gas,
            FrameResult::Create(outcome) => &mut outcome.result.gas,
        }
    }

    /// Replaces the gas meter of the frame.
    pub fn set_gas(&mut self, gas: Gas)
        ensures
            final(self)@ == old(self)@.with_gas(gas),
    {
        match self {
            FrameResult::Call(outcome) => {
                outcome.result.gas = gas;
            },
            FrameResult::Create(outcome) => {
                outcome.result.gas = gas;
            },
        }
    }

    /// The bytes that the frame returned.
    pub fn into_output(self) -> (r: Vec<u8>)
        ensures
            r@ == self@.result().output,
    {
        match self {
            FrameResult::Call(outcome) => outcome.result.output,
            FrameResult::Create(outcome) => outcome.result.output,
        }
    }
}

} // verus!
