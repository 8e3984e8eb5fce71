//! What a transaction ends in: a result, or one of the errors that stop
//! it.
use crate::interpreter::InstructionResult;
use crate::primitives::{EvmLog, U256};
use vstd::prelude::*;

verus! {

/// The gas that a transaction costs before it runs, and the least that it
/// costs in the end.
#[derive(Clone, Copy, Debug, PartialEq, Eq, Structural, Hash)]
pub struct InitialAndFloorGas {
    pub initial_gas: u64,
    pub floor_gas: u64,
}

impl InitialAndFloorGas {
    /// Pairs the cost before the run with the least cost.
    pub fn new(initial_gas: u64, floor_gas: u64) -> (r: InitialAndFloorGas)
        ensures
            r == (InitialAndFloorGas { initial_gas, floor_gas }),
    {
        InitialAndFloorGas { initial_gas, floor_gas }
    }
}

/// Why a transaction is not run.
#[derive(Clone, Copy, Debug, PartialEq, Eq, Structural, Hash)]
pub enum InvalidTransaction {
    /// The gas limit does not cover the cost before the run.
    CallGasCostMoreThanGasLimit { initial_gas: u64, gas_limit: u64 },
    /// The gas limit does not cover the least cost.
    GasFloorMoreThanGasLimit { gas_floor: u64, gas_limit: u64 },
    /// The caller cannot pay the highest fee and the value.
    LackOfFundForMaxFee { fee: U256, balance: U256 },
    /// The highest fee and the value together pass `2^256 - 1`.
    OverflowPaymentInTransaction,
    /// The nonce of the caller cannot go up.
    NonceOverflowInTransaction,
    NonceTooHigh { tx: u64, state: u64 },
    NonceTooLow { tx: u64, state: u64 },
}

/// Why a block is not accepted.
#[derive(Clone, Copy, Debug, PartialEq, Eq, Structural, Hash)]
pub enum InvalidHeader {
    PrevrandaoNotSet,
    ExcessBlobGasNotSet,
}

/// An error that can be made from a message.
pub trait FromStringError: Sized {
    fn from_string(value: String) -> Self;
}

/// How a transaction ended.
#[derive(Clone, Copy, Debug, PartialEq, Eq, Structural, Hash)]
pub enum Outcome {
    Success,
    Revert,
    /// The run stopped on an error of the instruction named.
    Halt(InstructionResult),
}

impl Outcome {
    /// The outcome that the result of the first frame stands for.
    pub open spec fn spec_of(result: InstructionResult) -> Outcome {
        if result.spec_is_ok() {
            Outcome::Success
        } else if result == InstructionResult::Revert {
            Outcome::Revert
        } else {
            Outcome::Halt(result)
        }
    }

    /// The outcome that the result of the first frame stands for.
    #[verifier::when_used_as_spec(spec_of)]
    pub fn of(result: InstructionResult) -> (r: Outcome)
        ensures
            r == Self::spec_of(result),
    {
        if result.is_ok() {
            Outcome::Success
        } else {
            match result {
                InstructionResult::Revert => Outcome::Revert,
                _ => Outcome::Halt(result),
            }
        }
    }
}

/// What a transaction that ran has produced.
#[derive(Debug)]
pub struct ExecutionResult {
    pub outcome: Outcome,
    /// The gas that the caller pays for.
    pub gas_used: u64,
    pub gas_refunded: u64,
    pub logs: Vec<EvmLog>,
    pub output: Vec<u8>,
}

} // verus!
