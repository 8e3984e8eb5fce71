//! The checks that a transaction passes before any state is loaded.
use crate::result::{InitialAndFloorGas, InvalidTransaction};
use vstd::prelude::*;

verus! {

/// Why the gas limit of a transaction does not cover `gas`, if it does not:
/// it is below the cost before the run, or else below the least cost.
pub open spec fn initial_tx_gas_error(gas_limit: u64, gas: InitialAndFloorGas) -> Option<
    InvalidTransaction,
> {
    if gas_limit < gas.initial_gas {
        Some(
            InvalidTransaction::CallGasCostMoreThanGasLimit {
                initial_gas: gas.initial_gas,
                gas_limit,
            },
        )
    } else if gas_limit < gas.floor_gas {
        Some(InvalidTransaction::GasFloorMoreThanGasLimit { gas_floor: gas.floor_gas, gas_limit })
    } else {
        None
    }
}

/// Holds the gas limit of a transaction against the cost before the run and
/// the least cost, and hands both on where the limit covers them.
pub fn validate_initial_tx_gas(gas_limit: u64, gas: InitialAndFloorGas) -> (r: Result<
    InitialAndFloorGas,
    InvalidTransaction,
>)
    ensures
        r == match initial_tx_gas_error(gas_limit, gas) {
            Some(error) => Err::<InitialAndFloorGas, InvalidTransaction>(error),
            None => Ok(gas),
        },
{
    if gas_limit < gas.initial_gas {
        return Err(
            InvalidTransaction::CallGasCostMoreThanGasLimit {
                initial_gas: gas.initial_gas,
                gas_limit,
            },
        );
    }
    if gas_limit < gas.floor_gas {
        return Err(
            InvalidTransaction::GasFloorMoreThanGasLimit { gas_floor: gas.floor_gas, gas_limit },
        );
    }
    Ok(gas)
}

} // verus!
