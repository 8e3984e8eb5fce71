//! What a transaction runs in: the transaction itself, the block, the
//! configuration, the journal and the database.
use crate::database::Database;
use crate::interpreter::Host;
use crate::journal::{JournalInner, StateLoad};
use crate::journal_model::AccountLoad;
use crate::state::{AccountInfoModel, BytecodeModel};
use crate::primitives::{Address, SpecId, StorageKey, U256};
use vstd::prelude::*;

verus! {

/// Whether a transaction calls an account or creates one.
#[derive(Clone, Copy, Debug, PartialEq, Eq, Structural, Hash)]
pub enum TxKind {
    Create,
    Call(Address),
}

/// An account, and slots of it, that a transaction declares it will
/// access.
#[derive(Clone, Debug)]
pub struct AccessListItem {
    pub address: Address,
    pub storage_keys: Vec<StorageKey>,
}

/// A transaction.
#[derive(Clone, Debug)]
pub struct TxEnv {
    /// The account that sends the transaction and pays for it.
    pub caller: Address,
    pub gas_limit: u64,
    /// The most that the caller pays for each unit of gas.
    pub gas_price: u128,
    /// The most that the caller pays the beneficiary for each unit of gas on
    /// top of the base fee; `None` for a transaction that names one price.
    pub gas_priority_fee: Option<u128>,
    pub kind: TxKind,
    pub value: U256,
    pub data: Vec<u8>,
    pub nonce: u64,
    pub access_list: Vec<AccessListItem>,
}

/// The block that the transaction is part of.
#[derive(Clone, Copy, Debug, PartialEq, Eq, Structural, Hash)]
pub struct BlockEnv {
    /// The account that is paid for including the transaction.
    pub beneficiary: Address,
    /// The part of the price of gas that is burnt.
    pub basefee: u64,
}

/// The most bytes that the code of a contract may have, unless the
/// configuration says otherwise.
pub const MAX_CODE_SIZE: usize = 0x6000;

/// How the executor is set up.
#[derive(Clone, Copy, Debug, PartialEq, Eq, Structural, Hash)]
pub struct CfgEnv {
    pub spec: SpecId,
    /// The nonce of the transaction is not held against that of the caller.
    pub disable_nonce_check: bool,
    /// The most bytes that the code of a contract may have; `None` for
    /// `MAX_CODE_SIZE`.
    pub limit_contract_code_size: Option<usize>,
}

impl CfgEnv {
    /// The most bytes that init code may have: twice the most that the
    /// code of a contract may have, capped at `usize::MAX`.
    pub open spec fn spec_max_initcode_size(&self) -> usize {
        let max_code_size = match self.limit_contract_code_size {
            Some(limit) => limit,
            None => MAX_CODE_SIZE,
        };
        if 2 * max_code_size > usize::MAX {
            usize::MAX
        } else {
            (2 * max_code_size) as usize
        }
    }

    /// The most bytes that init code may have.
    #[verifier::when_used_as_spec(spec_max_initcode_size)]
    pub fn max_initcode_size(&self) -> (r: usize)
        ensures
            r == self.spec_max_initcode_size(),
    {
        let max_code_size = match self.limit_contract_code_size {
            Some(limit) => limit,
            None => MAX_CODE_SIZE,
        };
        if max_code_size > usize::MAX / 2 {
            usize::MAX
        } else {
            2 * max_code_size
        }
    }
}

/// What lasts for one transaction besides the journal.
#[derive(Clone, Debug)]
pub struct LocalContext {
    /// The buffer that the frames use as their shared memory.
    pub shared_memory_buffer: Vec<u8>,
}

impl LocalContext {
    /// Forgets what the transaction left.
    pub fn clear(&mut self)
        ensures
            final(self).shared_memory_buffer@.len() == 0,
    {
        self.shared_memory_buffer.clear();
    }
}

/// An error that was set aside while frames ran.
#[derive(Debug)]
pub enum ContextError<DbError> {
    /// The database failed.
    Db(DbError),
    /// The embedding reported an error of its own.
    Custom(String),
}

/// Everything that a transaction runs in.
pub struct Context<DB: Database> {
    pub journal: JournalInner,
    pub db: DB,
    pub tx: TxEnv,
    pub block: BlockEnv,
    pub cfg: CfgEnv,
    pub local: LocalContext,
    /// An error that a frame has set aside, to be reported at the end.
    pub error: Result<(), ContextError<DB::Error>>,
}

impl<DB: Database> Host for Context<DB> {
    /// Loads `address` for a call through the journal. Where the database
    /// fails, the error is set aside in the context, in place of whatever was
    /// set aside before, and `None` is handed back.
    fn load_account_delegated(&mut self, address: Address) -> (r: Option<StateLoad<AccountLoad>>)
        ensures
            old(self).journal@.load_for_call_asks_nothing(address) ==> r is Some,
            final(self).tx == old(self).tx,
            final(self).block == old(self).block,
            final(self).cfg == old(self).cfg,
            match r {
                Some(load) => final(self).error == old(self).error && exists|
                    fetched: Option<AccountInfoModel>,
                    fetched_code: BytecodeModel,
                    fetched_delegate: Option<AccountInfoModel>,
                |
                    {
                        &&& final(self).journal@ == #[trigger] old(self).journal@.load_account_delegated(
                            address,
                            fetched,
                            fetched_code,
                            fetched_delegate,
                        )
                        &&& (load.data, load.is_cold) == old(self).journal@.load_account_delegated_result(address, fetched, fetched_code)
                    },
                None => final(self).error matches Err(ContextError::Db(_)),
            },
    {
        match self.journal.load_account_delegated(&mut self.db, address) {
            Ok(load) => Some(load),
            Err(e) => {
                self.error = Err(ContextError::Db(e));
                None
            },
        }
    }

    /// The most bytes that init code may have, as the configuration says.
    fn max_initcode_size(&self) -> (r: usize)
        ensures
            r == self.cfg.spec_max_initcode_size(),
    {
        self.cfg.max_initcode_size()
    }
}

/// The price that the caller pays for each unit of gas: the price that the
/// transaction names or, where it names a priority fee, the base fee and
/// the priority fee together if that is less.
pub open spec fn spec_effective_gas_price(tx_gas_price: u128, priority_fee: Option<u128>, basefee: u64) -> u128 {
    match priority_fee {
        None => tx_gas_price,
        Some(fee) => if basefee + fee < tx_gas_price {
            (basefee + fee) as u128
        } else {
            tx_gas_price
        },
    }
}

impl TxEnv {
    /// The price that the caller pays for each unit of gas.
    pub fn effective_gas_price(&self, basefee: u64) -> (r: u128)
        ensures
            r == spec_effective_gas_price(self.gas_price, self.gas_priority_fee, basefee),
    {
        match self.gas_priority_fee {
            None => self.gas_price,
            Some(fee) => {
                let capped = match (basefee as u128).checked_add(fee) {
                    Some(sum) => sum,
                    None => u128::MAX,
                };
                if capped < self.gas_price {
                    capped
                } else {
                    self.gas_price
                }
            },
        }
    }
}

} // verus!
