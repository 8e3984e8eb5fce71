//! The store that accounts, code and storage are fetched from.
use crate::primitives::{Address, StorageKey, StorageValue, B256};
use crate::state::{AccountInfo, Bytecode};
use vstd::prelude::*;

verus! {

/// A source of accounts, code and storage words. The journal only reads
/// from it, and asks for nothing that it already holds in memory. Each
/// query may fail, and nothing is assumed of what one answers.
pub trait Database {
    /// What a failed query reports.
    type Error;

    /// The account at `address`, or `None` where there is none.
    fn basic(&mut self, address: Address) -> Result<Option<AccountInfo>, Self::Error>;

    /// The code with hash `code_hash`.
    fn code_by_hash(&mut self, code_hash: B256) -> Result<Bytecode, Self::Error>;

    /// The word at `index` in the storage of `address`.
    fn storage(&mut self, address: Address, index: StorageKey) -> Result<StorageValue, Self::Error>;
}

} // verus!
