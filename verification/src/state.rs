//! Accounts, their code and their storage, with the mathematical model of each.
use crate::primitives::{
    copy_bytes, keccak256, keccak256_bytes, Address, SpecId, StorageKey, StorageValue, B256, U256,
};
use crate::vec_map::{SlotId, VecMap};
use vstd::prelude::*;

verus! {

/// The code of an account.
#[derive(Clone, Debug)]
pub enum Bytecode {
    /// No code at all.
    Empty,
    /// Plain EVM code.
    Raw(Vec<u8>),
    /// A pointer to the account whose code runs in place of this one's.
    Eip7702 { delegate: Address },
}

/// What a [`Bytecode`] holds.
pub enum BytecodeModel {
    Empty,
    Raw(Seq<u8>),
    Eip7702 { delegate: Address },
}

/// The three bytes that open the code of a delegating account.
pub open spec fn delegation_prefix() -> Seq<u8> {
    seq![0xefu8, 0x01u8, 0x00u8]
}

impl BytecodeModel {
    /// The bytes that the code is stored as and hashed over.
    pub open spec fn original_bytes(self) -> Seq<u8> {
        match self {
            BytecodeModel::Empty => Seq::empty(),
            BytecodeModel::Raw(bytes) => bytes,
            BytecodeModel::Eip7702 { delegate } => delegation_prefix() + delegate.be_bytes(),
        }
    }

    /// The hash of the code: the empty-code hash for code of no bytes, else
    /// the Keccak-256 digest of its bytes.
    pub open spec fn code_hash(self) -> B256 {
        if self.original_bytes().len() == 0 {
            B256::spec_keccak_empty()
        } else {
            B256::from_be_bytes_spec(keccak256_bytes(self.original_bytes()))
        }
    }
}

impl View for Bytecode {
    type V = BytecodeModel;

    open spec fn view(&self) -> BytecodeModel {
        match self {
            Bytecode::Empty => BytecodeModel::Empty,
            Bytecode::Raw(bytes) => BytecodeModel::Raw(bytes@),
            Bytecode::Eip7702 { delegate } => BytecodeModel::Eip7702 { delegate: *delegate },
        }
    }
}

impl Bytecode {
    /// The bytes that the code is stored as and hashed over.
    pub fn original_bytes(&self) -> (r: Vec<u8>)
        ensures
            r@ == self@.original_bytes(),
    {
        match self {
            Bytecode::Empty => Vec::new(),
            Bytecode::Raw(bytes) => copy_bytes(bytes),
            Bytecode::Eip7702 { delegate } => {
                let mut out: Vec<u8> = Vec::new();
                out.push(0xef);
                out.push(0x01);
                out.push(0x00);
                assert(out@ =~= delegation_prefix());
                let mut tail = delegate.to_be_bytes();
                out.append(&mut tail);
                out
            },
        }
    }

    /// Whether the code has no bytes.
    pub fn is_empty(&self) -> (r: bool)
        ensures
            r == (self@.original_bytes().len() == 0),
    {
        match self {
            Bytecode::Empty => true,
            Bytecode::Raw(bytes) => bytes.len() == 0,
            Bytecode::Eip7702 { .. } => false,
        }
    }

    /// Computes the hash of the code.
    pub fn hash_slow(&self) -> (r: B256)
        ensures
            r == self@.code_hash(),
    {
        if self.is_empty() {
            B256::keccak_empty()
        } else {
            let bytes = self.original_bytes();
            keccak256(bytes.as_slice())
        }
    }
}

/// Balance, nonce and code of an account.
#[derive(Clone, Debug)]
pub struct AccountInfo {
    pub balance: U256,
    pub nonce: u64,
    /// Hash of the code; the empty-code hash where there is none.
    pub code_hash: B256,
    /// The code, where it has been fetched.
    pub code: Option<Bytecode>,
}

/// What an [`AccountInfo`] holds.
pub struct AccountInfoModel {
    pub balance: U256,
    pub nonce: u64,
    pub code_hash: B256,
    pub code: Option<BytecodeModel>,
}

impl AccountInfoModel {
    /// The info of an account that nothing is known of: no balance, nonce
    /// zero, present but empty code.
    pub open spec fn empty() -> AccountInfoModel {
        AccountInfoModel {
            balance: U256::spec_zero(),
            nonce: 0,
            code_hash: B256::spec_keccak_empty(),
            code: Some(BytecodeModel::Empty),
        }
    }

    /// No balance, nonce zero, and no code.
    pub open spec fn is_empty(self) -> bool {
        (self.code_hash == B256::spec_keccak_empty() || self.code_hash == B256::spec_zero())
            && self.balance == U256::spec_zero() && self.nonce == 0
    }
}

impl View for AccountInfo {
    type V = AccountInfoModel;

    open spec fn view(&self) -> AccountInfoModel {
        AccountInfoModel {
            balance: self.balance,
            nonce: self.nonce,
            code_hash: self.code_hash,
            code: match self.code {
                Some(code) => Some(code@),
                None => None,
            },
        }
    }
}

/// What the database has for an account, as a model.
pub open spec fn info_model(fetched: Option<AccountInfo>) -> Option<AccountInfoModel> {
    match fetched {
        Some(info) => Some(info@),
        None => None,
    }
}

impl AccountInfo {
    /// No balance, nonce zero, and no code.
    pub fn is_empty(&self) -> (r: bool)
        ensures
            r == self@.is_empty(),
    {
        (self.code_hash == B256::keccak_empty() || self.code_hash.is_zero())
            && self.balance.is_zero() && self.nonce == 0
    }
}

impl Default for AccountInfo {
    fn default() -> (r: AccountInfo)
        ensures
            r@ == AccountInfoModel::empty(),
    {
        AccountInfo {
            balance: U256::zero(),
            nonce: 0,
            code_hash: B256::keccak_empty(),
            code: Some(Bytecode::Empty),
        }
    }
}

/// The marks that an account carries. "Locally" means within the current
/// transaction, "globally" across all transactions since the state was last
/// handed out.
#[derive(Clone, Copy, Debug, PartialEq, Eq, Structural, Hash)]
pub struct AccountStatus {
    /// The account was changed, or looked at in a way that counts as a change.
    pub touched: bool,
    pub created_locally: bool,
    pub created_globally: bool,
    pub selfdestructed_locally: bool,
    pub selfdestructed_globally: bool,
    /// The database had no such account when it was loaded.
    pub not_existing: bool,
    /// The warming of the account was undone within the current transaction.
    pub cold: bool,
}

impl AccountStatus {
    pub open spec fn spec_empty() -> AccountStatus {
        AccountStatus {
            touched: false,
            created_locally: false,
            created_globally: false,
            selfdestructed_locally: false,
            selfdestructed_globally: false,
            not_existing: false,
            cold: false,
        }
    }

    /// No mark set.
    #[verifier::when_used_as_spec(spec_empty)]
    pub fn empty() -> (r: AccountStatus)
        ensures
            r == Self::spec_empty(),
    {
        AccountStatus {
            touched: false,
            created_locally: false,
            created_globally: false,
            selfdestructed_locally: false,
            selfdestructed_globally: false,
            not_existing: false,
            cold: false,
        }
    }
}

/// One word of an account's storage.
#[derive(Clone, Copy, Debug, PartialEq, Eq, Structural, Hash)]
pub struct StorageSlot {
    /// The value when the current transaction first touched the slot.
    pub original_value: StorageValue,
    /// The value now.
    pub present_value: StorageValue,
    /// The transaction that touched the slot last.
    pub last_touched_tx: usize,
}

impl StorageSlot {
    pub open spec fn spec_new(value: StorageValue, transaction_id: usize) -> StorageSlot {
        StorageSlot { original_value: value, present_value: value, last_touched_tx: transaction_id }
    }

    /// An unchanged slot that holds `value` and was touched by `transaction_id`.
    #[verifier::when_used_as_spec(spec_new)]
    pub fn new(value: StorageValue, transaction_id: usize) -> (r: StorageSlot)
        ensures
            r == Self::spec_new(value, transaction_id),
    {
        StorageSlot { original_value: value, present_value: value, last_touched_tx: transaction_id }
    }

    /// Whether a touch by `transaction_id` is the first that this transaction
    /// makes.
    pub open spec fn is_cold_for(self, transaction_id: usize) -> bool {
        self.last_touched_tx != transaction_id
    }

    /// The slot after a touch by `transaction_id`: on the first touch of a
    /// transaction the value found becomes the original value.
    pub open spec fn warmed(self, transaction_id: usize) -> StorageSlot {
        if self.is_cold_for(transaction_id) {
            StorageSlot::spec_new(self.present_value, transaction_id)
        } else {
            self
        }
    }

    /// Marks the slot as touched by `transaction_id` and says whether this
    /// was the first touch of that transaction.
    pub fn mark_warm_with_transaction_id(&mut self, transaction_id: usize) -> (is_cold: bool)
        ensures
            is_cold == old(self).is_cold_for(transaction_id),
            *final(self) == old(self).warmed(transaction_id),
    {
        let is_cold = self.last_touched_tx != transaction_id;
        if is_cold {
            self.original_value = self.present_value;
            self.last_touched_tx = transaction_id;
        }
        is_cold
    }
}

/// The storage of one account.
pub type EvmStorage = VecMap<StorageKey, StorageSlot>;

/// The accounts that are held in memory.
pub type EvmState = VecMap<Address, Account>;

/// Storage that lasts for one transaction only.
pub type TransientStorage = VecMap<SlotId, StorageValue>;

/// An account as the journal holds it.
#[derive(Clone, Debug)]
pub struct Account {
    pub info: AccountInfo,
    pub storage: EvmStorage,
    pub status: AccountStatus,
    /// The transaction that loaded or touched the account last.
    pub last_touched_tx: usize,
}

/// What an [`Account`] holds.
pub struct AccountModel {
    pub info: AccountInfoModel,
    pub storage: Map<StorageKey, StorageSlot>,
    pub status: AccountStatus,
    pub last_touched_tx: usize,
}

/// What an [`EvmState`] holds.
pub type StateModel = Map<Address, AccountModel>;

impl View for Account {
    type V = AccountModel;

    open spec fn view(&self) -> AccountModel {
        AccountModel {
            info: self.info@,
            storage: self.storage@,
            status: self.status,
            last_touched_tx: self.last_touched_tx,
        }
    }
}

/// The model of each account of `state`.
pub open spec fn state_model(state: Map<Address, Account>) -> StateModel {
    state.map_values(|account: Account| account@)
}

/// Putting an account into a state puts its model into the model of the
/// state.
pub proof fn lemma_state_model_insert(state: Map<Address, Account>, address: Address, account: Account)
    ensures
        state_model(state.insert(address, account)) == state_model(state).insert(address, account@),
{
    assert(state_model(state.insert(address, account)) =~= state_model(state).insert(
        address,
        account@,
    ));
}

/// The model of a state has the accounts of the state, each as its model.
pub proof fn lemma_state_model_dom(state: Map<Address, Account>)
    ensures
        forall|address: Address| #[trigger]
            state_model(state).contains_key(address) == state.contains_key(address),
        forall|address: Address|
            state.contains_key(address) ==> #[trigger] state_model(state)[address]
                == state[address]@,
{
}

/// The model of the empty state is empty.
pub proof fn lemma_state_model_empty()
    ensures
        state_model(Map::empty()) == Map::<Address, AccountModel>::empty(),
{
    assert(state_model(Map::empty()) =~= Map::<Address, AccountModel>::empty());
}

impl AccountModel {
    /// The account that stands for an address that the database does not
    /// have.
    pub open spec fn not_existing(transaction_id: usize) -> AccountModel {
        AccountModel {
            info: AccountInfoModel::empty(),
            storage: Map::empty(),
            status: AccountStatus { not_existing: true, ..AccountStatus::spec_empty() },
            last_touched_tx: transaction_id,
        }
    }

    /// The account as it is when the database has just handed out `info`.
    pub open spec fn from_info(info: AccountInfoModel, transaction_id: usize) -> AccountModel {
        AccountModel {
            info,
            storage: Map::empty(),
            status: AccountStatus::spec_empty(),
            last_touched_tx: transaction_id,
        }
    }

    /// The account that a load inserts for what the database answered.
    pub open spec fn loaded(fetched: Option<AccountInfoModel>, transaction_id: usize)
        -> AccountModel {
        match fetched {
            Some(info) => Self::from_info(info, transaction_id),
            None => Self::not_existing(transaction_id),
        }
    }

    pub open spec fn with_status(self, status: AccountStatus) -> AccountModel {
        AccountModel { status, ..self }
    }

    pub open spec fn with_info(self, info: AccountInfoModel) -> AccountModel {
        AccountModel { info, ..self }
    }

    pub open spec fn with_balance(self, balance: U256) -> AccountModel {
        AccountModel { info: AccountInfoModel { balance, ..self.info }, ..self }
    }

    pub open spec fn with_nonce(self, nonce: u64) -> AccountModel {
        AccountModel { info: AccountInfoModel { nonce, ..self.info }, ..self }
    }

    pub open spec fn with_code(self, code: Option<BytecodeModel>) -> AccountModel {
        AccountModel { info: AccountInfoModel { code, ..self.info }, ..self }
    }

    pub open spec fn with_storage(self, storage: Map<StorageKey, StorageSlot>) -> AccountModel {
        AccountModel { storage, ..self }
    }

    pub open spec fn touched(self) -> AccountModel {
        self.with_status(AccountStatus { touched: true, ..self.status })
    }

    pub open spec fn untouched(self) -> AccountModel {
        self.with_status(AccountStatus { touched: false, ..self.status })
    }

    pub open spec fn marked_cold(self) -> AccountModel {
        self.with_status(AccountStatus { cold: true, ..self.status })
    }

    /// Whether a load by `transaction_id` counts as the first of that
    /// transaction.
    pub open spec fn is_cold_for(self, transaction_id: usize) -> bool {
        self.last_touched_tx != transaction_id || self.status.cold
    }

    /// The account with the cold mark gone and `transaction_id` recorded.
    pub open spec fn marked_warm(self, transaction_id: usize) -> AccountModel {
        AccountModel {
            status: AccountStatus { cold: false, ..self.status },
            last_touched_tx: transaction_id,
            ..self
        }
    }

    /// The account with its storage and info wiped, as a destroyed account
    /// is found by the next transaction.
    pub open spec fn wiped(self) -> AccountModel {
        AccountModel { info: AccountInfoModel::empty(), storage: Map::empty(), ..self }
    }

    /// The account after a load by `transaction_id` found it in memory. On
    /// the first load of a transaction the marks that the transaction before
    /// left are cleared, and an account that it destroyed is wiped.
    pub open spec fn reloaded(self, transaction_id: usize) -> AccountModel {
        let warm = self.marked_warm(transaction_id);
        if self.is_cold_for(transaction_id) {
            let cleared = if warm.status.selfdestructed_locally {
                warm.wiped()
            } else {
                warm
            };
            cleared.with_status(
                AccountStatus {
                    selfdestructed_locally: false,
                    created_locally: false,
                    ..cleared.status
                },
            )
        } else {
            warm
        }
    }

    /// The account with both creation marks set.
    pub open spec fn marked_created_locally(self) -> AccountModel {
        self.with_status(
            AccountStatus { created_locally: true, created_globally: true, ..self.status },
        )
    }

    /// The account with both destruction marks set.
    pub open spec fn marked_selfdestructed_locally(self) -> AccountModel {
        self.with_status(
            AccountStatus {
                selfdestructed_locally: true,
                selfdestructed_globally: true,
                ..self.status
            },
        )
    }

    /// Whether a load of slot `key` by `transaction_id` counts as cold: the
    /// slot is not in memory, or this transaction has not touched it yet.
    pub open spec fn slot_is_cold(self, key: StorageKey, transaction_id: usize) -> bool {
        !self.storage.contains_key(key) || self.storage[key].is_cold_for(transaction_id)
    }

    /// Whether a load of slot `key` asks the database: the slot is not in
    /// memory and the account was not created in this transaction.
    pub open spec fn slot_asks_database(self, key: StorageKey) -> bool {
        !self.storage.contains_key(key) && !self.status.created_locally
    }

    /// The value that a load of slot `key` finds; `fetched` is what the
    /// database has for the slot. A slot in memory has its present value; a
    /// slot of an account created in this transaction is zero; any other has
    /// what the database has.
    pub open spec fn slot_value(self, key: StorageKey, fetched: StorageValue) -> StorageValue {
        if self.storage.contains_key(key) {
            self.storage[key].present_value
        } else if self.status.created_locally {
            U256::spec_zero()
        } else {
            fetched
        }
    }

    /// The account after a load of slot `key` by `transaction_id`.
    pub open spec fn with_slot_loaded(
        self,
        key: StorageKey,
        transaction_id: usize,
        fetched: StorageValue,
    ) -> AccountModel {
        let slot = if self.storage.contains_key(key) {
            self.storage[key].warmed(transaction_id)
        } else {
            StorageSlot::spec_new(self.slot_value(key, fetched), transaction_id)
        };
        self.with_storage(self.storage.insert(key, slot))
    }

    /// The account after `new` is written to slot `key`, which is in memory.
    pub open spec fn with_slot_written(self, key: StorageKey, new: StorageValue) -> AccountModel {
        self.with_storage(
            self.storage.insert(key, StorageSlot { present_value: new, ..self.storage[key] }),
        )
    }

    /// Whether the account counts as empty under `spec`: from Spurious Dragon
    /// on an account without balance, nonce and code; before it an account
    /// that the database did not have and that nothing has touched.
    pub open spec fn state_clear_aware_is_empty(self, spec: SpecId) -> bool {
        if spec.is_enabled_in(SpecId::SPURIOUS_DRAGON) {
            self.info.is_empty()
        } else {
            self.status.not_existing && !self.status.touched
        }
    }
}

impl Account {
    /// The account that stands for an address that the database does not
    /// have.
    pub fn new_not_existing(transaction_id: usize) -> (r: Account)
        ensures
            r@ == AccountModel::not_existing(transaction_id),
    {
        let mut status = AccountStatus::empty();
        status.not_existing = true;
        Account {
            info: AccountInfo::default(),
            storage: VecMap::new(),
            status,
            last_touched_tx: transaction_id,
        }
    }

    /// The account as it is when the database has just handed out `info`.
    pub fn from_info(info: AccountInfo, transaction_id: usize) -> (r: Account)
        ensures
            r@ == AccountModel::from_info(info@, transaction_id),
    {
        Account {
            info,
            storage: VecMap::new(),
            status: AccountStatus::empty(),
            last_touched_tx: transaction_id,
        }
    }

    /// Whether the touched mark is raised.
    pub fn is_touched(&self) -> (r: bool)
        ensures
            r == self@.status.touched,
    {
        self.status.touched
    }

    /// Raises the touched mark.
    pub fn mark_touch(&mut self)
        ensures
            final(self)@ == old(self)@.touched(),
    {
        self.status.touched = true;
    }

    /// Clears the touched mark.
    pub fn unmark_touch(&mut self)
        ensures
            final(self)@ == old(self)@.untouched(),
    {
        self.status.touched = false;
    }

    /// Marks the account as cold: its next load counts as the first of
    /// the transaction.
    pub fn mark_cold(&mut self)
        ensures
            final(self)@ == old(self)@.marked_cold(),
    {
        self.status.cold = true;
    }

    /// Records a load by `transaction_id` and says whether it was the first
    /// of that transaction.
    pub fn mark_warm_with_transaction_id(&mut self, transaction_id: usize) -> (is_cold: bool)
        ensures
            is_cold == old(self)@.is_cold_for(transaction_id),
            final(self)@ == old(self)@.marked_warm(transaction_id),
    {
        let is_cold = self.last_touched_tx != transaction_id || self.status.cold;
        self.status.cold = false;
        self.last_touched_tx = transaction_id;
        is_cold
    }

    /// Whether the account was created in the current transaction.
    pub fn is_created_locally(&self) -> (r: bool)
        ensures
            r == self@.status.created_locally,
    {
        self.status.created_locally
    }

    /// Whether the account was created since the state was last handed out.
    pub fn is_created(&self) -> (r: bool)
        ensures
            r == self@.status.created_globally,
    {
        self.status.created_globally
    }

    /// Whether the account was destroyed since the state was last handed
    /// out.
    pub fn is_selfdestructed(&self) -> (r: bool)
        ensures
            r == self@.status.selfdestructed_globally,
    {
        self.status.selfdestructed_globally
    }

    /// Whether the account was destroyed in the current transaction.
    pub fn is_selfdestructed_locally(&self) -> (r: bool)
        ensures
            r == self@.status.selfdestructed_locally,
    {
        self.status.selfdestructed_locally
    }

    /// Whether the database had no such account when it was loaded.
    pub fn is_loaded_as_not_existing(&self) -> (r: bool)
        ensures
            r == self@.status.not_existing,
    {
        self.status.not_existing
    }

    /// Whether the account has no balance, nonce zero, and no code.
    pub fn is_empty(&self) -> (r: bool)
        ensures
            r == self@.info.is_empty(),
    {
        self.info.is_empty()
    }

    /// Whether the account counts as empty under `spec`.
    pub fn state_clear_aware_is_empty(&self, spec: SpecId) -> (r: bool)
        ensures
            r == self@.state_clear_aware_is_empty(spec),
    {
        if spec.is_enabled_in(SpecId::SPURIOUS_DRAGON) {
            self.is_empty()
        } else {
            self.status.not_existing && !self.status.touched
        }
    }

    /// Wipes storage and info.
    pub fn selfdestruct(&mut self)
        ensures
            final(self)@ == old(self)@.wiped(),
    {
        self.storage.clear();
        self.info = AccountInfo::default();
    }

    /// Sets both creation marks; `true` where the account had been created
    /// before, in an earlier transaction.
    pub fn mark_created_locally(&mut self) -> (was_globally_created: bool)
        ensures
            was_globally_created == old(self)@.status.created_globally,
            final(self)@ == old(self)@.marked_created_locally(),
    {
        let was_globally_created = self.status.created_globally;
        self.status.created_locally = true;
        self.status.created_globally = true;
        was_globally_created
    }

    /// Sets both destruction marks; `true` where the account had been
    /// destroyed before, in an earlier transaction.
    pub fn mark_selfdestructed_locally(&mut self) -> (was_globally_selfdestructed: bool)
        ensures
            was_globally_selfdestructed == old(self)@.status.selfdestructed_globally,
            final(self)@ == old(self)@.marked_selfdestructed_locally(),
    {
        let was_globally_selfdestructed = self.status.selfdestructed_globally;
        self.status.selfdestructed_locally = true;
        self.status.selfdestructed_globally = true;
        was_globally_selfdestructed
    }
}

} // verus!
