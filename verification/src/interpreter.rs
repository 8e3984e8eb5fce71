//! The part of an interpreter that the call and create instructions work
//! on: stack, memory, gas, the flags of the frame, and the action that the
//! frame hands to its caller.
use crate::gas::{num_words, spec_num_words, Gas};
use crate::journal::StateLoad;
use crate::journal_model::AccountLoad;
use crate::primitives::{Address, SpecId, U256};
use core::ops::Range;
use vstd::prelude::*;

verus! {

/// The most words that the stack holds.
pub const STACK_LIMIT: usize = 1024;

/// How an instruction, and with it a frame, ended.
#[derive(Clone, Copy, Debug, PartialEq, Eq, Structural, Hash)]
pub enum InstructionResult {
    Stop,
    Return,
    SelfDestruct,
    Revert,
    CallTooDeep,
    OutOfFunds,
    OutOfGas,
    MemoryOOG,
    MemoryLimitOOG,
    PrecompileOOG,
    InvalidOperandOOG,
    OpcodeNotFound,
    CallNotAllowedInsideStatic,
    StateChangeDuringStaticCall,
    InvalidFEOpcode,
    InvalidJump,
    NotActivated,
    StackUnderflow,
    StackOverflow,
    OutOfOffset,
    CreateCollision,
    OverflowPayment,
    PrecompileError,
    NonceOverflow,
    CreateContractSizeLimit,
    CreateContractStartingWithEF,
    CreateInitCodeSizeLimit,
    FatalExternalError,
}

impl InstructionResult {
    pub open spec fn spec_is_ok(self) -> bool {
        self == InstructionResult::Stop || self == InstructionResult::Return || self
            == InstructionResult::SelfDestruct
    }

    /// Whether the frame ended well.
    #[verifier::when_used_as_spec(spec_is_ok)]
    pub fn is_ok(self) -> (r: bool)
        ensures
            r == self.spec_is_ok(),
    {
        match self {
            InstructionResult::Stop | InstructionResult::Return | InstructionResult::SelfDestruct => true,
            _ => false,
        }
    }

    pub open spec fn spec_is_revert(self) -> bool {
        self == InstructionResult::Revert || self == InstructionResult::CallTooDeep || self
            == InstructionResult::OutOfFunds
    }

    /// Whether the frame was reverted and keeps the gas that it did not use.
    #[verifier::when_used_as_spec(spec_is_revert)]
    pub fn is_revert(self) -> (r: bool)
        ensures
            r == self.spec_is_revert(),
    {
        match self {
            InstructionResult::Revert | InstructionResult::CallTooDeep | InstructionResult::OutOfFunds => true,
            _ => false,
        }
    }

    pub open spec fn spec_is_ok_or_revert(self) -> bool {
        self.spec_is_ok() || self.spec_is_revert()
    }

    /// Whether the frame keeps the gas that it did not use: it ended well
    /// or was reverted.
    #[verifier::when_used_as_spec(spec_is_ok_or_revert)]
    pub fn is_ok_or_revert(self) -> (r: bool)
        ensures
            r == self.spec_is_ok_or_revert(),
    {
        self.is_ok() || self.is_revert()
    }
}

/// The flags of a frame.
#[derive(Clone, Copy, Debug, PartialEq, Eq, Structural, Hash)]
pub struct RuntimeFlag {
    /// The frame may not change the state.
    pub is_static: bool,
    pub spec_id: SpecId,
}

/// Who a frame runs for.
#[derive(Clone, Copy, Debug, PartialEq, Eq, Structural, Hash)]
pub struct InputsImpl {
    /// The account whose state the frame works on.
    pub target_address: Address,
    /// The account that called.
    pub caller_address: Address,
    /// The value that came with the call.
    pub call_value: U256,
}

/// What kind of call a call is.
#[derive(Clone, Copy, Debug, PartialEq, Eq, Structural, Hash)]
pub enum CallScheme {
    Call,
    CallCode,
    DelegateCall,
    StaticCall,
}

/// The value of a call.
#[derive(Clone, Copy, Debug, PartialEq, Eq, Structural, Hash)]
pub enum CallValue {
    /// The value moves from caller to target.
    Transfer(U256),
    /// The value is only shown to the callee; nothing moves.
    Apparent(U256),
}

/// How the address of a new contract is derived.
#[derive(Clone, Copy, Debug, PartialEq, Eq, Structural, Hash)]
pub enum CreateScheme {
    Create,
    Create2 { salt: U256 },
}

/// Where the input of a call is found.
#[derive(Debug)]
pub enum CallInput {
    /// In this range of the memory that the frames share.
    SharedBuffer(Range<usize>),
    /// In these bytes.
    Bytes(Vec<u8>),
}

/// What a [`CallInput`] holds.
pub enum CallInputModel {
    SharedBuffer(Range<usize>),
    Bytes(Seq<u8>),
}

impl View for CallInput {
    type V = CallInputModel;

    open spec fn view(&self) -> CallInputModel {
        match self {
            CallInput::SharedBuffer(range) => CallInputModel::SharedBuffer(*range),
            CallInput::Bytes(bytes) => CallInputModel::Bytes(bytes@),
        }
    }
}

/// A request for a call frame.
#[derive(Debug)]
pub struct CallInputs {
    pub input: CallInput,
    /// Where in the caller's memory the output goes.
    pub return_memory_offset: Range<usize>,
    pub gas_limit: u64,
    /// The account whose code runs.
    pub bytecode_address: Address,
    /// The account whose state the code works on.
    pub target_address: Address,
    pub caller: Address,
    pub value: CallValue,
    pub scheme: CallScheme,
    pub is_static: bool,
}

/// What a [`CallInputs`] holds.
pub struct CallInputsModel {
    pub input: CallInputModel,
    pub return_memory_offset: Range<usize>,
    pub gas_limit: u64,
    pub bytecode_address: Address,
    pub target_address: Address,
    pub caller: Address,
    pub value: CallValue,
    pub scheme: CallScheme,
    pub is_static: bool,
}

impl View for CallInputs {
    type V = CallInputsModel;

    open spec fn view(&self) -> CallInputsModel {
        CallInputsModel {
            input: self.input@,
            return_memory_offset: self.return_memory_offset,
            gas_limit: self.gas_limit,
            bytecode_address: self.bytecode_address,
            target_address: self.target_address,
            caller: self.caller,
            value: self.value,
            scheme: self.scheme,
            is_static: self.is_static,
        }
    }
}

/// A request for a create frame.
#[derive(Clone, Debug)]
pub struct CreateInputs {
    pub caller: Address,
    pub scheme: CreateScheme,
    pub value: U256,
    pub init_code: Vec<u8>,
    pub gas_limit: u64,
}

/// What a [`CreateInputs`] holds.
pub struct CreateInputsModel {
    pub caller: Address,
    pub scheme: CreateScheme,
    pub value: U256,
    pub init_code: Seq<u8>,
    pub gas_limit: u64,
}

impl View for CreateInputs {
    type V = CreateInputsModel;

    open spec fn view(&self) -> CreateInputsModel {
        CreateInputsModel {
            caller: self.caller,
            scheme: self.scheme,
            value: self.value,
            init_code: self.init_code@,
            gas_limit: self.gas_limit,
        }
    }
}

/// A request for a new frame.
#[derive(Debug)]
pub enum FrameInput {
    Call(CallInputs),
    Create(CreateInputs),
}

/// What a [`FrameInput`] holds.
pub enum FrameInputModel {
    Call(CallInputsModel),
    Create(CreateInputsModel),
}

impl View for FrameInput {
    type V = FrameInputModel;

    open spec fn view(&self) -> FrameInputModel {
        match self {
            FrameInput::Call(inputs) => FrameInputModel::Call(inputs@),
            FrameInput::Create(inputs) => FrameInputModel::Create(inputs@),
        }
    }
}

/// How a frame ended, what it returned and what gas it has left.
#[derive(Clone, Debug)]
pub struct InterpreterResult {
    pub result: InstructionResult,
    pub output: Vec<u8>,
    pub gas: Gas,
}

/// What an [`InterpreterResult`] holds.
pub struct InterpreterResultModel {
    pub result: InstructionResult,
    pub output: Seq<u8>,
    pub gas: Gas,
}

impl View for InterpreterResult {
    type V = InterpreterResultModel;

    open spec fn view(&self) -> InterpreterResultModel {
        InterpreterResultModel { result: self.result, output: self.output@, gas: self.gas }
    }
}

/// What a frame hands to its caller when it stops running.
#[derive(Debug)]
pub enum InterpreterAction {
    /// The frame asks for a child frame.
    NewFrame(FrameInput),
    /// The frame has ended.
    Return(InterpreterResult),
}

/// What an [`InterpreterAction`] holds.
pub enum InterpreterActionModel {
    NewFrame(FrameInputModel),
    Return(InterpreterResultModel),
}

impl View for InterpreterAction {
    type V = InterpreterActionModel;

    open spec fn view(&self) -> InterpreterActionModel {
        match self {
            InterpreterAction::NewFrame(input) => InterpreterActionModel::NewFrame(input@),
            InterpreterAction::Return(result) => InterpreterActionModel::Return(result@),
        }
    }
}

/// `buffer` cut or filled with zeros to `len` bytes.
pub open spec fn resized(buffer: Seq<u8>, len: int) -> Seq<u8> {
    if len <= buffer.len() {
        buffer.subrange(0, len)
    } else {
        buffer + Seq::new((len - buffer.len()) as nat, |i: int| 0u8)
    }
}

/// The memory that the frames of a transaction share. A frame sees the
/// part from its checkpoint on.
#[derive(Clone, Debug)]
pub struct SharedMemory {
    pub buffer: Vec<u8>,
    /// Where the memory of the current frame begins.
    pub my_checkpoint: usize,
}

/// The state of a frame, as far as calls and creates go.
#[derive(Debug)]
pub struct Interpreter {
    /// The stack, its top last.
    pub stack: Vec<U256>,
    pub memory: SharedMemory,
    pub gas: Gas,
    pub runtime_flag: RuntimeFlag,
    pub input: InputsImpl,
    /// What the frame hands to its caller, once it has stopped.
    pub action: Option<InterpreterAction>,
}

/// What an [`Interpreter`] holds.
pub struct InterpreterModel {
    pub stack: Seq<U256>,
    pub memory: Seq<u8>,
    pub memory_checkpoint: usize,
    pub gas: Gas,
    pub runtime_flag: RuntimeFlag,
    pub input: InputsImpl,
    pub action: Option<InterpreterActionModel>,
}

impl View for Interpreter {
    type V = InterpreterModel;

    open spec fn view(&self) -> InterpreterModel {
        InterpreterModel {
            stack: self.stack@,
            memory: self.memory.buffer@,
            memory_checkpoint: self.memory.my_checkpoint,
            gas: self.gas,
            runtime_flag: self.runtime_flag,
            input: self.input,
            action: match self.action {
                Some(action) => Some(action@),
                None => None,
            },
        }
    }
}

impl InterpreterModel {
    /// Whether the frame is consistent: the gas meter is, and the memory
    /// of the frame has at least the size that was paid for.
    pub open spec fn wf(self) -> bool {
        self.gas.wf()
            && self.memory_checkpoint + self.gas.memory.words_num * 32 <= self.memory.len()
    }

    /// The frame after it has halted with `result`.
    pub open spec fn halted(self, result: InstructionResult) -> InterpreterModel {
        InterpreterModel {
            action: Some(
                InterpreterActionModel::Return(
                    InterpreterResultModel { result, output: Seq::empty(), gas: self.gas },
                ),
            ),
            ..self
        }
    }

    /// The frame with `action` as what it hands to its caller.
    pub open spec fn with_action(self, action: InterpreterActionModel) -> InterpreterModel {
        InterpreterModel { action: Some(action), ..self }
    }

    /// The frame with `gas` as its gas meter.
    pub open spec fn with_gas(self, gas: Gas) -> InterpreterModel {
        InterpreterModel { gas, ..self }
    }

    /// The `n` words on top of the stack, the topmost first.
    pub open spec fn top_words(self, n: int) -> Seq<U256> {
        Seq::new(n as nat, |i: int| self.stack[self.stack.len() - 1 - i])
    }

    /// The frame after `n` words are popped: where the stack has fewer, the
    /// frame halts with `StackUnderflow` and the stack stays.
    pub open spec fn popped(self, n: int) -> InterpreterModel {
        if self.stack.len() < n {
            self.halted(InstructionResult::StackUnderflow)
        } else {
            InterpreterModel { stack: self.stack.subrange(0, self.stack.len() - n), ..self }
        }
    }

    /// The frame after `cost` is charged: where less gas is left, the frame
    /// halts with `OutOfGas` and nothing is paid.
    pub open spec fn charged(self, cost: u64) -> InterpreterModel {
        if cost <= self.gas.remaining {
            self.with_gas(self.gas.charged(cost))
        } else {
            self.halted(InstructionResult::OutOfGas)
        }
    }

    /// The length of the memory of the frame.
    pub open spec fn local_memory_len(self) -> int {
        self.memory.len() - self.memory_checkpoint
    }

    /// Whether the memory can be made to hold the `len` bytes from `offset`
    /// on: the range and the grown memory can be addressed, and the gas
    /// pays for the growth.
    pub open spec fn can_resize(self, offset: usize, len: usize) -> bool {
        &&& offset + len + 31 <= usize::MAX
        &&& {
            let words = spec_num_words((offset + len) as usize);
            words <= self.gas.memory.words_num || (self.gas.growth_cost(words) <= self.gas.remaining
                && self.memory_checkpoint + words * 32 <= usize::MAX)
        }
    }

    /// The frame after the memory is made to hold the `len` bytes from
    /// `offset` on. A memory that is large enough stays. Any other grows to
    /// whole words, filled with zeros, and the growth is paid. Where the
    /// range cannot be addressed nothing changes; where the gas does not pay
    /// for the growth the new size stays recorded but nothing is paid; where
    /// the grown memory cannot be addressed the growth is paid but the
    /// memory stays.
    pub open spec fn memory_resized(self, offset: usize, len: usize) -> InterpreterModel {
        if offset + len + 31 > usize::MAX {
            self
        } else {
            let words = spec_num_words((offset + len) as usize);
            if words <= self.gas.memory.words_num {
                self
            } else {
                let grown = self.gas.memory_grown(words);
                let cost = self.gas.growth_cost(words);
                if cost > grown.remaining {
                    self.with_gas(grown)
                } else if self.memory_checkpoint + words * 32 > usize::MAX {
                    self.with_gas(grown.charged(cost))
                } else {
                    InterpreterModel {
                        memory: resized(self.memory, self.memory_checkpoint + words * 32),
                        gas: grown.charged(cost),
                        ..self
                    }
                }
            }
        }
    }

    /// The frame after [`memory_resized`](Self::memory_resized), halted
    /// with `MemoryOOG` where the memory could not be resized.
    pub open spec fn memory_resized_or_halted(self, offset: usize, len: usize) -> InterpreterModel {
        if self.can_resize(offset, len) {
            self.memory_resized(offset, len)
        } else {
            self.memory_resized(offset, len).halted(InstructionResult::MemoryOOG)
        }
    }
}

/// The executer of the frames, as the call and create instructions see it.
/// Nothing is assumed of what it answers.
pub trait Host {
    /// Loads `address` for a call; `None` where the load failed for a
    /// reason outside the transaction.
    fn load_account_delegated(&mut self, address: Address) -> Option<StateLoad<AccountLoad>>;

    /// The most bytes that init code may have.
    fn max_initcode_size(&self) -> usize;
}

/// What an instruction works on: the frame and the executer.
pub struct InstructionContext<'a, H: Host> {
    pub interpreter: &'a mut Interpreter,
    pub host: &'a mut H,
}

impl Interpreter {
    /// Whether the frame is consistent: see [`InterpreterModel::wf`].
    pub open spec fn wf(&self) -> bool {
        self@.wf()
    }

    /// A frame with an empty stack and an empty memory.
    pub fn new(gas_limit: u64, runtime_flag: RuntimeFlag, input: InputsImpl) -> (r: Interpreter)
        ensures
            r.wf(),
            r@ == (InterpreterModel {
                stack: Seq::empty(),
                memory: Seq::empty(),
                memory_checkpoint: 0,
                gas: Gas::spec_new(gas_limit),
                runtime_flag,
                input,
                action: None,
            }),
    {
        Interpreter {
            stack: Vec::new(),
            memory: SharedMemory { buffer: Vec::new(), my_checkpoint: 0 },
            gas: Gas::new(gas_limit),
            runtime_flag,
            input,
            action: None,
        }
    }

    /// Pushes `value`; `false`, and nothing pushed, where the stack is full.
    pub fn push(&mut self, value: U256) -> (pushed: bool)
        ensures
            pushed == (old(self)@.stack.len() < STACK_LIMIT),
            pushed ==> final(self)@ == (InterpreterModel {
                stack: old(self)@.stack.push(value),
                ..old(self)@
            }),
            !pushed ==> final(self)@ == old(self)@,
    {
        if self.stack.len() >= STACK_LIMIT {
            return false;
        }
        self.stack.push(value);
        true
    }

    /// Hands `action` to the caller of the frame.
    pub fn set_action(&mut self, action: InterpreterAction)
        ensures
            final(self)@ == old(self)@.with_action(action@),
    {
        self.action = Some(action);
    }

    /// Halts the frame with `result`.
    pub fn halt(&mut self, result: InstructionResult)
        ensures
            final(self)@ == old(self)@.halted(result),
    {
        let gas = self.gas;
        self.set_action(InterpreterAction::Return(InterpreterResult { result, output: Vec::new(), gas }));
    }

    /// Pops `n` words, the topmost first; halts with `StackUnderflow`, and
    /// pops nothing, where the stack has fewer.
    pub fn pop_or_halt(&mut self, n: usize) -> (r: Option<Vec<U256>>)
        ensures
            final(self)@ == old(self)@.popped(n as int),
            match r {
                Some(words) => n <= old(self)@.stack.len() && words@
                    == old(self)@.top_words(n as int),
                None => n > old(self)@.stack.len(),
            },
    {
        if self.stack.len() < n {
            self.halt(InstructionResult::StackUnderflow);
            return None;
        }
        let mut words: Vec<U256> = Vec::new();
        let mut i: usize = 0;
        while i < n
            invariant
                i <= n <= old(self)@.stack.len(),
                words@ == old(self)@.top_words(i as int),
                self.stack@ == old(self)@.stack.subrange(0, old(self)@.stack.len() - i),
                self.memory == old(self).memory,
                self.gas == old(self).gas,
                self.runtime_flag == old(self).runtime_flag,
                self.input == old(self).input,
                self.action == old(self).action,
            decreases n - i,
        {
            let word = self.stack.pop().unwrap();
            words.push(word);
            proof {
                assert(words@ =~= old(self)@.top_words(i + 1));
                assert(self.stack@ =~= old(self)@.stack.subrange(0, old(self)@.stack.len() - i - 1));
            }
            i = i + 1;
        }
        Some(words)
    }

    /// Charges `cost`; halts with `OutOfGas`, and charges nothing, where
    /// less gas is left.
    pub fn charge_or_halt(&mut self, cost: u64) -> (paid: bool)
        ensures
            final(self)@ == old(self)@.charged(cost),
            paid == (cost <= old(self)@.gas.remaining),
    {
        if !self.gas.record_cost(cost) {
            self.halt(InstructionResult::OutOfGas);
            return false;
        }
        true
    }

    /// Halts with `StateChangeDuringStaticCall` where the frame may not
    /// change the state.
    pub fn require_non_staticcall(&mut self) -> (allowed: bool)
        ensures
            allowed == !old(self)@.runtime_flag.is_static,
            final(self)@ == if allowed {
                old(self)@
            } else {
                old(self)@.halted(InstructionResult::StateChangeDuringStaticCall)
            },
    {
        if self.runtime_flag.is_static {
            self.halt(InstructionResult::StateChangeDuringStaticCall);
            return false;
        }
        true
    }

    /// Halts with `NotActivated` where the fork of the frame is older than
    /// `min`.
    pub fn check_fork(&mut self, min: SpecId) -> (enabled: bool)
        ensures
            enabled == old(self)@.runtime_flag.spec_id.is_enabled_in(min),
            final(self)@ == if enabled {
                old(self)@
            } else {
                old(self)@.halted(InstructionResult::NotActivated)
            },
    {
        if !self.runtime_flag.spec_id.is_enabled_in(min) {
            self.halt(InstructionResult::NotActivated);
            return false;
        }
        true
    }

    /// `word` as a `usize`; halts with `InvalidOperandOOG` where it does
    /// not fit.
    pub fn as_usize_or_fail(&mut self, word: U256) -> (r: Option<usize>)
        ensures
            match r {
                Some(value) => value as int == word.value() && final(self)@ == old(self)@,
                None => word.value() > usize::MAX && final(self)@ == old(self)@.halted(
                    InstructionResult::InvalidOperandOOG,
                ),
            },
    {
        match word.checked_to_usize() {
            Some(value) => Some(value),
            None => {
                self.halt(InstructionResult::InvalidOperandOOG);
                None
            },
        }
    }

    /// Makes the memory hold the `len` bytes from `offset` on, and pays for
    /// its growth: see [`InterpreterModel::memory_resized`]. `false` where
    /// that cannot be done.
    pub fn resize_memory(&mut self, offset: usize, len: usize) -> (resized: bool)
        requires
            old(self).wf(),
        ensures
            final(self)@.gas.wf(),
            resized ==> final(self).wf(),
            resized == old(self)@.can_resize(offset, len),
            final(self)@ == old(self)@.memory_resized(offset, len),
            resized ==> final(self)@.memory_checkpoint + offset + len <= final(self)@.memory.len(),
    {
        let end = match offset.checked_add(len) {
            Some(end) => end,
            None => {
                return false;
            },
        };
        if end > usize::MAX - 31 {
            return false;
        }
        let new_num_words = num_words(end);
        if new_num_words <= self.gas.memory.words_num {
            return true;
        }
        let cost = self.gas.record_new_len(new_num_words).unwrap();
        if !self.gas.record_cost(cost) {
            return false;
        }
        let new_len = match self.memory.my_checkpoint.checked_add(new_num_words * 32) {
            Some(new_len) => new_len,
            None => {
                return false;
            },
        };
        let ghost before = self.memory.buffer@;
        self.memory.buffer.resize(new_len, 0);
        proof {
            if new_len > before.len() {
                assert(self.memory.buffer@ =~= resized(before, new_len as int));
            }
        }
        true
    }

    /// Makes the memory hold the `len` bytes from `offset` on; halts with
    /// `MemoryOOG` where that cannot be done.
    pub fn resize_memory_or_halt(&mut self, offset: usize, len: usize) -> (resized: bool)
        requires
            old(self).wf(),
        ensures
            final(self)@.gas.wf(),
            resized ==> final(self).wf(),
            resized == old(self)@.can_resize(offset, len),
            final(self)@ == old(self)@.memory_resized_or_halted(offset, len),
            resized ==> final(self)@.memory_checkpoint + offset + len <= final(self)@.memory.len(),
    {
        if !self.resize_memory(offset, len) {
            self.halt(InstructionResult::MemoryOOG);
            return false;
        }
        true
    }
}

} // verus!
