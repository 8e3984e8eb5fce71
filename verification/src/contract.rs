//! The call and create instructions: each turns the operands on the stack
//! into a request for a child frame and sets the gas aside for it.
use crate::gas::{
    call_cost, create2_cost, initcode_cost, spec_call_cost, spec_create2_cost, spec_initcode_cost,
    CALL_STIPEND, CREATE,
};
use crate::interpreter::{
    CallInput, CallInputModel, CallInputs, CallInputsModel, CallScheme, CallValue, CreateInputs, CreateInputsModel, CreateScheme, FrameInput,
    FrameInputModel, Host, InstructionContext, InstructionResult, Interpreter,
    InterpreterAction, InterpreterActionModel, InterpreterModel,
};
use crate::journal::StateLoad;
use crate::journal_model::AccountLoad;
use crate::primitives::{Address, SpecId, U256};
use core::ops::Range;
use vstd::prelude::*;

verus! {

/// The range that a pair of offset and length on the stack stands for, and
/// the frame after the memory is made to hold it. A length of zero stands
/// for the empty range at `usize::MAX` and leaves the memory alone. A
/// length, or the offset of a range that is not empty, that does not fit a
/// `usize` halts the frame with `InvalidOperandOOG`; a memory that cannot
/// be made to hold the range halts it with `MemoryOOG`.
pub open spec fn memory_range_of(i: InterpreterModel, offset: U256, len: U256) -> (
    InterpreterModel,
    Option<Range<usize>>,
) {
    if len.value() > usize::MAX {
        (i.halted(InstructionResult::InvalidOperandOOG), None)
    } else if len.value() == 0 {
        (i, Some(Range { start: usize::MAX, end: usize::MAX }))
    } else if offset.value() > usize::MAX {
        (i.halted(InstructionResult::InvalidOperandOOG), None)
    } else {
        let start = offset.value() as usize;
        let size = len.value() as usize;
        (
            i.memory_resized_or_halted(start, size),
            if i.can_resize(start, size) {
                Some(Range { start, end: (start + size) as usize })
            } else {
                None
            },
        )
    }
}

/// `range` moved up by `by`, each end capped at `usize::MAX`; an empty
/// range stays where it is.
pub open spec fn shifted(range: Range<usize>, by: usize) -> Range<usize> {
    if range.start < range.end {
        Range {
            start: if range.start + by > usize::MAX {
                usize::MAX
            } else {
                (range.start + by) as usize
            },
            end: if range.end + by > usize::MAX {
                usize::MAX
            } else {
                (range.end + by) as usize
            },
        }
    } else {
        range
    }
}

/// The input and output ranges of a call, and the frame after they are
/// taken from the stack and the memory is made to hold them. The four
/// words on top of the stack are, from the top, the offset and length of
/// the input and the offset and length of the output. The input range is
/// given as a range of the shared memory, the output range as a range of
/// the memory of the frame.
pub open spec fn memory_ranges_of(i: InterpreterModel) -> (
    InterpreterModel,
    Option<(Range<usize>, Range<usize>)>,
) {
    if i.stack.len() < 4 {
        (i.popped(4), None)
    } else {
        let words = i.top_words(4);
        let (after_input, input) = memory_range_of(i.popped(4), words[0], words[1]);
        match input {
            None => (after_input, None),
            Some(input) => {
                let (after_output, output) = memory_range_of(after_input, words[2], words[3]);
                match output {
                    None => (after_output, None),
                    Some(output) => (
                        after_output,
                        Some((shifted(input, i.memory_checkpoint), output)),
                    ),
                }
            },
        }
    }
}

/// The gas that a call hands to its callee before any stipend, and the
/// frame after the price of the call is charged. From Tangerine on the
/// callee gets no more than what is left less a sixty-fourth. A frame that
/// cannot pay the price halts with `OutOfGas`.
pub open spec fn call_gas_of(
    i: InterpreterModel,
    load: StateLoad<AccountLoad>,
    has_transfer: bool,
    local_gas_limit: u64,
) -> (InterpreterModel, Option<u64>) {
    let cost = spec_call_cost(i.runtime_flag.spec_id, has_transfer, load);
    let charged = i.charged(cost);
    if cost > i.gas.remaining {
        (charged, None)
    } else if i.runtime_flag.spec_id.is_enabled_in(SpecId::TANGERINE) {
        let most = charged.gas.spec_remaining_63_of_64_parts();
        (
            charged,
            Some(
                if most < local_gas_limit {
                    most
                } else {
                    local_gas_limit
                },
            ),
        )
    } else {
        (charged, Some(local_gas_limit))
    }
}

/// Takes offset and length of a range in memory and makes the memory hold
/// the range: see [`memory_range_of`].
pub fn resize_memory(interpreter: &mut Interpreter, offset: U256, len: U256)
    -> (r: Option<Range<usize>>)
    requires
        old(interpreter).wf(),
    ensures
        (final(interpreter)@, r) == memory_range_of(old(interpreter)@, offset, len),
        r is Some ==> final(interpreter).wf(),
{
    let len = match interpreter.as_usize_or_fail(len) {
        Some(len) => len,
        None => {
            return None;
        },
    };
    let offset = if len != 0 {
        let offset = match interpreter.as_usize_or_fail(offset) {
            Some(offset) => offset,
            None => {
                return None;
            },
        };
        if !interpreter.resize_memory_or_halt(offset, len) {
            return None;
        }
        offset
    } else {
        usize::MAX
    };
    Some(offset..offset + len)
}

/// Takes the input and output ranges of a call from the stack and makes
/// the memory hold them: see [`memory_ranges_of`].
pub fn get_memory_input_and_out_ranges(interpreter: &mut Interpreter) -> (r: Option<
    (Range<usize>, Range<usize>),
>)
    requires
        old(interpreter).wf(),
    ensures
        (final(interpreter)@, r) == memory_ranges_of(old(interpreter)@),
        r is Some ==> final(interpreter).wf(),
{
    let words = match interpreter.pop_or_halt(4) {
        Some(words) => words,
        None => {
            return None;
        },
    };
    let mut in_range = match resize_memory(interpreter, words[0], words[1]) {
        Some(range) => range,
        None => {
            return None;
        },
    };
    if in_range.start < in_range.end {
        let offset = interpreter.memory.my_checkpoint;
        in_range = in_range.start.saturating_add(offset)..in_range.end.saturating_add(offset);
    }
    let ret_range = match resize_memory(interpreter, words[2], words[3]) {
        Some(range) => range,
        None => {
            return None;
        },
    };
    Some((in_range, ret_range))
}

/// Charges the price of a call and computes the gas for the callee: see
/// [`call_gas_of`].
pub fn calc_call_gas(
    interpreter: &mut Interpreter,
    account_load: StateLoad<AccountLoad>,
    has_transfer: bool,
    local_gas_limit: u64,
) -> (r: Option<u64>)
    ensures
        (final(interpreter)@, r) == call_gas_of(
            old(interpreter)@,
            account_load,
            has_transfer,
            local_gas_limit,
        ),
        old(interpreter)@.gas.remaining <= old(interpreter)@.gas.limit
            ==> final(interpreter)@.gas.remaining <= final(interpreter)@.gas.limit,
{
    let cost = call_cost(interpreter.runtime_flag.spec_id, has_transfer, &account_load);
    if !interpreter.charge_or_halt(cost) {
        return None;
    }
    let gas_limit = if interpreter.runtime_flag.spec_id.is_enabled_in(SpecId::TANGERINE) {
        let most = interpreter.gas.remaining_63_of_64_parts();
        if most < local_gas_limit {
            most
        } else {
            local_gas_limit
        }
    } else {
        local_gas_limit
    };
    Some(gas_limit)
}

/// What a call instruction has taken from the stack.
#[derive(Debug)]
pub struct CallOperands {
    /// The gas that the caller offers, capped at `u64::MAX`.
    pub local_gas_limit: u64,
    /// The account that is called.
    pub to: Address,
    /// The value that is sent; zero for a call without value.
    pub value: U256,
    pub input: Range<usize>,
    pub return_memory_offset: Range<usize>,
}

/// The fork that first knows the instruction, where it is not Frontier.
pub open spec fn first_fork_of(scheme: CallScheme) -> Option<SpecId> {
    match scheme {
        CallScheme::DelegateCall => Some(SpecId::HOMESTEAD),
        CallScheme::StaticCall => Some(SpecId::BYZANTIUM),
        _ => None,
    }
}

/// Whether the instruction takes a value from the stack.
pub open spec fn takes_value(scheme: CallScheme) -> bool {
    scheme == CallScheme::Call || scheme == CallScheme::CallCode
}

/// The operands of a call instruction, and the frame after they are taken
/// from the stack. `DELEGATECALL` halts with `NotActivated` before
/// Homestead, `STATICCALL` before Byzantium. The stack holds, from the top,
/// the gas offered, the account called and, for `CALL` and `CALLCODE`, the
/// value; then the ranges of input and output. The account called is the
/// low twenty bytes of its word. A `CALL` with value in a static frame
/// halts with `CallNotAllowedInsideStatic`.
pub open spec fn call_operands_of(i: InterpreterModel, scheme: CallScheme) -> (
    InterpreterModel,
    Option<CallOperands>,
) {
    let words: int = if takes_value(scheme) {
        3
    } else {
        2
    };
    if first_fork_of(scheme) is Some && !i.runtime_flag.spec_id.is_enabled_in(
        first_fork_of(scheme).unwrap(),
    ) {
        (i.halted(InstructionResult::NotActivated), None)
    } else if i.stack.len() < words {
        (i.popped(words), None)
    } else {
        let top = i.top_words(words);
        let value = if takes_value(scheme) {
            top[2]
        } else {
            U256::spec_zero()
        };
        let popped = i.popped(words);
        if scheme == CallScheme::Call && i.runtime_flag.is_static && value != U256::spec_zero() {
            (popped.halted(InstructionResult::CallNotAllowedInsideStatic), None)
        } else {
            let (after, ranges) = memory_ranges_of(popped);
            match ranges {
                None => (after, None),
                Some((input, return_memory_offset)) => (
                    after,
                    Some(
                        CallOperands {
                            local_gas_limit: (if top[0].value() <= u64::MAX {
                                top[0].value()
                            } else {
                                u64::MAX as int
                            }) as u64,
                            to: Address::spec_from_word(top[1]),
                            value,
                            input,
                            return_memory_offset,
                        },
                    ),
                ),
            }
        }
    }
}

/// The request that a call instruction makes of `operands`, with
/// `gas_limit` for the callee.
pub open spec fn call_inputs_of(
    i: InterpreterModel,
    scheme: CallScheme,
    operands: CallOperands,
    gas_limit: u64,
) -> CallInputsModel {
    CallInputsModel {
        input: CallInputModel::SharedBuffer(operands.input),
        return_memory_offset: operands.return_memory_offset,
        gas_limit,
        bytecode_address: operands.to,
        target_address: if scheme == CallScheme::Call || scheme == CallScheme::StaticCall {
            operands.to
        } else {
            i.input.target_address
        },
        caller: if scheme == CallScheme::DelegateCall {
            i.input.caller_address
        } else {
            i.input.target_address
        },
        value: if scheme == CallScheme::DelegateCall {
            CallValue::Apparent(i.input.call_value)
        } else {
            CallValue::Transfer(operands.value)
        },
        scheme,
        is_static: scheme == CallScheme::StaticCall || i.runtime_flag.is_static,
    }
}

/// The frame after a call instruction has its operands and the answer of
/// the executer to the load of the account called. Without an answer the
/// frame halts with `FatalExternalError`. Only `CALL` lets the account
/// count as empty. The price of the call is charged, then the gas for the
/// callee; a call with value hands the callee the stipend on top, which the
/// frame does not pay. Then the request for the call frame is the action of
/// the frame.
pub open spec fn call_after_load_of(
    i: InterpreterModel,
    scheme: CallScheme,
    operands: CallOperands,
    load: Option<StateLoad<AccountLoad>>,
) -> InterpreterModel {
    match load {
        None => i.halted(InstructionResult::FatalExternalError),
        Some(load) => {
            let load = if scheme == CallScheme::Call {
                load
            } else {
                StateLoad { data: AccountLoad { is_empty: false, ..load.data }, is_cold: load.is_cold }
            };
            let has_transfer = operands.value != U256::spec_zero();
            let (priced, gas_limit) = call_gas_of(i, load, has_transfer, operands.local_gas_limit);
            match gas_limit {
                None => priced,
                Some(gas_limit) => {
                    if gas_limit > priced.gas.remaining {
                        priced.charged(gas_limit)
                    } else {
                        let handed: u64 = if has_transfer {
                            if gas_limit + CALL_STIPEND > u64::MAX {
                                u64::MAX
                            } else {
                                (gas_limit + CALL_STIPEND) as u64
                            }
                        } else {
                            gas_limit
                        };
                        priced.charged(gas_limit).with_action(
                            InterpreterActionModel::NewFrame(
                                FrameInputModel::Call(call_inputs_of(i, scheme, operands, handed)),
                            ),
                        )
                    }
                },
            }
        },
    }
}

/// The frame after a call instruction, where the executer answers `load`
/// to the load of the account called.
pub open spec fn call_of(
    i: InterpreterModel,
    scheme: CallScheme,
    load: Option<StateLoad<AccountLoad>>,
) -> InterpreterModel {
    let (prepared, operands) = call_operands_of(i, scheme);
    match operands {
        None => prepared,
        Some(operands) => call_after_load_of(prepared, scheme, operands, load),
    }
}

/// Takes the operands of a call instruction from the stack: see
/// [`call_operands_of`].
pub fn call_operands(interpreter: &mut Interpreter, scheme: CallScheme) -> (r: Option<CallOperands>)
    requires
        old(interpreter).wf(),
    ensures
        (final(interpreter)@, r) == call_operands_of(old(interpreter)@, scheme),
        r is Some ==> final(interpreter).wf(),
{
    match scheme {
        CallScheme::DelegateCall => {
            if !interpreter.check_fork(SpecId::HOMESTEAD) {
                return None;
            }
        },
        CallScheme::StaticCall => {
            if !interpreter.check_fork(SpecId::BYZANTIUM) {
                return None;
            }
        },
        _ => {},
    }
    let with_value = match scheme {
        CallScheme::Call | CallScheme::CallCode => true,
        _ => false,
    };
    let words = match interpreter.pop_or_halt(
        if with_value {
            3
        } else {
            2
        },
    ) {
        Some(words) => words,
        None => {
            return None;
        },
    };
    let local_gas_limit = words[0].saturating_to_u64();
    let to = Address::from_word(words[1]);
    let value = if with_value {
        words[2]
    } else {
        U256::zero()
    };
    let is_call = match scheme {
        CallScheme::Call => true,
        _ => false,
    };
    if is_call && interpreter.runtime_flag.is_static && !value.is_zero() {
        interpreter.halt(InstructionResult::CallNotAllowedInsideStatic);
        return None;
    }
    let (input, return_memory_offset) = match get_memory_input_and_out_ranges(interpreter) {
        Some(ranges) => ranges,
        None => {
            return None;
        },
    };
    Some(CallOperands { local_gas_limit, to, value, input, return_memory_offset })
}

/// Finishes a call instruction with the answer of the executer: see
/// [`call_after_load_of`].
pub fn call_after_load(
    interpreter: &mut Interpreter,
    scheme: CallScheme,
    operands: CallOperands,
    load: Option<StateLoad<AccountLoad>>,
)
    ensures
        final(interpreter)@ == call_after_load_of(old(interpreter)@, scheme, operands, load),
{
    let mut load = match load {
        Some(load) => load,
        None => {
            interpreter.halt(InstructionResult::FatalExternalError);
            return ;
        },
    };
    match scheme {
        CallScheme::Call => {},
        _ => {
            load.data.is_empty = false;
        },
    }
    let has_transfer = !operands.value.is_zero();
    let mut gas_limit = match calc_call_gas(interpreter, load, has_transfer, operands.local_gas_limit) {
        Some(gas_limit) => gas_limit,
        None => {
            return ;
        },
    };
    if !interpreter.charge_or_halt(gas_limit) {
        return ;
    }
    if has_transfer {
        gas_limit = gas_limit.saturating_add(CALL_STIPEND);
    }
    let inputs = match scheme {
        CallScheme::Call => CallInputs {
            input: CallInput::SharedBuffer(operands.input),
            gas_limit,
            target_address: operands.to,
            caller: interpreter.input.target_address,
            bytecode_address: operands.to,
            value: CallValue::Transfer(operands.value),
            scheme: CallScheme::Call,
            is_static: interpreter.runtime_flag.is_static,
            return_memory_offset: operands.return_memory_offset,
        },
        CallScheme::CallCode => CallInputs {
            input: CallInput::SharedBuffer(operands.input),
            gas_limit,
            target_address: interpreter.input.target_address,
            caller: interpreter.input.target_address,
            bytecode_address: operands.to,
            value: CallValue::Transfer(operands.value),
            scheme: CallScheme::CallCode,
            is_static: interpreter.runtime_flag.is_static,
            return_memory_offset: operands.return_memory_offset,
        },
        CallScheme::DelegateCall => CallInputs {
            input: CallInput::SharedBuffer(operands.input),
            gas_limit,
            target_address: interpreter.input.target_address,
            caller: interpreter.input.caller_address,
            bytecode_address: operands.to,
            value: CallValue::Apparent(interpreter.input.call_value),
            scheme: CallScheme::DelegateCall,
            is_static: interpreter.runtime_flag.is_static,
            return_memory_offset: operands.return_memory_offset,
        },
        CallScheme::StaticCall => CallInputs {
            input: CallInput::SharedBuffer(operands.input),
            gas_limit,
            target_address: operands.to,
            caller: interpreter.input.target_address,
            bytecode_address: operands.to,
            value: CallValue::Transfer(operands.value),
            scheme: CallScheme::StaticCall,
            is_static: true,
            return_memory_offset: operands.return_memory_offset,
        },
    };
    interpreter.set_action(InterpreterAction::NewFrame(FrameInput::Call(inputs)));
}

/// Runs a call instruction of kind `scheme`: takes the operands, asks the
/// executer to load the account called, and finishes with its answer.
fn call_with_scheme<H: Host>(context: InstructionContext<'_, H>, scheme: CallScheme)
    requires
        old(context.interpreter).wf(),
    ensures
        call_operands_of(old(context.interpreter)@, scheme).1 is None
            ==> final(context.interpreter)@
            == call_operands_of(old(context.interpreter)@, scheme).0,
        exists|load: Option<StateLoad<AccountLoad>>|
            final(context.interpreter)@
                == #[trigger] call_of(old(context.interpreter)@, scheme, load),
{
    let operands = match call_operands(context.interpreter, scheme) {
        Some(operands) => operands,
        None => {
            assert(context.interpreter@ == call_of(old(context.interpreter)@, scheme, None));
            return ;
        },
    };
    let load = context.host.load_account_delegated(operands.to);
    call_after_load(context.interpreter, scheme, operands, load);
    assert(context.interpreter@ == call_of(old(context.interpreter)@, scheme, load));
}

/// The `CALL` instruction: a message call to another account, with value.
/// What it makes of the frame is [`call_of`] for `CallScheme::Call` and
/// whatever the executer answers to the load of the account called; where
/// the operands cannot be taken, the executer is not asked.
pub fn call<H: Host>(context: InstructionContext<'_, H>)
    requires
        old(context.interpreter).wf(),
    ensures
        call_operands_of(old(context.interpreter)@, CallScheme::Call).1 is None
            ==> final(context.interpreter)@
                == call_operands_of(old(context.interpreter)@, CallScheme::Call).0,
        exists|load: Option<StateLoad<AccountLoad>>|
            final(context.interpreter)@ == #[trigger] call_of(
                old(context.interpreter)@,
                CallScheme::Call,
                load,
            ),
{
    call_with_scheme(context, CallScheme::Call)
}

/// The `CALLCODE` instruction: a message call that runs the code of
/// another account on the state of the current one. What it makes of the
/// frame is [`call_of`] for `CallScheme::CallCode`.
pub fn call_code<H: Host>(context: InstructionContext<'_, H>)
    requires
        old(context.interpreter).wf(),
    ensures
        call_operands_of(old(context.interpreter)@, CallScheme::CallCode).1 is None
            ==> final(context.interpreter)@
                == call_operands_of(old(context.interpreter)@, CallScheme::CallCode).0,
        exists|load: Option<StateLoad<AccountLoad>>|
            final(context.interpreter)@ == #[trigger] call_of(
                old(context.interpreter)@,
                CallScheme::CallCode,
                load,
            ),
{
    call_with_scheme(context, CallScheme::CallCode)
}

/// The `DELEGATECALL` instruction: a message call that runs the code of
/// another account on the state of the current one, with the caller and the
/// value of the current frame. What it makes of the frame is [`call_of`]
/// for `CallScheme::DelegateCall`.
pub fn delegate_call<H: Host>(context: InstructionContext<'_, H>)
    requires
        old(context.interpreter).wf(),
    ensures
        call_operands_of(old(context.interpreter)@, CallScheme::DelegateCall).1 is None
            ==> final(context.interpreter)@
                == call_operands_of(old(context.interpreter)@, CallScheme::DelegateCall).0,
        exists|load: Option<StateLoad<AccountLoad>>|
            final(context.interpreter)@ == #[trigger] call_of(
                old(context.interpreter)@,
                CallScheme::DelegateCall,
                load,
            ),
{
    call_with_scheme(context, CallScheme::DelegateCall)
}

/// The `STATICCALL` instruction: a message call that may not change the
/// state. What it makes of the frame is [`call_of`] for
/// `CallScheme::StaticCall`.
pub fn static_call<H: Host>(context: InstructionContext<'_, H>)
    requires
        old(context.interpreter).wf(),
    ensures
        call_operands_of(old(context.interpreter)@, CallScheme::StaticCall).1 is None
            ==> final(context.interpreter)@
                == call_operands_of(old(context.interpreter)@, CallScheme::StaticCall).0,
        exists|load: Option<StateLoad<AccountLoad>>|
            final(context.interpreter)@ == #[trigger] call_of(
                old(context.interpreter)@,
                CallScheme::StaticCall,
                load,
            ),
{
    call_with_scheme(context, CallScheme::StaticCall)
}

/// The init code of a create, and the frame after the code is metered
/// and read. `len` and `code_offset` are the words from the stack. A length
/// that does not fit a `usize` halts the frame with `InvalidOperandOOG`. A
/// length of zero gives no code and costs nothing. From Shanghai on, code
/// longer than `max_initcode_size` halts the frame with
/// `CreateInitCodeSizeLimit`, and any other is paid for by the word. Then
/// the memory is made to hold the code, and the code is read from it.
pub open spec fn init_code_of(
    i: InterpreterModel,
    code_offset: U256,
    len: U256,
    max_initcode_size: usize,
) -> (InterpreterModel, Option<Seq<u8>>) {
    if len.value() > usize::MAX {
        (i.halted(InstructionResult::InvalidOperandOOG), None)
    } else if len.value() == 0 {
        (i, Some(Seq::empty()))
    } else {
        let size = len.value() as usize;
        let shanghai = i.runtime_flag.spec_id.is_enabled_in(SpecId::SHANGHAI);
        if shanghai && size > max_initcode_size {
            (i.halted(InstructionResult::CreateInitCodeSizeLimit), None)
        } else {
            let metered = if shanghai {
                i.charged(spec_initcode_cost(size))
            } else {
                i
            };
            if shanghai && spec_initcode_cost(size) > i.gas.remaining {
                (metered, None)
            } else if code_offset.value() > usize::MAX {
                (metered.halted(InstructionResult::InvalidOperandOOG), None)
            } else {
                let start = code_offset.value() as usize;
                let resized = metered.memory_resized_or_halted(start, size);
                if metered.can_resize(start, size) {
                    (
                        resized,
                        Some(
                            resized.memory.subrange(
                                resized.memory_checkpoint + start,
                                resized.memory_checkpoint + start + size,
                            ),
                        ),
                    )
                } else {
                    (resized, None)
                }
            }
        }
    }
}

/// The scheme of a create, and the frame after its base price is charged.
/// `CREATE2` takes the salt from the stack and pays the price of a create
/// and of hashing the init code; `CREATE` pays the price of a create.
pub open spec fn create_scheme_of(i: InterpreterModel, is_create2: bool, len: usize) -> (
    InterpreterModel,
    Option<CreateScheme>,
) {
    if is_create2 {
        if i.stack.len() < 1 {
            (i.popped(1), None)
        } else {
            let popped = i.popped(1);
            match spec_create2_cost(len) {
                None => (popped.halted(InstructionResult::OutOfGas), None),
                Some(cost) => (
                    popped.charged(cost),
                    if cost <= popped.gas.remaining {
                        Some(CreateScheme::Create2 { salt: i.top_words(1)[0] })
                    } else {
                        None
                    },
                ),
            }
        }
    } else {
        (
            i.charged(CREATE),
            if CREATE <= i.gas.remaining {
                Some(CreateScheme::Create)
            } else {
                None
            },
        )
    }
}

/// The gas that a create hands to the new frame: all that is left, less
/// a sixty-fourth of it from Tangerine on.
pub open spec fn create_gas_of(i: InterpreterModel) -> u64 {
    if i.runtime_flag.spec_id.is_enabled_in(SpecId::TANGERINE) {
        i.gas.spec_remaining_63_of_64_parts()
    } else {
        i.gas.remaining
    }
}

/// The frame after a create instruction, `CREATE2` where `is_create2` is
/// set, for an executer that allows init code of `max_initcode_size` bytes.
/// A static frame halts with `StateChangeDuringStaticCall`; `CREATE2` halts
/// with `NotActivated` before Petersburg. The stack holds, from the top,
/// the value, the offset of the init code and its length, and for `CREATE2`
/// the salt below them. The gas for the new frame is taken from what is
/// left, and the request for the create frame, made in the name of the
/// account that the frame works on, is the action of the frame.
pub open spec fn create_of(i: InterpreterModel, is_create2: bool, max_initcode_size: usize)
    -> InterpreterModel {
    if i.runtime_flag.is_static {
        i.halted(InstructionResult::StateChangeDuringStaticCall)
    } else if is_create2 && !i.runtime_flag.spec_id.is_enabled_in(SpecId::PETERSBURG) {
        i.halted(InstructionResult::NotActivated)
    } else if i.stack.len() < 3 {
        i.popped(3)
    } else {
        let words = i.top_words(3);
        let (with_code, code) = init_code_of(i.popped(3), words[1], words[2], max_initcode_size);
        match code {
            None => with_code,
            Some(init_code) => {
                let (priced, scheme) = create_scheme_of(
                    with_code,
                    is_create2,
                    words[2].value() as usize,
                );
                match scheme {
                    None => priced,
                    Some(scheme) => {
                        let gas_limit = create_gas_of(priced);
                        priced.charged(gas_limit).with_action(
                            InterpreterActionModel::NewFrame(
                                FrameInputModel::Create(
                                    CreateInputsModel {
                                        caller: i.input.target_address,
                                        scheme,
                                        value: words[0],
                                        init_code,
                                        gas_limit,
                                    },
                                ),
                            ),
                        )
                    },
                }
            },
        }
    }
}

/// Meters the init code of a create and reads it from memory: see
/// [`init_code_of`].
pub fn init_code(
    interpreter: &mut Interpreter,
    code_offset: U256,
    len: U256,
    max_initcode_size: usize,
) -> (r: Option<Vec<u8>>)
    requires
        old(interpreter).wf(),
    ensures
        final(interpreter)@
            == init_code_of(old(interpreter)@, code_offset, len, max_initcode_size).0,
        match r {
            Some(code) => Some(code@) == init_code_of(
                old(interpreter)@,
                code_offset,
                len,
                max_initcode_size,
            ).1 && code@.len() == len.value(),
            None => init_code_of(old(interpreter)@, code_offset, len, max_initcode_size).1 is None,
        },
{
    let len = match interpreter.as_usize_or_fail(len) {
        Some(len) => len,
        None => {
            return None;
        },
    };
    let mut code: Vec<u8> = Vec::new();
    if len != 0 {
        if interpreter.runtime_flag.spec_id.is_enabled_in(SpecId::SHANGHAI) {
            if len > max_initcode_size {
                interpreter.halt(InstructionResult::CreateInitCodeSizeLimit);
                return None;
            }
            if !interpreter.charge_or_halt(initcode_cost(len)) {
                return None;
            }
        }
        let code_offset = match interpreter.as_usize_or_fail(code_offset) {
            Some(code_offset) => code_offset,
            None => {
                return None;
            },
        };
        if !interpreter.resize_memory_or_halt(code_offset, len) {
            return None;
        }
        let total = interpreter.memory.buffer.len();
        assert(interpreter.memory.my_checkpoint + code_offset + len <= total);
        let start = interpreter.memory.my_checkpoint + code_offset;
        let mut i: usize = 0;
        while i < len
            invariant
                i <= len,
                start + len <= interpreter.memory.buffer@.len() <= usize::MAX,
                code@ == interpreter.memory.buffer@.subrange(start as int, start + i),
            decreases len - i,
        {
            code.push(interpreter.memory.buffer[start + i]);
            assert(code@ =~= interpreter.memory.buffer@.subrange(start as int, start + i + 1));
            i = i + 1;
        }
    }
    Some(code)
}

/// Charges the base price of a create and settles its scheme: see
/// [`create_scheme_of`].
pub fn create_scheme(interpreter: &mut Interpreter, is_create2: bool, len: usize) -> (r: Option<
    CreateScheme,
>)
    ensures
        (final(interpreter)@, r) == create_scheme_of(old(interpreter)@, is_create2, len),
{
    if is_create2 {
        let words = match interpreter.pop_or_halt(1) {
            Some(words) => words,
            None => {
                return None;
            },
        };
        let cost = match create2_cost(len) {
            Some(cost) => cost,
            None => {
                interpreter.halt(InstructionResult::OutOfGas);
                return None;
            },
        };
        if !interpreter.charge_or_halt(cost) {
            return None;
        }
        Some(CreateScheme::Create2 { salt: words[0] })
    } else {
        if !interpreter.charge_or_halt(CREATE) {
            return None;
        }
        Some(CreateScheme::Create)
    }
}

/// Runs a create instruction for an executer that allows init code of
/// `max_initcode_size` bytes: see [`create_of`].
pub fn create_with_limit(interpreter: &mut Interpreter, is_create2: bool, max_initcode_size: usize)
    requires
        old(interpreter).wf(),
    ensures
        final(interpreter)@ == create_of(old(interpreter)@, is_create2, max_initcode_size),
{
    if !interpreter.require_non_staticcall() {
        return ;
    }
    if is_create2 {
        if !interpreter.check_fork(SpecId::PETERSBURG) {
            return ;
        }
    }
    let words = match interpreter.pop_or_halt(3) {
        Some(words) => words,
        None => {
            return ;
        },
    };
    let value = words[0];
    let code = match init_code(interpreter, words[1], words[2], max_initcode_size) {
        Some(code) => code,
        None => {
            return ;
        },
    };
    let scheme = match create_scheme(interpreter, is_create2, code.len()) {
        Some(scheme) => scheme,
        None => {
            return ;
        },
    };
    let mut gas_limit = interpreter.gas.remaining();
    if interpreter.runtime_flag.spec_id.is_enabled_in(SpecId::TANGERINE) {
        gas_limit = gas_limit - gas_limit / 64;
    }
    let paid = interpreter.charge_or_halt(gas_limit);
    assert(paid);
    let caller = interpreter.input.target_address;
    interpreter.set_action(
        InterpreterAction::NewFrame(
            FrameInput::Create(CreateInputs { caller, scheme, value, init_code: code, gas_limit }),
        ),
    );
}

/// Whether a create instruction needs to know the most bytes that init
/// code may have: the frame may change the state, the instruction is known
/// to the fork, the operands are on the stack, the init code has a length
/// above zero that fits a `usize`, and the fork is Shanghai or later.
pub open spec fn create_asks_limit(i: InterpreterModel, is_create2: bool) -> bool {
    &&& !i.runtime_flag.is_static
    &&& is_create2 ==> i.runtime_flag.spec_id.is_enabled_in(SpecId::PETERSBURG)
    &&& i.stack.len() >= 3
    &&& 0 < i.top_words(3)[2].value() <= usize::MAX
    &&& i.runtime_flag.spec_id.is_enabled_in(SpecId::SHANGHAI)
}

/// Where a create instruction does not need the limit on init code, the
/// limit makes no difference to what it does.
pub proof fn lemma_create_without_limit(i: InterpreterModel, is_create2: bool, limit: usize, other: usize)
    requires
        !create_asks_limit(i, is_create2),
    ensures
        create_of(i, is_create2, limit) == create_of(i, is_create2, other),
{
    if !i.runtime_flag.is_static && !(is_create2 && !i.runtime_flag.spec_id.is_enabled_in(
        SpecId::PETERSBURG,
    )) && i.stack.len() >= 3 {
        let words = i.top_words(3);
        crate::primitives::lemma_value_bounds(words[2]);
        assert(init_code_of(i.popped(3), words[1], words[2], limit) == init_code_of(
            i.popped(3),
            words[1],
            words[2],
            other,
        ));
    }
}

/// Says whether a create instruction needs to know the most bytes that
/// init code may have: see [`create_asks_limit`]. The frame is only looked
/// at.
pub fn create_needs_limit(interpreter: &Interpreter, is_create2: bool) -> (r: bool)
    ensures
        r == create_asks_limit(interpreter@, is_create2),
{
    if interpreter.runtime_flag.is_static {
        return false;
    }
    if is_create2 && !interpreter.runtime_flag.spec_id.is_enabled_in(SpecId::PETERSBURG) {
        return false;
    }
    let height = interpreter.stack.len();
    if height < 3 {
        return false;
    }
    let len = interpreter.stack[height - 3];
    assert(len == interpreter@.top_words(3)[2]);
    match len.checked_to_usize() {
        Some(len) => len != 0 && interpreter.runtime_flag.spec_id.is_enabled_in(SpecId::SHANGHAI),
        None => false,
    }
}

/// The `CREATE` instruction, and `CREATE2` where `IS_CREATE2` is set: a
/// request for a frame that creates a contract from init code in memory.
/// The executer is asked for the most bytes that init code may have only
/// where [`create_asks_limit`] holds. What the instruction makes of the
/// frame is [`create_of`] for that limit, and for any limit where none is
/// asked for.
pub fn create<const IS_CREATE2: bool, H: Host>(context: InstructionContext<'_, H>)
    requires
        old(context.interpreter).wf(),
    ensures
        !create_asks_limit(old(context.interpreter)@, IS_CREATE2) ==> final(context.interpreter)@
            == create_of(old(context.interpreter)@, IS_CREATE2, 0),
        exists|max_initcode_size: usize|
            final(context.interpreter)@ == #[trigger] create_of(
                old(context.interpreter)@,
                IS_CREATE2,
                max_initcode_size,
            ),
{
    let max_initcode_size = if create_needs_limit(context.interpreter, IS_CREATE2) {
        context.host.max_initcode_size()
    } else {
        0
    };
    create_with_limit(context.interpreter, IS_CREATE2, max_initcode_size);
}

} // verus!
