use journaled_evm::contract::{
    calc_call_gas, call, call_after_load, call_code, call_operands, create, create_needs_limit,
    create_with_limit, delegate_call, get_memory_input_and_out_ranges, resize_memory,
    static_call,
};
use journaled_evm::interpreter::{
    CallInput, CallInputs, CallScheme, CallValue, CreateInputs, CreateScheme, FrameInput, Host,
    InputsImpl, InstructionContext, InstructionResult, Interpreter, InterpreterAction,
    RuntimeFlag,
};
use journaled_evm::journal::StateLoad;
use journaled_evm::journal_model::AccountLoad;
use journaled_evm::primitives::{Address, SpecId, U256};

fn u(v: u64) -> U256 {
    U256::from_u64(v)
}

fn addr(v: u128) -> Address {
    Address { hi: 0, lo: v }
}

const TARGET: u128 = 0x7a;
const CALLER: u128 = 0xca;

fn frame(spec_id: SpecId, is_static: bool, gas_limit: u64) -> Interpreter {
    Interpreter::new(
        gas_limit,
        RuntimeFlag { is_static, spec_id },
        InputsImpl { target_address: addr(TARGET), caller_address: addr(CALLER), call_value: u(77) },
    )
}

/// Pushes `words` so that the first of them ends on top.
fn push_all(interpreter: &mut Interpreter, words: &[U256]) {
    for word in words.iter().rev() {
        assert!(interpreter.push(*word));
    }
}

struct MockHost {
    load: Option<StateLoad<AccountLoad>>,
    max_initcode_size: usize,
    asked: Vec<Address>,
    limit_asked: std::cell::Cell<usize>,
}

impl MockHost {
    fn answering(is_cold: bool, delegate: Option<bool>, is_empty: bool) -> Self {
        MockHost {
            load: Some(StateLoad::new(
                AccountLoad { is_delegate_account_cold: delegate, is_empty },
                is_cold,
            )),
            max_initcode_size: 49152,
            asked: Vec::new(),
            limit_asked: std::cell::Cell::new(0),
        }
    }
}

impl Host for MockHost {
    fn load_account_delegated(&mut self, address: Address) -> Option<StateLoad<AccountLoad>> {
        self.asked.push(address);
        self.load.as_ref().map(|l| {
            StateLoad::new(
                AccountLoad {
                    is_delegate_account_cold: l.data.is_delegate_account_cold,
                    is_empty: l.data.is_empty,
                },
                l.is_cold,
            )
        })
    }

    fn max_initcode_size(&self) -> usize {
        self.limit_asked.set(self.limit_asked.get() + 1);
        self.max_initcode_size
    }
}

fn halted_with(interpreter: &Interpreter) -> InstructionResult {
    match &interpreter.action {
        Some(InterpreterAction::Return(result)) => result.result,
        other => panic!("the frame did not halt: {:?}", other),
    }
}

fn call_request(interpreter: &Interpreter) -> &CallInputs {
    match &interpreter.action {
        Some(InterpreterAction::NewFrame(FrameInput::Call(inputs))) => inputs,
        other => panic!("no call was requested: {:?}", other),
    }
}

fn create_request(interpreter: &Interpreter) -> &CreateInputs {
    match &interpreter.action {
        Some(InterpreterAction::NewFrame(FrameInput::Create(inputs))) => inputs,
        other => panic!("no create was requested: {:?}", other),
    }
}

fn shared(inputs: &CallInputs) -> std::ops::Range<usize> {
    match &inputs.input {
        CallInput::SharedBuffer(range) => range.clone(),
        other => panic!("unexpected input {:?}", other),
    }
}

#[test]
fn call_without_value_caps_gas_at_what_the_caller_offers() {
    let mut interpreter = frame(SpecId::CANCUN, false, 100_000);
    push_all(&mut interpreter, &[u(50_000), u(0xbb), u(0), u(0), u(0), u(0), u(0)]);
    let mut host = MockHost::answering(false, None, false);
    call(InstructionContext { interpreter: &mut interpreter, host: &mut host });
    assert_eq!(host.asked, vec![addr(0xbb)]);
    let inputs = call_request(&interpreter);
    assert_eq!(inputs.gas_limit, 50_000);
    assert_eq!(inputs.target_address, addr(0xbb));
    assert_eq!(inputs.bytecode_address, addr(0xbb));
    assert_eq!(inputs.caller, addr(TARGET));
    assert_eq!(inputs.value, CallValue::Transfer(u(0)));
    assert_eq!(inputs.scheme, CallScheme::Call);
    assert!(!inputs.is_static);
    assert_eq!(shared(inputs), usize::MAX..usize::MAX);
    assert_eq!(inputs.return_memory_offset, usize::MAX..usize::MAX);
    assert_eq!(interpreter.gas.remaining(), 100_000 - 100 - 50_000);
    assert!(interpreter.stack.is_empty());
}

#[test]
fn call_with_value_to_a_cold_empty_account_pays_every_surcharge_and_hands_the_stipend() {
    let mut interpreter = frame(SpecId::CANCUN, false, 100_000);
    push_all(&mut interpreter, &[u(1_000_000), u(0xbb), u(1), u(0), u(0), u(0), u(0)]);
    let mut host = MockHost::answering(true, None, true);
    call(InstructionContext { interpreter: &mut interpreter, host: &mut host });
    let inputs = call_request(&interpreter);
    // 100000 - (2600 + 9000 + 25000) = 63400; all but a sixty-fourth is 62410.
    assert_eq!(inputs.gas_limit, 62_410 + 2300);
    assert_eq!(inputs.value, CallValue::Transfer(u(1)));
    assert_eq!(interpreter.gas.remaining(), 990);
}

#[test]
fn call_before_tangerine_hands_over_what_the_caller_offers() {
    let mut interpreter = frame(SpecId::HOMESTEAD, false, 100_000);
    push_all(&mut interpreter, &[u(99_000), u(0xbb), u(0), u(0), u(0), u(0), u(0)]);
    let mut host = MockHost::answering(true, None, false);
    call(InstructionContext { interpreter: &mut interpreter, host: &mut host });
    assert_eq!(call_request(&interpreter).gas_limit, 99_000);
    assert_eq!(interpreter.gas.remaining(), 100_000 - 40 - 99_000);

    let mut interpreter = frame(SpecId::HOMESTEAD, false, 100_000);
    push_all(&mut interpreter, &[u(100_000), u(0xbb), u(0), u(0), u(0), u(0), u(0)]);
    call(InstructionContext { interpreter: &mut interpreter, host: &mut host });
    assert_eq!(halted_with(&interpreter), InstructionResult::OutOfGas);
}

#[test]
fn call_takes_the_gas_offer_as_unbounded_when_it_is_huge() {
    let mut interpreter = frame(SpecId::CANCUN, false, 6400);
    push_all(
        &mut interpreter,
        &[U256::max_value(), U256 { hi: 0xdead_0000_ffff_ffff, lo: 0xbb }, u(0), u(0), u(0), u(0), u(0)],
    );
    let mut host = MockHost::answering(false, None, false);
    call(InstructionContext { interpreter: &mut interpreter, host: &mut host });
    // The address is the low twenty bytes of the word.
    assert_eq!(host.asked, vec![Address { hi: 0xffff_ffff, lo: 0xbb }]);
    // 6400 - 100 = 6300; all but a sixty-fourth is 6300 - 98 = 6202.
    assert_eq!(call_request(&interpreter).gas_limit, 6202);
    assert_eq!(interpreter.gas.remaining(), 98);
}

#[test]
fn call_meters_memory_for_input_and_output() {
    let mut interpreter = frame(SpecId::CANCUN, false, 100_000);
    interpreter.memory.buffer = vec![0u8; 10];
    interpreter.memory.my_checkpoint = 10;
    push_all(&mut interpreter, &[u(1000), u(0xbb), u(0), u(0), u(32), u(32), u(32)]);
    let mut host = MockHost::answering(false, None, false);
    call(InstructionContext { interpreter: &mut interpreter, host: &mut host });
    let inputs = call_request(&interpreter);
    assert_eq!(shared(inputs), 10..42);
    assert_eq!(inputs.return_memory_offset, 32..64);
    assert_eq!(interpreter.memory.buffer.len(), 10 + 64);
    assert_eq!(interpreter.gas.memory.words_num, 2);
    assert_eq!(interpreter.gas.remaining(), 100_000 - 6 - 100 - 1000);
}

#[test]
fn call_with_value_in_a_static_frame_is_refused() {
    let mut interpreter = frame(SpecId::CANCUN, true, 100_000);
    push_all(&mut interpreter, &[u(1000), u(0xbb), u(1), u(0), u(0), u(0), u(0)]);
    let mut host = MockHost::answering(false, None, false);
    call(InstructionContext { interpreter: &mut interpreter, host: &mut host });
    assert_eq!(halted_with(&interpreter), InstructionResult::CallNotAllowedInsideStatic);
    assert!(host.asked.is_empty());
    assert_eq!(interpreter.gas.remaining(), 100_000);

    let mut interpreter = frame(SpecId::CANCUN, true, 100_000);
    push_all(&mut interpreter, &[u(1000), u(0xbb), u(0), u(0), u(0), u(0), u(0)]);
    call(InstructionContext { interpreter: &mut interpreter, host: &mut host });
    assert!(call_request(&interpreter).is_static);
}

#[test]
fn call_halts_on_a_short_stack_and_on_a_failed_load() {
    let mut interpreter = frame(SpecId::CANCUN, false, 100_000);
    push_all(&mut interpreter, &[u(1000), u(0xbb)]);
    let mut host = MockHost::answering(false, None, false);
    call(InstructionContext { interpreter: &mut interpreter, host: &mut host });
    assert_eq!(halted_with(&interpreter), InstructionResult::StackUnderflow);
    assert_eq!(interpreter.stack.len(), 2);

    let mut interpreter = frame(SpecId::CANCUN, false, 100_000);
    push_all(&mut interpreter, &[u(1000), u(0xbb), u(0), u(0), u(0), u(0)]);
    call(InstructionContext { interpreter: &mut interpreter, host: &mut host });
    assert_eq!(halted_with(&interpreter), InstructionResult::StackUnderflow);
    assert_eq!(interpreter.stack.len(), 3);

    let mut interpreter = frame(SpecId::CANCUN, false, 100_000);
    push_all(&mut interpreter, &[u(1000), u(0xbb), u(0), u(0), u(0), u(0), u(0)]);
    host.load = None;
    call(InstructionContext { interpreter: &mut interpreter, host: &mut host });
    assert_eq!(halted_with(&interpreter), InstructionResult::FatalExternalError);
}

#[test]
fn call_halts_when_the_price_or_the_memory_cannot_be_paid() {
    let mut interpreter = frame(SpecId::CANCUN, false, 99);
    push_all(&mut interpreter, &[u(1000), u(0xbb), u(0), u(0), u(0), u(0), u(0)]);
    let mut host = MockHost::answering(false, None, false);
    call(InstructionContext { interpreter: &mut interpreter, host: &mut host });
    assert_eq!(halted_with(&interpreter), InstructionResult::OutOfGas);
    assert_eq!(interpreter.gas.remaining(), 99);

    let mut interpreter = frame(SpecId::CANCUN, false, 5);
    push_all(&mut interpreter, &[u(1000), u(0xbb), u(0), u(0), u(64), u(0), u(0)]);
    call(InstructionContext { interpreter: &mut interpreter, host: &mut host });
    assert_eq!(halted_with(&interpreter), InstructionResult::MemoryOOG);

    let mut interpreter = frame(SpecId::CANCUN, false, 100_000);
    push_all(
        &mut interpreter,
        &[u(1000), u(0xbb), u(0), u(0), U256 { hi: 1, lo: 0 }, u(0), u(0)],
    );
    call(InstructionContext { interpreter: &mut interpreter, host: &mut host });
    assert_eq!(halted_with(&interpreter), InstructionResult::InvalidOperandOOG);

    let mut interpreter = frame(SpecId::CANCUN, false, 100_000);
    push_all(
        &mut interpreter,
        &[u(1000), u(0xbb), u(0), U256 { hi: 1, lo: 0 }, u(1), u(0), u(0)],
    );
    call(InstructionContext { interpreter: &mut interpreter, host: &mut host });
    assert_eq!(halted_with(&interpreter), InstructionResult::InvalidOperandOOG);
}

#[test]
fn call_code_runs_foreign_code_on_the_current_account() {
    let mut interpreter = frame(SpecId::CANCUN, false, 100_000);
    push_all(&mut interpreter, &[u(1000), u(0xbb), u(1), u(0), u(0), u(0), u(0)]);
    let mut host = MockHost::answering(false, None, true);
    call_code(InstructionContext { interpreter: &mut interpreter, host: &mut host });
    let inputs = call_request(&interpreter);
    assert_eq!(inputs.target_address, addr(TARGET));
    assert_eq!(inputs.caller, addr(TARGET));
    assert_eq!(inputs.bytecode_address, addr(0xbb));
    assert_eq!(inputs.value, CallValue::Transfer(u(1)));
    assert_eq!(inputs.scheme, CallScheme::CallCode);
    assert_eq!(inputs.gas_limit, 1000 + 2300);
    // The account called never counts as new.
    assert_eq!(interpreter.gas.remaining(), 100_000 - 100 - 9000 - 1000);
}

#[test]
fn delegate_call_keeps_caller_and_value() {
    let mut interpreter = frame(SpecId::CANCUN, true, 100_000);
    push_all(&mut interpreter, &[u(1000), u(0xbb), u(0), u(0), u(0), u(0)]);
    let mut host = MockHost::answering(true, None, true);
    delegate_call(InstructionContext { interpreter: &mut interpreter, host: &mut host });
    let inputs = call_request(&interpreter);
    assert_eq!(inputs.target_address, addr(TARGET));
    assert_eq!(inputs.caller, addr(CALLER));
    assert_eq!(inputs.bytecode_address, addr(0xbb));
    assert_eq!(inputs.value, CallValue::Apparent(u(77)));
    assert_eq!(inputs.scheme, CallScheme::DelegateCall);
    assert!(inputs.is_static);
    assert_eq!(inputs.gas_limit, 1000);
    assert_eq!(interpreter.gas.remaining(), 100_000 - 2600 - 1000);

    let mut interpreter = frame(SpecId::FRONTIER, false, 100_000);
    push_all(&mut interpreter, &[u(1000), u(0xbb), u(0), u(0), u(0), u(0)]);
    delegate_call(InstructionContext { interpreter: &mut interpreter, host: &mut host });
    assert_eq!(halted_with(&interpreter), InstructionResult::NotActivated);
    assert_eq!(interpreter.stack.len(), 6);
}

#[test]
fn static_call_is_static_and_moves_nothing() {
    let mut interpreter = frame(SpecId::CANCUN, false, 100_000);
    push_all(&mut interpreter, &[u(1000), u(0xbb), u(0), u(0), u(0), u(0)]);
    let mut host = MockHost::answering(false, Some(true), true);
    static_call(InstructionContext { interpreter: &mut interpreter, host: &mut host });
    let inputs = call_request(&interpreter);
    assert_eq!(inputs.target_address, addr(0xbb));
    assert_eq!(inputs.caller, addr(TARGET));
    assert_eq!(inputs.value, CallValue::Transfer(u(0)));
    assert_eq!(inputs.scheme, CallScheme::StaticCall);
    assert!(inputs.is_static);
    assert_eq!(interpreter.gas.remaining(), 100_000 - 2700 - 1000);

    let mut interpreter = frame(SpecId::SPURIOUS_DRAGON, false, 100_000);
    push_all(&mut interpreter, &[u(1000), u(0xbb), u(0), u(0), u(0), u(0)]);
    static_call(InstructionContext { interpreter: &mut interpreter, host: &mut host });
    assert_eq!(halted_with(&interpreter), InstructionResult::NotActivated);
}

#[test]
fn call_helpers_on_their_own() {
    let mut interpreter = frame(SpecId::CANCUN, false, 1000);
    assert_eq!(resize_memory(&mut interpreter, u(5), u(0)), Some(usize::MAX..usize::MAX));
    assert_eq!(interpreter.gas.remaining(), 1000);
    assert_eq!(resize_memory(&mut interpreter, u(5), u(60)), Some(5..65));
    assert_eq!(interpreter.gas.memory.words_num, 3);
    assert_eq!(interpreter.gas.remaining(), 1000 - 9);
    assert_eq!(interpreter.memory.buffer.len(), 96);
    assert_eq!(resize_memory(&mut interpreter, u(0), u(96)), Some(0..96));
    assert_eq!(interpreter.gas.remaining(), 1000 - 9);

    push_all(&mut interpreter, &[u(1), u(2), u(0), u(0)]);
    assert_eq!(
        get_memory_input_and_out_ranges(&mut interpreter),
        Some((1..3, usize::MAX..usize::MAX))
    );

    let load = StateLoad::new(AccountLoad { is_delegate_account_cold: None, is_empty: false }, true);
    let mut interpreter = frame(SpecId::CANCUN, false, 10_000);
    assert_eq!(calc_call_gas(&mut interpreter, load, false, 100_000), Some(7400 - 7400 / 64));
    assert_eq!(interpreter.gas.remaining(), 7400);
    let load = StateLoad::new(AccountLoad { is_delegate_account_cold: None, is_empty: false }, true);
    let mut interpreter = frame(SpecId::CANCUN, false, 2599);
    assert_eq!(calc_call_gas(&mut interpreter, load, false, 1), None);
    assert_eq!(halted_with(&interpreter), InstructionResult::OutOfGas);
}

#[test]
fn call_in_two_steps_matches_call_in_one() {
    let mut interpreter = frame(SpecId::CANCUN, false, 100_000);
    push_all(&mut interpreter, &[u(500), u(0xbb), u(3), u(0), u(0), u(0), u(0)]);
    let operands = call_operands(&mut interpreter, CallScheme::Call).unwrap();
    assert_eq!(operands.local_gas_limit, 500);
    assert_eq!(operands.to, addr(0xbb));
    assert_eq!(operands.value, u(3));
    let load = StateLoad::new(AccountLoad { is_delegate_account_cold: None, is_empty: false }, false);
    call_after_load(&mut interpreter, CallScheme::Call, operands, Some(load));
    assert_eq!(call_request(&interpreter).gas_limit, 500 + 2300);
    assert_eq!(interpreter.gas.remaining(), 100_000 - 9100 - 500);
}

#[test]
fn create_reads_init_code_and_keeps_a_sixty_fourth() {
    let mut interpreter = frame(SpecId::CANCUN, false, 1_000_000);
    interpreter.memory.buffer = (0u8..64).collect();
    push_all(&mut interpreter, &[u(5), u(2), u(60)]);
    let mut host = MockHost::answering(false, None, false);
    create::<false, MockHost>(InstructionContext { interpreter: &mut interpreter, host: &mut host });
    let inputs = create_request(&interpreter);
    assert_eq!(inputs.caller, addr(TARGET));
    assert_eq!(inputs.scheme, CreateScheme::Create);
    assert_eq!(inputs.value, u(5));
    assert_eq!(inputs.init_code, (2u8..62).collect::<Vec<u8>>());
    // 1000000 - 4 (init code) - 6 (memory) - 32000 = 967990, of which a
    // sixty-fourth, 15124, stays with the frame.
    assert_eq!(inputs.gas_limit, 952_866);
    assert_eq!(interpreter.gas.remaining(), 15_124);
}

#[test]
fn create_without_code_before_tangerine_hands_over_all_gas() {
    let mut interpreter = frame(SpecId::HOMESTEAD, false, 50_000);
    push_all(&mut interpreter, &[u(0), U256::max_value(), u(0)]);
    create_with_limit(&mut interpreter, false, 0);
    let inputs = create_request(&interpreter);
    assert!(inputs.init_code.is_empty());
    assert_eq!(inputs.gas_limit, 18_000);
    assert_eq!(interpreter.gas.remaining(), 0);
}

#[test]
fn create2_takes_a_salt_and_pays_for_hashing() {
    let mut interpreter = frame(SpecId::CANCUN, false, 1_000_000);
    push_all(&mut interpreter, &[u(5), u(0), u(33), u(0xabc)]);
    let mut host = MockHost::answering(false, None, false);
    create::<true, MockHost>(InstructionContext { interpreter: &mut interpreter, host: &mut host });
    let inputs = create_request(&interpreter);
    assert_eq!(inputs.scheme, CreateScheme::Create2 { salt: u(0xabc) });
    assert_eq!(inputs.init_code, vec![0u8; 33]);
    // init code 4, memory 6, create 32000, hashing 12.
    let left = 1_000_000 - 4 - 6 - 32_000 - 12;
    assert_eq!(inputs.gas_limit, left - left / 64);
    assert_eq!(interpreter.gas.remaining(), left / 64);
    assert!(interpreter.stack.is_empty());

    let mut interpreter = frame(SpecId::BYZANTIUM, false, 1_000_000);
    push_all(&mut interpreter, &[u(5), u(0), u(33), u(0xabc)]);
    create::<true, MockHost>(InstructionContext { interpreter: &mut interpreter, host: &mut host });
    assert_eq!(halted_with(&interpreter), InstructionResult::NotActivated);
}

#[test]
fn create_is_refused_in_a_static_frame_and_for_oversized_code() {
    let mut interpreter = frame(SpecId::CANCUN, true, 1_000_000);
    push_all(&mut interpreter, &[u(5), u(0), u(0)]);
    create_with_limit(&mut interpreter, false, 100);
    assert_eq!(halted_with(&interpreter), InstructionResult::StateChangeDuringStaticCall);

    let mut interpreter = frame(SpecId::SHANGHAI, false, 1_000_000);
    push_all(&mut interpreter, &[u(5), u(0), u(101)]);
    create_with_limit(&mut interpreter, false, 100);
    assert_eq!(halted_with(&interpreter), InstructionResult::CreateInitCodeSizeLimit);
    assert_eq!(interpreter.gas.remaining(), 1_000_000);

    // Before Shanghai init code is neither limited nor metered.
    let mut interpreter = frame(SpecId::LONDON, false, 1_000_000);
    push_all(&mut interpreter, &[u(5), u(0), u(101)]);
    create_with_limit(&mut interpreter, false, 100);
    let left = 1_000_000 - 12 - 32_000;
    assert_eq!(create_request(&interpreter).gas_limit, left - left / 64);
}

#[test]
fn create_halts_on_each_shortage() {
    let mut interpreter = frame(SpecId::CANCUN, false, 1_000_000);
    push_all(&mut interpreter, &[u(5), u(0)]);
    create_with_limit(&mut interpreter, false, 100);
    assert_eq!(halted_with(&interpreter), InstructionResult::StackUnderflow);

    let mut interpreter = frame(SpecId::CANCUN, false, 1_000_000);
    push_all(&mut interpreter, &[u(5), u(0), u(10)]);
    create_with_limit(&mut interpreter, true, 100);
    assert_eq!(halted_with(&interpreter), InstructionResult::StackUnderflow);

    let mut interpreter = frame(SpecId::CANCUN, false, 1_000_000);
    push_all(&mut interpreter, &[u(5), u(0), U256 { hi: 1, lo: 0 }]);
    create_with_limit(&mut interpreter, false, 100);
    assert_eq!(halted_with(&interpreter), InstructionResult::InvalidOperandOOG);

    let mut interpreter = frame(SpecId::CANCUN, false, 1_000_000);
    push_all(&mut interpreter, &[u(5), U256 { hi: 1, lo: 0 }, u(10)]);
    create_with_limit(&mut interpreter, false, 100);
    assert_eq!(halted_with(&interpreter), InstructionResult::InvalidOperandOOG);

    let mut interpreter = frame(SpecId::CANCUN, false, 1);
    push_all(&mut interpreter, &[u(5), u(0), u(10)]);
    create_with_limit(&mut interpreter, false, 100);
    assert_eq!(halted_with(&interpreter), InstructionResult::OutOfGas);

    let mut interpreter = frame(SpecId::CANCUN, false, 4);
    push_all(&mut interpreter, &[u(5), u(0), u(10)]);
    create_with_limit(&mut interpreter, false, 100);
    assert_eq!(halted_with(&interpreter), InstructionResult::MemoryOOG);

    let mut interpreter = frame(SpecId::CANCUN, false, 31_000);
    push_all(&mut interpreter, &[u(5), u(0), u(10)]);
    create_with_limit(&mut interpreter, false, 100);
    assert_eq!(halted_with(&interpreter), InstructionResult::OutOfGas);
}

#[test]
fn stack_holds_a_thousand_and_twenty_four_words() {
    let mut interpreter = frame(SpecId::CANCUN, false, 0);
    for i in 0..1024 {
        assert!(interpreter.push(u(i)));
    }
    assert!(!interpreter.push(u(0)));
    let words = interpreter.pop_or_halt(2).unwrap();
    assert_eq!(words, vec![u(1023), u(1022)]);
    assert_eq!(interpreter.stack.len(), 1022);
}

#[test]
fn create_asks_for_the_limit_only_where_it_is_needed() {
    let run = |spec: SpecId, is_static: bool, words: &[U256]| {
        let mut interpreter = frame(spec, is_static, 1_000_000);
        push_all(&mut interpreter, words);
        let mut host = MockHost::answering(false, None, false);
        host.max_initcode_size = 100;
        let needed = create_needs_limit(&interpreter, false);
        create::<false, MockHost>(InstructionContext {
            interpreter: &mut interpreter,
            host: &mut host,
        });
        assert_eq!(host.limit_asked.get(), if needed { 1 } else { 0 });
        (needed, interpreter)
    };
    let (needed, interpreter) = run(SpecId::CANCUN, false, &[u(5), u(0), u(101)]);
    assert!(needed);
    assert_eq!(halted_with(&interpreter), InstructionResult::CreateInitCodeSizeLimit);
    let (needed, interpreter) = run(SpecId::CANCUN, false, &[u(5), u(0), u(100)]);
    assert!(needed);
    assert_eq!(create_request(&interpreter).init_code.len(), 100);
    // No length, an older fork, a static frame, a short stack or a length
    // beyond every memory: the limit is not asked for.
    assert!(!run(SpecId::CANCUN, false, &[u(5), u(0), u(0)]).0);
    assert!(!run(SpecId::LONDON, false, &[u(5), u(0), u(101)]).0);
    assert!(!run(SpecId::CANCUN, true, &[u(5), u(0), u(101)]).0);
    assert!(!run(SpecId::CANCUN, false, &[u(5), u(0)]).0);
    assert!(!run(SpecId::CANCUN, false, &[u(5), u(0), U256 { hi: 1, lo: 0 }]).0);
    let mut interpreter = frame(SpecId::BYZANTIUM, false, 1_000_000);
    push_all(&mut interpreter, &[u(5), u(0), u(10), u(1)]);
    assert!(!create_needs_limit(&interpreter, true));
}
