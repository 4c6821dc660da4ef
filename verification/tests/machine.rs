use crunch::error::RuntimeErrorTy;
use crunch::gc::HeapValue;
use crunch::instruction::Instruction;
use crunch::jit::Jit;
use crunch::value::RuntimeValue;
use crunch::vm::{interpret, run_with_fuel, RunState, Vm};

#[test]
fn jit_test() {
    let instructions = vec![
        Instruction::Load(RuntimeValue::I32(10), 0),
        Instruction::Load(RuntimeValue::I32(10), 1),
        Instruction::Add(0, 1),
        Instruction::Add(0, 1),
        Instruction::Load(RuntimeValue::Str("Test\n".to_string()), 0),
        Instruction::Print(0),
        Instruction::Print(0),
        Instruction::Jump(4),
        Instruction::Drop(0),
        Instruction::Load(RuntimeValue::Str("Test Two\n".to_string()), 0),
        Instruction::Print(0),
        Instruction::JumpPoint(0),
    ];
    let jit = Jit::new(instructions).unwrap();

    let mut vm = Vm::new();

    jit.run(&mut vm).unwrap();
}

fn end_to_end_program() -> Vec<Instruction> {
    vec![
        Instruction::Load(RuntimeValue::I32(10), 0),
        Instruction::Load(RuntimeValue::I32(10), 1),
        Instruction::Add(0, 1),
        Instruction::OpToReg(0),
        Instruction::Print(0),
    ]
}

#[test]
fn interpreter_prints_twenty_exactly_once() {
    let mut vm = Vm::new();
    interpret(&end_to_end_program(), &mut vm).unwrap();
    assert_eq!(vm.take_output(), "20");
}

#[test]
fn jit_prints_twenty_exactly_once() {
    let jit = Jit::new(end_to_end_program()).unwrap();
    let mut vm = Vm::new();
    jit.run(&mut vm).unwrap();
    assert_eq!(vm.take_output(), "20");
}

#[test]
fn printing_an_absent_register_fails_on_both_paths() {
    let program = vec![Instruction::Print(9)];
    let mut vm = Vm::new();
    let e = interpret(&program, &mut vm).unwrap_err();
    assert_eq!(e.ty, RuntimeErrorTy::NullVar);

    let jit = Jit::new(vec![Instruction::Print(9)]).unwrap();
    let mut vm = Vm::new();
    let e = jit.run(&mut vm).unwrap_err();
    assert_eq!(e.ty, RuntimeErrorTy::NullVar);
}

#[test]
fn comparisons_drive_conditional_jumps() {
    // print "hi" when 3 < 4, skipping the other branch
    let program = vec![
        Instruction::Load(RuntimeValue::U32(3), 0),
        Instruction::Load(RuntimeValue::U32(4), 1),
        Instruction::LessThan(0, 1),
        Instruction::JumpComp(3),
        Instruction::Load(RuntimeValue::Str("no\n".to_string()), 2),
        Instruction::Print(2),
        Instruction::JumpPoint(0),
        Instruction::Load(RuntimeValue::Str("hi\n".to_string()), 2),
        Instruction::Print(2),
    ];
    let mut vm = Vm::new();
    interpret(&program, &mut vm).unwrap();
    assert_eq!(vm.take_output(), "hi\n");

    let jit = Jit::new(program).unwrap();
    let mut vm = Vm::new();
    jit.run(&mut vm).unwrap();
    assert_eq!(vm.take_output(), "hi\n");
}

#[test]
fn comp_to_reg_materializes_the_flag() {
    let program = vec![
        Instruction::Load(RuntimeValue::U32(5), 0),
        Instruction::Load(RuntimeValue::U32(5), 1),
        Instruction::Eq(0, 1),
        Instruction::CompToReg(2),
        Instruction::Print(2),
    ];
    let mut vm = Vm::new();
    interpret(&program, &mut vm).unwrap();
    assert_eq!(vm.take_output(), "true");
}

#[test]
fn op_to_reg_empties_the_cache() {
    let program = vec![
        Instruction::Load(RuntimeValue::Byte(1), 0),
        Instruction::Load(RuntimeValue::Byte(2), 1),
        Instruction::Add(0, 1),
        Instruction::OpToReg(3),
    ];
    let mut vm = Vm::new();
    interpret(&program, &mut vm).unwrap();
    assert!(matches!(vm.registers[3], RuntimeValue::Byte(3)));
    assert!(matches!(vm.prev_op, RuntimeValue::NoneType));
}

#[test]
fn halt_stops_before_later_instructions() {
    let program = vec![
        Instruction::Load(RuntimeValue::Str("a".to_string()), 0),
        Instruction::Print(0),
        Instruction::Halt,
        Instruction::Print(0),
    ];
    let mut vm = Vm::new();
    interpret(&program, &mut vm).unwrap();
    assert!(vm.finished_execution);
    assert_eq!(vm.take_output(), "a");

    let jit = Jit::new(vec![
        Instruction::Load(RuntimeValue::Str("a".to_string()), 0),
        Instruction::Print(0),
        Instruction::Halt,
        Instruction::Print(0),
    ])
    .unwrap();
    let mut vm = Vm::new();
    jit.run(&mut vm).unwrap();
    assert!(vm.finished_execution);
    assert_eq!(vm.take_output(), "a");
}

#[test]
fn yield_pauses_and_resumes() {
    let program = vec![
        Instruction::Load(RuntimeValue::Str("one".to_string()), 0),
        Instruction::Print(0),
        Instruction::Yield,
        Instruction::Load(RuntimeValue::Str("two".to_string()), 0),
        Instruction::Print(0),
    ];
    let mut vm = Vm::new();
    interpret(&program, &mut vm).unwrap();
    assert!(!vm.finished_execution);
    assert_eq!(vm.take_output(), "one");
    interpret(&program, &mut vm).unwrap();
    assert_eq!(vm.take_output(), "two");
}

#[test]
fn illegal_always_fails() {
    let program = vec![Instruction::Illegal];
    let mut vm = Vm::new();
    let e = interpret(&program, &mut vm).unwrap_err();
    assert_eq!(e.ty, RuntimeErrorTy::InvalidInstruction);
}

#[test]
fn dropping_a_register_tombstones_it() {
    let program = vec![
        Instruction::Load(RuntimeValue::Byte(5), 0),
        Instruction::Drop(0),
        Instruction::Print(0),
    ];
    let mut vm = Vm::new();
    let e = interpret(&program, &mut vm).unwrap_err();
    assert_eq!(e.ty, RuntimeErrorTy::NullVar);
    assert!(matches!(vm.registers[0], RuntimeValue::NoneType));
}

#[test]
fn collect_keeps_rooted_slots_only() {
    let mut vm = Vm::new();
    let keep = vm.gc.allocate(HeapValue::Str("keep".to_string())).unwrap();
    let lose = vm.gc.allocate(HeapValue::Str("lose".to_string())).unwrap();
    vm.registers[0] = RuntimeValue::GcString(keep);
    let program = vec![Instruction::Collect];
    interpret(&program, &mut vm).unwrap();
    assert!(matches!(vm.gc.fetch(keep), Ok(HeapValue::Str(_))));
    let e = vm.gc.fetch(lose).unwrap_err();
    assert_eq!(e.ty, RuntimeErrorTy::InvalidHandle);
}

#[test]
fn backward_jumps_loop_in_the_interpreter() {
    // count register 0 down from 3, looping over the decrement
    let program = vec![
        Instruction::Load(RuntimeValue::U32(3), 0),
        Instruction::Load(RuntimeValue::U32(1), 1),
        Instruction::Load(RuntimeValue::U32(0), 2),
        Instruction::JumpPoint(0),
        Instruction::Sub(0, 1),
        Instruction::OpToReg(0),
        Instruction::Print(0),
        Instruction::GreaterThan(0, 2),
        Instruction::JumpComp(-5),
    ];
    let mut vm = Vm::new();
    interpret(&program, &mut vm).unwrap();
    assert_eq!(vm.take_output(), "210");
}

#[test]
fn balanced_jumps_compile() {
    let program = vec![
        Instruction::Jump(2),
        Instruction::NoOp,
        Instruction::JumpPoint(0),
        Instruction::JumpPoint(1),
        Instruction::NoOp,
        Instruction::Jump(-2),
    ];
    assert!(Jit::new(program).is_ok());
}

#[test]
fn a_missing_forward_target_is_a_compile_error() {
    // the same stream with the forward jump's point removed
    let program = vec![
        Instruction::Jump(2),
        Instruction::NoOp,
        Instruction::NoOp,
        Instruction::JumpPoint(1),
        Instruction::NoOp,
        Instruction::Jump(-2),
    ];
    let e = Jit::new(program).unwrap_err();
    assert_eq!(e.ty, RuntimeErrorTy::JitError);
}

#[test]
fn a_missing_backward_target_is_a_compile_error() {
    let program = vec![Instruction::NoOp, Instruction::Jump(-1)];
    let e = Jit::new(program).unwrap_err();
    assert_eq!(e.ty, RuntimeErrorTy::JitError);
}

#[test]
fn an_unconsumed_jump_point_is_a_compile_error() {
    let program = vec![Instruction::JumpPoint(0), Instruction::NoOp];
    let e = Jit::new(program).unwrap_err();
    assert_eq!(e.ty, RuntimeErrorTy::JitError);
}

#[test]
fn compiled_backward_jumps_loop() {
    let program = vec![
        Instruction::Load(RuntimeValue::U32(3), 0),
        Instruction::Load(RuntimeValue::U32(1), 1),
        Instruction::Load(RuntimeValue::U32(0), 2),
        Instruction::JumpPoint(0),
        Instruction::Sub(0, 1),
        Instruction::OpToReg(0),
        Instruction::Print(0),
        Instruction::GreaterThan(0, 2),
        Instruction::JumpComp(-5),
    ];
    let jit = Jit::new(program).unwrap();
    let mut vm = Vm::new();
    jit.run(&mut vm).unwrap();
    assert_eq!(vm.take_output(), "210");
}

#[test]
fn move_not_and_noteq_work_through_the_machine() {
    let program = vec![
        Instruction::Load(RuntimeValue::Byte(0b1010), 0),
        Instruction::Move(0, 1),
        Instruction::Not(1),
        Instruction::OpToReg(2),
        Instruction::Print(2),
        Instruction::NotEq(0, 2),
        Instruction::CompToReg(3),
        Instruction::Print(3),
        Instruction::And(0, 0),
        Instruction::OpToReg(4),
        Instruction::Print(4),
    ];
    let mut vm = Vm::new();
    interpret(&program, &mut vm).unwrap();
    // !0b1010 == 245; 10 != 245; 10 & 10 == 10
    assert_eq!(vm.take_output(), "245true10");
    assert!(matches!(vm.registers[1], RuntimeValue::Byte(0b1010)));
}

#[test]
fn a_small_step_budget_reports_exhaustion() {
    let program = vec![
        Instruction::NoOp,
        Instruction::NoOp,
        Instruction::NoOp,
    ];
    let mut vm = Vm::new();
    assert_eq!(run_with_fuel(&program, &mut vm, 1).unwrap(), RunState::Exhausted);
    assert_eq!(vm.index, 1);
    assert_eq!(run_with_fuel(&program, &mut vm, 64).unwrap(), RunState::Finished);
}

#[test]
fn a_compiled_function_keeps_its_instruction_stream() {
    let program = vec![Instruction::NoOp, Instruction::Halt];
    let jit = Jit::new(program).unwrap();
    assert_eq!(jit.reference.len(), 2);
    assert!(matches!(jit.reference[0], Instruction::NoOp));
    assert!(matches!(jit.reference[1], Instruction::Halt));
}

#[test]
fn func_and_return_manage_the_frame_stack() {
    // the comparison flag routes the two entries into the stream: the
    // caller path sets it and calls; the callee entry branches straight to
    // the return
    let program = vec![
        Instruction::JumpComp(5),
        Instruction::Load(RuntimeValue::U32(1), 0),
        Instruction::Load(RuntimeValue::U32(0), 1),
        Instruction::GreaterThan(0, 1),
        Instruction::Func(9),
        Instruction::JumpPoint(0),
        Instruction::Return,
    ];
    let mut vm = Vm::new();
    interpret(&program, &mut vm).unwrap();
    // the call pushed a frame and re-entered at the top; the callee's
    // return popped back to the instruction after the call, whose own
    // return then finished the run on an empty stack
    assert!(vm.finished_execution);
    assert!(vm.returning);
    assert_eq!(vm.return_stack.len(), 0);
    assert_eq!(vm.current_func, 0);
}
