use regvm::instruction::{Comparison, Fault, Instruction, Output};
use regvm::semantics::RunStatus;
use regvm::vm::{StepOutcome, Vm};

use Instruction::{
    Add, Del, Div, JmpIfNotZero, JmpIfZero, Jump, JumpCmp, Mul, Out, OutStr, Push, Sub,
};

fn run_all(program: Vec<Instruction>) -> (Vm, Vec<Output>, Result<RunStatus, Fault>) {
    let mut vm = Vm::new(program);
    let mut out = Vec::new();
    let r = vm.run(10_000, &mut out);
    (vm, out, r)
}

fn binary(op: fn(usize, usize, usize) -> Instruction, a: i32, b: i32) -> (Vec<Output>, Result<RunStatus, Fault>) {
    let (_, out, r) = run_all(vec![Push { val: a }, Push { val: b }, op(0, 0, 1), Out { src: 0 }]);
    (out, r)
}

fn add(dst: usize, src1: usize, src2: usize) -> Instruction {
    Add { dst, src1, src2 }
}
fn sub(dst: usize, src1: usize, src2: usize) -> Instruction {
    Sub { dst, src1, src2 }
}
fn mul(dst: usize, src1: usize, src2: usize) -> Instruction {
    Mul { dst, src1, src2 }
}
fn div(dst: usize, src1: usize, src2: usize) -> Instruction {
    Div { dst, src1, src2 }
}

#[test]
fn push_then_out_prints_in_push_order() {
    let vals = [4, -9, 0, i32::MAX, i32::MIN];
    let mut program: Vec<Instruction> = vals.iter().map(|&v| Push { val: v }).collect();
    program.extend((0..vals.len()).map(|i| Out { src: i }));
    let (vm, out, r) = run_all(program);
    assert_eq!(r, Ok(RunStatus::Halted));
    assert_eq!(out, vals.iter().map(|&v| Output::Value(v)).collect::<Vec<_>>());
    assert_eq!(vm.stack, vals.to_vec());
    assert_eq!(vm.current_instr, 10);
}

#[test]
fn empty_program_halts_at_once() {
    let mut vm = Vm::new(vec![]);
    assert_eq!(vm.step(), Ok(StepOutcome::Halted));
    let mut out = Vec::new();
    assert_eq!(vm.run(0, &mut out), Ok(RunStatus::Halted));
    assert!(out.is_empty());
}

#[test]
fn arithmetic_results() {
    assert_eq!(binary(add, 4, 9).0, vec![Output::Value(13)]);
    assert_eq!(binary(sub, 4, 9).0, vec![Output::Value(-5)]);
    assert_eq!(binary(mul, -6, 7).0, vec![Output::Value(-42)]);
    assert_eq!(binary(div, 17, 5).0, vec![Output::Value(3)]);
}

#[test]
fn division_truncates_toward_zero() {
    assert_eq!(binary(div, -7, 2).0, vec![Output::Value(-3)]);
    assert_eq!(binary(div, 7, -2).0, vec![Output::Value(-3)]);
    assert_eq!(binary(div, -7, -2).0, vec![Output::Value(3)]);
    assert_eq!(binary(div, 0, -5).0, vec![Output::Value(0)]);
}

#[test]
fn division_by_zero_faults_without_output() {
    let (out, r) = binary(div, 5, 0);
    assert!(out.is_empty());
    assert_eq!(r, Err(Fault::DivisionByZero { pc: 2 }));
}

#[test]
fn overflow_faults() {
    assert_eq!(binary(add, i32::MAX, 1).1, Err(Fault::ArithmeticOverflow { pc: 2 }));
    assert_eq!(binary(sub, i32::MIN, 1).1, Err(Fault::ArithmeticOverflow { pc: 2 }));
    assert_eq!(binary(mul, 65536, 65536).1, Err(Fault::ArithmeticOverflow { pc: 2 }));
    assert_eq!(binary(div, i32::MIN, -1).1, Err(Fault::ArithmeticOverflow { pc: 2 }));
    assert_eq!(binary(add, i32::MAX, 0).0, vec![Output::Value(i32::MAX)]);
}

#[test]
fn fault_leaves_state_unchanged() {
    let mut vm = Vm::new(vec![Push { val: 1 }, Push { val: 0 }, Div { dst: 0, src1: 0, src2: 1 }]);
    vm.step().unwrap();
    vm.step().unwrap();
    assert_eq!(vm.step(), Err(Fault::DivisionByZero { pc: 2 }));
    assert_eq!(vm.stack, vec![1, 0]);
    assert_eq!(vm.current_instr, 2);
}

#[test]
fn registers_may_alias() {
    let (_, out, _) = run_all(vec![Push { val: 6 }, Mul { dst: 0, src1: 0, src2: 0 }, Out { src: 0 }]);
    assert_eq!(out, vec![Output::Value(36)]);
}

#[test]
fn copy_takes_source_value() {
    let (vm, _, r) = run_all(vec![Push { val: 1 }, Push { val: 2 }, Instruction::Copy { dst: 0, src: 1 }]);
    assert_eq!(r, Ok(RunStatus::Halted));
    assert_eq!(vm.stack, vec![2, 2]);
}

#[test]
fn jump_resumes_at_target() {
    let program = vec![
        Jump { dst: 2 },
        OutStr { str: "skipped" },
        OutStr { str: "landed" },
    ];
    let mut vm = Vm::new(program);
    assert_eq!(vm.step(), Ok(StepOutcome::Executed(None)));
    assert_eq!(vm.current_instr, 2);
    assert_eq!(vm.step(), Ok(StepOutcome::Executed(Some(Output::Text("landed")))));
    assert_eq!(vm.step(), Ok(StepOutcome::Halted));
}

#[test]
fn jump_to_length_halts() {
    let (vm, out, r) = run_all(vec![Jump { dst: 2 }, OutStr { str: "never" }]);
    assert_eq!(r, Ok(RunStatus::Halted));
    assert!(out.is_empty());
    assert_eq!(vm.current_instr, 2);
}

#[test]
fn jump_past_length_halts() {
    let (vm, out, r) = run_all(vec![OutStr { str: "a" }, Jump { dst: 3 }]);
    assert_eq!(r, Ok(RunStatus::Halted));
    assert_eq!(out, vec![Output::Text("a")]);
    assert_eq!(vm.current_instr, 3);
}

#[test]
fn branch_past_end_halts_silently() {
    let program = vec![
        Push { val: 4 },
        Push { val: 9 },
        Push { val: 15 },
        Add { dst: 0, src1: 0, src2: 1 },
        JumpCmp { dst: 5, els: 10, cmp: Comparison::Gt(0, 2) },
        OutStr { str: "Greater than 15" },
    ];
    let (vm, out, r) = run_all(program);
    assert_eq!(r, Ok(RunStatus::Halted));
    assert!(out.is_empty());
    assert_eq!(vm.current_instr, 10);
    assert_eq!(vm.stack, vec![13, 9, 15]);
}

#[test]
fn endless_loop_stops_at_step_limit() {
    let mut vm = Vm::new(vec![OutStr { str: "tick" }, Jump { dst: 0 }]);
    let mut out = Vec::new();
    assert_eq!(vm.run(5, &mut out), Ok(RunStatus::StepLimitReached));
    assert_eq!(out, vec![Output::Text("tick"); 3]);
    assert_eq!(vm.current_instr, 1);
}

fn branch_taken(cmp: fn(usize, usize) -> Comparison, a: i32, b: i32) -> bool {
    let program = vec![
        Push { val: a },
        Push { val: b },
        JumpCmp { dst: 4, els: 3, cmp: cmp(0, 1) },
        Jump { dst: 5 },
        OutStr { str: "then" },
    ];
    let (_, out, r) = run_all(program);
    assert_eq!(r, Ok(RunStatus::Halted));
    out == vec![Output::Text("then")]
}

#[test]
fn greater_than_branches() {
    assert!(branch_taken(Comparison::Gt, 5, 4));
    assert!(!branch_taken(Comparison::Gt, 4, 4));
    assert!(!branch_taken(Comparison::Gt, 3, 4));
    assert!(branch_taken(Comparison::Gt, -1, -2));
    assert!(!branch_taken(Comparison::Gt, i32::MIN, i32::MAX));
}

#[test]
fn all_comparators_on_boundary_values() {
    let pairs = [(3, 3), (3, 4), (4, 3), (-5, -5), (-5, -4), (-4, -5), (i32::MIN, i32::MAX)];
    for (a, b) in pairs {
        assert_eq!(branch_taken(Comparison::Eq, a, b), a == b);
        assert_eq!(branch_taken(Comparison::Neq, a, b), a != b);
        assert_eq!(branch_taken(Comparison::Gt, a, b), a > b);
        assert_eq!(branch_taken(Comparison::Lt, a, b), a < b);
        assert_eq!(branch_taken(Comparison::Geq, a, b), a >= b);
        assert_eq!(branch_taken(Comparison::Leq, a, b), a <= b);
    }
}

#[test]
fn comparison_holds_and_operands() {
    assert!(Comparison::Geq(0, 1).holds(2, 2));
    assert!(!Comparison::Lt(0, 1).holds(2, 2));
    assert_eq!(Comparison::Leq(3, 7).operands(), (3, 7));
}

#[test]
fn jump_if_zero_reads_register_value() {
    let program = vec![
        Push { val: 0 },
        Push { val: 1 },
        JmpIfZero { dst: 4, src: 1 },
        OutStr { str: "nonzero" },
        JmpIfNotZero { dst: 6, src: 0 },
        OutStr { str: "zero" },
    ];
    let (_, out, r) = run_all(program);
    assert_eq!(r, Ok(RunStatus::Halted));
    assert_eq!(out, vec![Output::Text("nonzero"), Output::Text("zero")]);
}

#[test]
fn delete_shifts_later_registers() {
    let program = vec![
        Push { val: 10 },
        Push { val: 20 },
        Push { val: 30 },
        Del { src: 1 },
        Out { src: 0 },
        Out { src: 1 },
    ];
    let (vm, out, r) = run_all(program);
    assert_eq!(r, Ok(RunStatus::Halted));
    assert_eq!(out, vec![Output::Value(10), Output::Value(30)]);
    assert_eq!(vm.stack, vec![10, 30]);
}

#[test]
fn read_at_old_highest_index_after_delete_faults() {
    let program = vec![Push { val: 10 }, Push { val: 20 }, Del { src: 0 }, Out { src: 1 }];
    let (vm, out, r) = run_all(program);
    assert!(out.is_empty());
    assert_eq!(r, Err(Fault::OutOfBoundsAccess { pc: 3, index: 1 }));
    assert_eq!(vm.stack, vec![20]);
}

#[test]
fn out_of_bounds_faults_for_every_kind() {
    let cases = vec![
        (Add { dst: 0, src1: 0, src2: 1 }, 1),
        (Sub { dst: 0, src1: 2, src2: 0 }, 2),
        (Mul { dst: 5, src1: 0, src2: 0 }, 5),
        (Div { dst: 0, src1: 0, src2: 9 }, 9),
        (Instruction::Copy { dst: 0, src: 1 }, 1),
        (Instruction::Copy { dst: 1, src: 0 }, 1),
        (Del { src: 1 }, 1),
        (Out { src: 1 }, 1),
        (JmpIfZero { dst: 0, src: 1 }, 1),
        (JmpIfNotZero { dst: 0, src: 3 }, 3),
        (JumpCmp { dst: 0, els: 0, cmp: Comparison::Eq(0, 1) }, 1),
        (JumpCmp { dst: 0, els: 0, cmp: Comparison::Lt(4, 0) }, 4),
    ];
    for (ins, index) in cases {
        let (vm, out, r) = run_all(vec![Push { val: 1 }, ins, OutStr { str: "after" }]);
        assert_eq!(r, Err(Fault::OutOfBoundsAccess { pc: 1, index }));
        assert!(out.is_empty());
        assert_eq!(vm.stack, vec![1]);
        assert_eq!(vm.current_instr, 1);
    }
}

#[test]
fn sum_compared_against_fifteen_takes_else_branch() {
    let program = vec![
        Push { val: 4 },
        Push { val: 9 },
        Push { val: 15 },
        Add { dst: 0, src1: 0, src2: 1 },
        JumpCmp { dst: 5, els: 10, cmp: Comparison::Gt(0, 2) },
        OutStr { str: "Greater than 15" },
        Jump { dst: 12 },
        OutStr { str: "unreachable" },
        OutStr { str: "unreachable" },
        OutStr { str: "unreachable" },
        Out { src: 0 },
        OutStr { str: "Not greater" },
    ];
    let (vm, out, r) = run_all(program);
    assert_eq!(r, Ok(RunStatus::Halted));
    assert_eq!(out, vec![Output::Value(13), Output::Text("Not greater")]);
    assert_eq!(vm.stack, vec![13, 9, 15]);
}
