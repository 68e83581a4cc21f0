//! The machine's meaning, as spec functions: one transition from a state, and
//! a bounded run made of such transitions.
use vstd::prelude::*;
use crate::instruction::{Fault, Instruction, Output, compares, operands_of};

verus! {

/// The mutable part of the machine: the register array and the program counter.
pub struct Machine {
    pub regs: Seq<i32>,
    pub pc: int,
}

/// What one cycle does from a state.
pub enum Transition {
    /// The program counter is at or past the end of the program.
    Halt,
    /// The instruction faults; the state is left as it was.
    Fault(Fault),
    /// The instruction completes, giving the next state and at most one line.
    Next(Machine, Option<Output>),
}

/// The four arithmetic operations.
pub enum Arith {
    Add,
    Sub,
    Mul,
    Div,
}

pub open spec fn abs(a: int) -> int {
    if a < 0 { -a } else { a }
}

/// Integer division rounding toward zero; `b` must not be zero.
pub open spec fn trunc_div(a: int, b: int) -> int {
    let q = abs(a) / abs(b);
    if (a < 0) == (b < 0) { q } else { -q }
}

/// The exact mathematical result of `op` on `a` and `b`.
pub open spec fn arith_value(op: Arith, a: int, b: int) -> int {
    match op {
        Arith::Add => a + b,
        Arith::Sub => a - b,
        Arith::Mul => a * b,
        Arith::Div => trunc_div(a, b),
    }
}

pub open spec fn fits_i32(v: int) -> bool {
    i32::MIN <= v <= i32::MAX
}

/// Register `i` does not exist in `regs`.
pub open spec fn missing(regs: Seq<i32>, i: usize) -> bool {
    i as int >= regs.len()
}

pub open spec fn out_of_bounds(pc: int, index: usize) -> Transition {
    Transition::Fault(Fault::OutOfBoundsAccess { pc: pc as usize, index })
}

/// Go on with the next instruction.
pub open spec fn advance(regs: Seq<i32>, pc: int, out: Option<Output>) -> Transition {
    Transition::Next(Machine { regs, pc: pc + 1 }, out)
}

/// Continue at `target`; a target at or past the program's end halts the
/// machine on the next cycle.
pub open spec fn jump_to(regs: Seq<i32>, target: usize) -> Transition {
    Transition::Next(Machine { regs, pc: target as int }, None)
}

/// `dst := src1 op src2`; sources are checked before the destination.
pub open spec fn arith_step(
    regs: Seq<i32>,
    pc: int,
    op: Arith,
    dst: usize,
    src1: usize,
    src2: usize,
) -> Transition {
    if missing(regs, src1) {
        out_of_bounds(pc, src1)
    } else if missing(regs, src2) {
        out_of_bounds(pc, src2)
    } else if missing(regs, dst) {
        out_of_bounds(pc, dst)
    } else if op is Div && regs[src2 as int] == 0 {
        Transition::Fault(Fault::DivisionByZero { pc: pc as usize })
    } else {
        let v = arith_value(op, regs[src1 as int] as int, regs[src2 as int] as int);
        if fits_i32(v) {
            advance(regs.update(dst as int, v as i32), pc, None)
        } else {
            Transition::Fault(Fault::ArithmeticOverflow { pc: pc as usize })
        }
    }
}

/// Branch to `dst` when the value stored in register `src` being zero agrees
/// with `on_zero`, else fall through; register `src` must exist.
pub open spec fn cond_step(
    regs: Seq<i32>,
    pc: int,
    dst: usize,
    src: usize,
    on_zero: bool,
) -> Transition {
    if missing(regs, src) {
        out_of_bounds(pc, src)
    } else if (regs[src as int] == 0) == on_zero {
        jump_to(regs, dst)
    } else {
        advance(regs, pc, None)
    }
}

/// Executing `ins`, the instruction at `pc`, on `regs`.
pub open spec fn execute(ins: Instruction, regs: Seq<i32>, pc: int) -> Transition {
    match ins {
        Instruction::Add { dst, src1, src2 } => arith_step(regs, pc, Arith::Add, dst, src1, src2),
        Instruction::Sub { dst, src1, src2 } => arith_step(regs, pc, Arith::Sub, dst, src1, src2),
        Instruction::Mul { dst, src1, src2 } => arith_step(regs, pc, Arith::Mul, dst, src1, src2),
        Instruction::Div { dst, src1, src2 } => arith_step(regs, pc, Arith::Div, dst, src1, src2),
        Instruction::Copy { dst, src } => {
            if missing(regs, src) {
                out_of_bounds(pc, src)
            } else if missing(regs, dst) {
                out_of_bounds(pc, dst)
            } else {
                advance(regs.update(dst as int, regs[src as int]), pc, None)
            }
        },
        Instruction::Push { val } => advance(regs.push(val), pc, None),
        Instruction::Del { src } => {
            if missing(regs, src) {
                out_of_bounds(pc, src)
            } else {
                advance(regs.remove(src as int), pc, None)
            }
        },
        Instruction::Out { src } => {
            if missing(regs, src) {
                out_of_bounds(pc, src)
            } else {
                advance(regs, pc, Some(Output::Value(regs[src as int])))
            }
        },
        Instruction::OutStr { str } => advance(regs, pc, Some(Output::Text(str))),
        Instruction::Jump { dst } => jump_to(regs, dst),
        Instruction::JmpIfZero { dst, src } => cond_step(regs, pc, dst, src, true),
        Instruction::JmpIfNotZero { dst, src } => cond_step(regs, pc, dst, src, false),
        Instruction::JumpCmp { dst, els, cmp } => {
            let (x, y) = operands_of(cmp);
            if missing(regs, x) {
                out_of_bounds(pc, x)
            } else if missing(regs, y) {
                out_of_bounds(pc, y)
            } else if compares(cmp, regs[x as int] as int, regs[y as int] as int) {
                jump_to(regs, dst)
            } else {
                jump_to(regs, els)
            }
        },
    }
}

/// One cycle of `program` from state `m`.
pub open spec fn next(program: Seq<Instruction>, m: Machine) -> Transition {
    if m.pc < 0 || m.pc >= program.len() {
        Transition::Halt
    } else {
        execute(program[m.pc], m.regs, m.pc)
    }
}

/// How a bounded run ended without a fault.
#[derive(Clone, Copy, Debug, PartialEq, Eq)]
pub enum RunStatus {
    /// The program counter reached the end of the program.
    Halted,
    /// The step budget ran out first.
    StepLimitReached,
}

/// A run's final state, the lines it printed, and how it ended.
pub struct Trace {
    pub machine: Machine,
    pub output: Seq<Output>,
    pub end: Result<RunStatus, Fault>,
}

pub open spec fn emitted(o: Option<Output>) -> Seq<Output> {
    match o {
        Some(line) => seq![line],
        None => seq![],
    }
}

/// `t` preceded by the lines `lines`.
pub open spec fn after_lines(lines: Seq<Output>, t: Trace) -> Trace {
    Trace { machine: t.machine, output: lines + t.output, end: t.end }
}

/// Running `program` from `m` for at most `fuel` instructions.
pub open spec fn trace(program: Seq<Instruction>, m: Machine, fuel: nat) -> Trace
    decreases fuel,
{
    match next(program, m) {
        Transition::Halt => Trace { machine: m, output: seq![], end: Ok(RunStatus::Halted) },
        Transition::Fault(f) => {
            if fuel == 0 {
                Trace { machine: m, output: seq![], end: Ok(RunStatus::StepLimitReached) }
            } else {
                Trace { machine: m, output: seq![], end: Err(f) }
            }
        },
        Transition::Next(m2, o) => {
            if fuel == 0 {
                Trace { machine: m, output: seq![], end: Ok(RunStatus::StepLimitReached) }
            } else {
                after_lines(emitted(o), trace(program, m2, (fuel - 1) as nat))
            }
        },
    }
}

} // verus!
