//! Facts about whole runs and single instructions, proved over the model.
use vstd::prelude::*;
use vstd::arithmetic::div_mod::lemma_fundamental_div_mod;
use crate::instruction::{Comparison, Fault, Instruction, Output, compares, operands_of};
use crate::semantics::{
    Arith, Machine, RunStatus, Trace, Transition, abs, arith_value, execute, fits_i32, next,
    trace, trunc_div,
};

verus! {

/// One `Push` for each value, in order.
pub open spec fn pushes(vals: Seq<i32>) -> Seq<Instruction> {
    Seq::new(vals.len(), |i: int| Instruction::Push { val: vals[i] })
}

/// `Out` of registers `0`, `1`, ..., `n - 1`, in order.
pub open spec fn outs(n: nat) -> Seq<Instruction> {
    Seq::new(n, |i: int| Instruction::Out { src: i as usize })
}

pub open spec fn values(vals: Seq<i32>) -> Seq<Output> {
    vals.map_values(|v: i32| Output::Value(v))
}

pub open spec fn start() -> Machine {
    Machine { regs: seq![], pc: 0 }
}

proof fn lemma_push_phase(vals: Seq<i32>, i: nat, fuel: nat)
    requires
        i <= vals.len() <= usize::MAX,
        fuel >= vals.len() - i,
    ensures
        trace(pushes(vals) + outs(vals.len()), Machine { regs: vals.take(i as int), pc: i as int }, fuel)
            == trace(pushes(vals) + outs(vals.len()), Machine { regs: vals, pc: vals.len() as int },
            (fuel - (vals.len() - i)) as nat),
    decreases vals.len() - i,
{
    let p = pushes(vals) + outs(vals.len());
    let n = vals.len();
    if i < n {
        let m = Machine { regs: vals.take(i as int), pc: i as int };
        let m2 = Machine { regs: vals.take(i + 1 as int), pc: i + 1 as int };
        assert(p[i as int] == Instruction::Push { val: vals[i as int] });
        assert(vals.take(i as int).push(vals[i as int]) =~= vals.take(i + 1 as int));
        assert(next(p, m) == Transition::Next(m2, None));
        lemma_push_phase(vals, i + 1, (fuel - 1) as nat);
        let t = trace(p, m2, (fuel - 1) as nat);
        assert(Seq::<Output>::empty() + t.output =~= t.output);
    } else {
        assert(vals.take(i as int) =~= vals);
    }
}

proof fn lemma_out_phase(vals: Seq<i32>, j: nat, fuel: nat)
    requires
        j <= vals.len() <= usize::MAX,
        fuel >= vals.len() - j,
    ensures
        ({
            let t = trace(pushes(vals) + outs(vals.len()), Machine { regs: vals, pc: vals.len() + j as int }, fuel);
            &&& t.end == Ok::<RunStatus, Fault>(RunStatus::Halted)
            &&& t.output == values(vals.subrange(j as int, vals.len() as int))
        }),
    decreases vals.len() - j,
{
    let p = pushes(vals) + outs(vals.len());
    let n = vals.len() as int;
    let m = Machine { regs: vals, pc: n + j };
    if j < n {
        let m2 = Machine { regs: vals, pc: n + j + 1 };
        assert(p[n + j] == Instruction::Out { src: j as usize });
        assert(next(p, m) == Transition::Next(m2, Some(Output::Value(vals[j as int]))));
        lemma_out_phase(vals, j + 1, (fuel - 1) as nat);
        assert(values(vals.subrange(j as int, n)) =~= seq![Output::Value(vals[j as int])]
            + values(vals.subrange(j + 1 as int, n)));
    } else {
        assert(values(vals.subrange(j as int, n)) =~= seq![]);
    }
}

/// A program that pushes some values and then prints registers `0` to `n - 1`
/// prints exactly the pushed values, in the order they were pushed, and halts.
pub proof fn lemma_push_then_out(vals: Seq<i32>, fuel: nat)
    requires
        vals.len() <= usize::MAX,
        fuel >= 2 * vals.len(),
    ensures
        ({
            let t = trace(pushes(vals) + outs(vals.len()), start(), fuel);
            &&& t.end == Ok::<RunStatus, Fault>(RunStatus::Halted)
            &&& t.output == values(vals)
        }),
{
    assert(vals.take(0) =~= seq![]);
    lemma_push_phase(vals, 0, fuel);
    lemma_out_phase(vals, 0, (fuel - vals.len()) as nat);
    assert(vals.subrange(0, vals.len() as int) =~= vals);
}

/// Truncating division: the remainder left by `trunc_div` is smaller than the
/// divisor in magnitude and is zero or has the dividend's sign.
pub proof fn lemma_trunc_div_remainder(a: int, b: int)
    requires
        b != 0,
    ensures
        ({
            let r = a - trunc_div(a, b) * b;
            &&& abs(r) < abs(b)
            &&& r == 0 || (r < 0) == (a < 0)
        }),
{
    let q = abs(a) / abs(b);
    lemma_fundamental_div_mod(abs(a), abs(b));
    assert(0 <= abs(a) % abs(b) < abs(b)) by {
        vstd::arithmetic::div_mod::lemma_mod_bound(abs(a), abs(b));
    }
    let rem = abs(a) % abs(b);
    assert(abs(a) == abs(b) * q + rem);
    if a >= 0 && b > 0 {
        assert(a - q * b == rem) by (nonlinear_arith)
            requires a == b * q + rem;
    } else if a >= 0 {
        assert(a - (-q) * b == rem) by (nonlinear_arith)
            requires a == (-b) * q + rem;
    } else if b > 0 {
        assert(a - (-q) * b == -rem) by (nonlinear_arith)
            requires -a == b * q + rem;
    } else {
        assert(a - q * b == -rem) by (nonlinear_arith)
            requires -a == (-b) * q + rem;
    }
}

/// The instruction that applies `op` to registers `src1` and `src2` into `dst`.
pub open spec fn arith_instruction(op: Arith, dst: usize, src1: usize, src2: usize) -> Instruction {
    match op {
        Arith::Add => Instruction::Add { dst, src1, src2 },
        Arith::Sub => Instruction::Sub { dst, src1, src2 },
        Arith::Mul => Instruction::Mul { dst, src1, src2 },
        Arith::Div => Instruction::Div { dst, src1, src2 },
    }
}

/// The run that faults at once with `f`: no line, state unchanged.
pub open spec fn fails_at_once(m: Machine, f: Fault) -> Trace {
    Trace { machine: m, output: seq![], end: Err(f) }
}

/// With all three registers present, an arithmetic instruction stores the exact
/// result in `dst` and goes on with the next instruction; it faults with
/// `DivisionByZero` on a zero divisor and with `ArithmeticOverflow` when the
/// exact result is not an `i32`. A faulting one ends the run with no further line.
pub proof fn lemma_arithmetic(
    program: Seq<Instruction>,
    m: Machine,
    op: Arith,
    dst: usize,
    src1: usize,
    src2: usize,
    fuel: nat,
)
    requires
        0 <= m.pc < program.len(),
        program[m.pc] == arith_instruction(op, dst, src1, src2),
        dst < m.regs.len(),
        src1 < m.regs.len(),
        src2 < m.regs.len(),
    ensures
        ({
            let a = m.regs[src1 as int] as int;
            let b = m.regs[src2 as int] as int;
            let v = arith_value(op, a, b);
            if op is Div && b == 0 {
                &&& next(program, m) == Transition::Fault(Fault::DivisionByZero { pc: m.pc as usize })
                &&& trace(program, m, fuel + 1) == fails_at_once(m, Fault::DivisionByZero { pc: m.pc as usize })
            } else if fits_i32(v) {
                next(program, m) == Transition::Next(
                    Machine { regs: m.regs.update(dst as int, v as i32), pc: m.pc + 1 },
                    None,
                )
            } else {
                &&& next(program, m) == Transition::Fault(Fault::ArithmeticOverflow { pc: m.pc as usize })
                &&& trace(program, m, fuel + 1) == fails_at_once(m, Fault::ArithmeticOverflow { pc: m.pc as usize })
            }
        }),
{
}

/// A jump continues exactly at its target: the run from there is the run
/// from the target. A jump to the program's length or past it halts the run
/// normally, with no further line.
pub proof fn lemma_jump(program: Seq<Instruction>, m: Machine, target: usize, fuel: nat)
    requires
        0 <= m.pc < program.len(),
        program[m.pc] == (Instruction::Jump { dst: target }),
    ensures
        next(program, m) == Transition::Next(Machine { regs: m.regs, pc: target as int }, None),
        trace(program, m, fuel + 1) == trace(
            program,
            Machine { regs: m.regs, pc: target as int },
            fuel,
        ),
        target >= program.len() ==> trace(program, m, fuel + 1) == (Trace {
            machine: Machine { regs: m.regs, pc: target as int },
            output: seq![],
            end: Ok(RunStatus::Halted),
        }),
{
    let m2 = Machine { regs: m.regs, pc: target as int };
    let t = trace(program, m2, fuel);
    assert(Seq::<Output>::empty() + t.output =~= t.output);
}

/// A conditional branch whose two registers exist goes to `dst` exactly when
/// its predicate holds of their values, and to `els` otherwise: the run from
/// the branch is the run from the chosen target (a halt when that target is
/// at or past the program's end).
pub proof fn lemma_branch(
    program: Seq<Instruction>,
    m: Machine,
    dst: usize,
    els: usize,
    cmp: Comparison,
    fuel: nat,
)
    requires
        0 <= m.pc < program.len(),
        program[m.pc] == (Instruction::JumpCmp { dst, els, cmp }),
        operands_of(cmp).0 < m.regs.len(),
        operands_of(cmp).1 < m.regs.len(),
    ensures
        ({
            let a = m.regs[operands_of(cmp).0 as int] as int;
            let b = m.regs[operands_of(cmp).1 as int] as int;
            let chosen = Machine {
                regs: m.regs,
                pc: if compares(cmp, a, b) { dst as int } else { els as int },
            };
            &&& next(program, m) == Transition::Next(chosen, None)
            &&& trace(program, m, fuel + 1) == trace(program, chosen, fuel)
        }),
{
    let a = m.regs[operands_of(cmp).0 as int] as int;
    let b = m.regs[operands_of(cmp).1 as int] as int;
    let chosen = Machine {
        regs: m.regs,
        pc: if compares(cmp, a, b) { dst as int } else { els as int },
    };
    let t = trace(program, chosen, fuel);
    assert(Seq::<Output>::empty() + t.output =~= t.output);
}

/// Each predicate is the usual integer ordering relation.
pub proof fn lemma_comparators(x: usize, y: usize, a: int, b: int)
    ensures
        compares(Comparison::Eq(x, y), a, b) == (a == b),
        compares(Comparison::Neq(x, y), a, b) == (a != b),
        compares(Comparison::Gt(x, y), a, b) == (a > b),
        compares(Comparison::Lt(x, y), a, b) == (a < b),
        compares(Comparison::Geq(x, y), a, b) == (a >= b),
        compares(Comparison::Leq(x, y), a, b) == (a <= b),
{
}

/// Deleting register `i` removes exactly that element: the ones before keep
/// their index and each later one moves down by one. A later `Out` of index
/// `k` then prints what was at `k + 1` (for `k >= i`), or faults when `k` is
/// past the shortened array.
pub proof fn lemma_delete(program: Seq<Instruction>, m: Machine, i: usize, k: usize)
    requires
        0 <= m.pc < program.len(),
        program[m.pc] == (Instruction::Del { src: i }),
        i < m.regs.len(),
    ensures
        ({
            let m2 = Machine { regs: m.regs.remove(i as int), pc: m.pc + 1 };
            &&& next(program, m) == Transition::Next(m2, None)
            &&& m2.regs.len() == m.regs.len() - 1
            &&& forall|j: int| 0 <= j < i ==> m2.regs[j] == m.regs[j]
            &&& forall|j: int| i <= j < m2.regs.len() ==> m2.regs[j] == m.regs[j + 1]
            &&& k >= i ==> execute(Instruction::Out { src: k }, m2.regs, m2.pc)
                == if k + 1 < m.regs.len() {
                Transition::Next(
                    Machine { regs: m2.regs, pc: m2.pc + 1 },
                    Some(Output::Value(m.regs[k + 1])),
                )
            } else {
                Transition::Fault(Fault::OutOfBoundsAccess { pc: m2.pc as usize, index: k })
            }
        }),
{
}

/// Register `k` is an operand of `ins` (read or written).
pub open spec fn references(ins: Instruction, k: usize) -> bool {
    match ins {
        Instruction::Add { dst, src1, src2 } => k == dst || k == src1 || k == src2,
        Instruction::Sub { dst, src1, src2 } => k == dst || k == src1 || k == src2,
        Instruction::Mul { dst, src1, src2 } => k == dst || k == src1 || k == src2,
        Instruction::Div { dst, src1, src2 } => k == dst || k == src1 || k == src2,
        Instruction::Copy { dst, src } => k == dst || k == src,
        Instruction::Push { .. } => false,
        Instruction::Del { src } => k == src,
        Instruction::Out { src } => k == src,
        Instruction::OutStr { .. } => false,
        Instruction::Jump { .. } => false,
        Instruction::JmpIfZero { src, .. } => k == src,
        Instruction::JmpIfNotZero { src, .. } => k == src,
        Instruction::JumpCmp { cmp, .. } => k == operands_of(cmp).0 || k == operands_of(cmp).1,
    }
}

/// `t` is an out-of-bounds fault at `pc` on a register that `ins` references
/// and that `regs` lacks.
pub open spec fn bad_access(t: Transition, ins: Instruction, regs: Seq<i32>, pc: int) -> bool {
    match t {
        Transition::Fault(Fault::OutOfBoundsAccess { pc: at, index }) => {
            &&& at == pc as usize
            &&& references(ins, index)
            &&& index >= regs.len()
        },
        _ => false,
    }
}

/// Whatever the instruction, one that references a register at or past the
/// end of the array faults with `OutOfBoundsAccess`, and the run ends there
/// with no further line and the state unchanged.
pub proof fn lemma_out_of_bounds(program: Seq<Instruction>, m: Machine, k: usize, fuel: nat)
    requires
        0 <= m.pc < program.len(),
        references(program[m.pc], k),
        k >= m.regs.len(),
    ensures
        bad_access(next(program, m), program[m.pc], m.regs, m.pc),
        next(program, m) is Fault,
        trace(program, m, fuel + 1) == fails_at_once(m, next(program, m)->Fault_0),
{
}

} // verus!
