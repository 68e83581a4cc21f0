//! The interpreter: a program, its register array and its program counter.
use vstd::prelude::*;
use crate::instruction::{Fault, Instruction, Output};
use crate::semantics::{
    Arith, Machine, RunStatus, Transition, abs, after_lines, arith_step, arith_value, cond_step,
    emitted, jump_to, next, trace, trunc_div,
};

verus! {

/// What one call of [`Vm::step`] did.
#[derive(Clone, Copy, Debug, PartialEq)]
pub enum StepOutcome {
    /// Nothing: the program counter is at or past the end of the program.
    Halted,
    /// One instruction ran, printing at most one line.
    Executed(Option<Output>),
}

/// A program with its register array (`stack`) and program counter
/// (`current_instr`). Any state is valid: a counter at or past the end of the
/// program means the machine has halted.
pub struct Vm {
    pub program: Vec<Instruction>,
    pub stack: Vec<i32>,
    pub current_instr: usize,
}

/// The exact result of `op` on `a` and `b`, or `None` where it is not an `i32`
/// (or where a division's divisor is zero).
fn apply(op: Arith, a: i32, b: i32) -> (r: Option<i32>)
    ensures
        !(op is Div && b == 0) ==> match r {
            Some(v) => v as int == arith_value(op, a as int, b as int),
            None => !(i32::MIN <= arith_value(op, a as int, b as int) <= i32::MAX),
        },
{
    match op {
        Arith::Add => a.checked_add(b),
        Arith::Sub => a.checked_sub(b),
        Arith::Mul => a.checked_mul(b),
        Arith::Div => {
            let r = a.checked_div(b);
            proof {
                if b != 0 {
                    lemma_trunc_div(a as int, b as int);
                }
            }
            r
        },
    }
}

proof fn lemma_trunc_div(x: int, d: int)
    requires
        d != 0,
    ensures
        trunc_div(x, d) == (if x == 0 {
            0
        } else if x > 0 && d > 0 {
            x / d
        } else if x < 0 && d < 0 {
            ((x * -1) / (d * -1))
        } else if x < 0 {
            ((x * -1) / d) * -1
        } else {
            (x / (d * -1)) * -1
        }),
{
    if x == 0 {
        assert(0int / abs(d) == 0) by (nonlinear_arith)
            requires
                abs(d) > 0,
        ;
    }
}

/// `r` is what a call of [`Vm::step`] returns for the transition `t` from
/// `before`, and `after` is the state that the call leaves.
pub open spec fn realizes(
    t: Transition,
    before: Machine,
    after: Machine,
    r: Result<StepOutcome, Fault>,
) -> bool {
    match t {
        Transition::Halt => r == Ok::<StepOutcome, Fault>(StepOutcome::Halted) && after == before,
        Transition::Fault(f) => r == Err::<StepOutcome, Fault>(f) && after == before,
        Transition::Next(m, o) => r == Ok::<StepOutcome, Fault>(StepOutcome::Executed(o))
            && after == m,
    }
}

impl Vm {
    /// The register array and program counter as a state of the model.
    pub open spec fn machine(&self) -> Machine {
        Machine { regs: self.stack@, pc: self.current_instr as int }
    }

    /// A machine about to run `program` from its first instruction, with no registers.
    pub fn new(program: Vec<Instruction>) -> (r: Vm)
        ensures
            r.program@ == program@,
            r.stack@ == Seq::<i32>::empty(),
            r.current_instr == 0,
    {
        Vm { stack: Vec::new(), program, current_instr: 0 }
    }

    /// Runs the instruction at the program counter, if there is one.
    ///
    /// A faulting instruction changes nothing; the fault names its position.
    pub fn step(&mut self) -> (r: Result<StepOutcome, Fault>)
        ensures
            final(self).program@ == old(self).program@,
            realizes(next(old(self).program@, old(self).machine()), old(self).machine(),
                final(self).machine(), r),
    {
        let pc = self.current_instr;
        if pc >= self.program.len() {
            return Ok(StepOutcome::Halted);
        }
        let n = self.stack.len();
        match self.program[pc] {
            Instruction::Add { dst, src1, src2 } => self.arith(Arith::Add, dst, src1, src2),
            Instruction::Sub { dst, src1, src2 } => self.arith(Arith::Sub, dst, src1, src2),
            Instruction::Mul { dst, src1, src2 } => self.arith(Arith::Mul, dst, src1, src2),
            Instruction::Div { dst, src1, src2 } => self.arith(Arith::Div, dst, src1, src2),
            Instruction::Copy { dst, src } => {
                if src >= n {
                    return Err(Fault::OutOfBoundsAccess { pc, index: src });
                }
                if dst >= n {
                    return Err(Fault::OutOfBoundsAccess { pc, index: dst });
                }
                let v = self.stack[src];
                self.stack.set(dst, v);
                self.current_instr = pc + 1;
                Ok(StepOutcome::Executed(None))
            },
            Instruction::Push { val } => {
                self.stack.push(val);
                self.current_instr = pc + 1;
                Ok(StepOutcome::Executed(None))
            },
            Instruction::Del { src } => {
                if src >= n {
                    return Err(Fault::OutOfBoundsAccess { pc, index: src });
                }
                self.stack.remove(src);
                self.current_instr = pc + 1;
                Ok(StepOutcome::Executed(None))
            },
            Instruction::Out { src } => {
                if src >= n {
                    return Err(Fault::OutOfBoundsAccess { pc, index: src });
                }
                self.current_instr = pc + 1;
                Ok(StepOutcome::Executed(Some(Output::Value(self.stack[src]))))
            },
            Instruction::OutStr { str } => {
                self.current_instr = pc + 1;
                Ok(StepOutcome::Executed(Some(Output::Text(str))))
            },
            Instruction::Jump { dst } => self.jump(dst),
            Instruction::JmpIfZero { dst, src } => self.jump_if(dst, src, true),
            Instruction::JmpIfNotZero { dst, src } => self.jump_if(dst, src, false),
            Instruction::JumpCmp { dst, els, cmp } => {
                let (x, y) = cmp.operands();
                if x >= n {
                    return Err(Fault::OutOfBoundsAccess { pc, index: x });
                }
                if y >= n {
                    return Err(Fault::OutOfBoundsAccess { pc, index: y });
                }
                if cmp.holds(self.stack[x], self.stack[y]) {
                    self.jump(dst)
                } else {
                    self.jump(els)
                }
            },
        }
    }

    /// Runs at most `max_steps` instructions, appending each printed line to `out`.
    ///
    /// Stops early when the program counter reaches the end of the program
    /// (`Ok(Halted)`) or an instruction faults (`Err`, with the machine left
    /// as it was before that instruction).
    pub fn run(&mut self, max_steps: usize, out: &mut Vec<Output>) -> (r: Result<
        RunStatus,
        Fault,
    >)
        ensures
            final(self).program@ == old(self).program@,
            ({
                let t = trace(old(self).program@, old(self).machine(), max_steps as nat);
                &&& r == t.end
                &&& final(self).machine() == t.machine
                &&& final(out)@ == old(out)@ + t.output
            }),
    {
        let ghost program = self.program@;
        let ghost whole = trace(program, self.machine(), max_steps as nat);
        let ghost mut printed: Seq<Output> = seq![];
        let mut remaining: usize = max_steps;
        loop
            invariant
                self.program@ == program,
                program == old(self).program@,
                whole == trace(old(self).program@, old(self).machine(), max_steps as nat),
                out@ == old(out)@ + printed,
                whole == after_lines(printed, trace(program, self.machine(), remaining as nat)),
            decreases remaining,
        {
            proof {
                assert(printed + Seq::<Output>::empty() =~= printed);
            }
            if self.current_instr >= self.program.len() {
                return Ok(RunStatus::Halted);
            }
            if remaining == 0 {
                return Ok(RunStatus::StepLimitReached);
            }
            let ghost before = self.machine();
            match self.step() {
                Err(f) => {
                    return Err(f);
                },
                Ok(StepOutcome::Halted) => {
                    return Ok(RunStatus::Halted);
                },
                Ok(StepOutcome::Executed(line)) => {
                    let ghost rest = trace(program, self.machine(), (remaining - 1) as nat);
                    match line {
                        Some(l) => out.push(l),
                        None => {},
                    }
                    proof {
                        assert(printed + emitted(line) + rest.output =~= printed + (emitted(
                            line,
                        ) + rest.output));
                        printed = printed + emitted(line);
                    }
                    remaining = remaining - 1;
                },
            }
        }
    }

    /// `dst := src1 op src2` for the instruction at the program counter.
    fn arith(&mut self, op: Arith, dst: usize, src1: usize, src2: usize) -> (r: Result<
        StepOutcome,
        Fault,
    >)
        requires
            old(self).current_instr < old(self).program.len(),
        ensures
            final(self).program@ == old(self).program@,
            realizes(arith_step(old(self).stack@, old(self).current_instr as int, op, dst, src1, src2),
                old(self).machine(), final(self).machine(), r),
    {
        let pc = self.current_instr;
        let n = self.stack.len();
        if src1 >= n {
            return Err(Fault::OutOfBoundsAccess { pc, index: src1 });
        }
        if src2 >= n {
            return Err(Fault::OutOfBoundsAccess { pc, index: src2 });
        }
        if dst >= n {
            return Err(Fault::OutOfBoundsAccess { pc, index: dst });
        }
        let a = self.stack[src1];
        let b = self.stack[src2];
        let is_div = match op {
            Arith::Div => true,
            _ => false,
        };
        if is_div && b == 0 {
            return Err(Fault::DivisionByZero { pc });
        }
        match apply(op, a, b) {
            Some(v) => {
                self.stack.set(dst, v);
                self.current_instr = pc + 1;
                Ok(StepOutcome::Executed(None))
            },
            None => Err(Fault::ArithmeticOverflow { pc }),
        }
    }

    /// Moves the program counter to `target`; a target at or past the end of
    /// the program halts the machine on the next cycle.
    fn jump(&mut self, target: usize) -> (r: Result<StepOutcome, Fault>)
        ensures
            final(self).program@ == old(self).program@,
            realizes(jump_to(old(self).stack@, target), old(self).machine(),
                final(self).machine(), r),
    {
        self.current_instr = target;
        Ok(StepOutcome::Executed(None))
    }

    /// Jumps to `dst` when register `src` being zero agrees with `on_zero`.
    fn jump_if(&mut self, dst: usize, src: usize, on_zero: bool) -> (r: Result<
        StepOutcome,
        Fault,
    >)
        requires
            old(self).current_instr < old(self).program.len(),
        ensures
            final(self).program@ == old(self).program@,
            realizes(cond_step(old(self).stack@,
                old(self).current_instr as int, dst, src, on_zero), old(self).machine(),
                final(self).machine(), r),
    {
        let pc = self.current_instr;
        if src >= self.stack.len() {
            return Err(Fault::OutOfBoundsAccess { pc, index: src });
        }
        if (self.stack[src] == 0) == on_zero {
            self.jump(dst)
        } else {
            self.current_instr = pc + 1;
            Ok(StepOutcome::Executed(None))
        }
    }
}

} // verus!
