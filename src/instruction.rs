//! The instruction set, the comparator used by conditional branches, and the
//! values a run produces (printed lines and faults).
use vstd::prelude::*;

verus! {

/// An ordering predicate over two register indices.
#[derive(Clone, Copy, Debug)]
pub enum Comparison {
    Eq(usize, usize),
    Neq(usize, usize),
    Gt(usize, usize),
    Lt(usize, usize),
    Geq(usize, usize),
    Leq(usize, usize),
}

/// What the predicate `c` says of the two values `a` (first operand) and `b`.
pub open spec fn compares(c: Comparison, a: int, b: int) -> bool {
    match c {
        Comparison::Eq(_, _) => a == b,
        Comparison::Neq(_, _) => a != b,
        Comparison::Gt(_, _) => a > b,
        Comparison::Lt(_, _) => a < b,
        Comparison::Geq(_, _) => a >= b,
        Comparison::Leq(_, _) => a <= b,
    }
}

/// The two register indices that `c` compares, first operand first.
pub open spec fn operands_of(c: Comparison) -> (usize, usize) {
    match c {
        Comparison::Eq(x, y) => (x, y),
        Comparison::Neq(x, y) => (x, y),
        Comparison::Gt(x, y) => (x, y),
        Comparison::Lt(x, y) => (x, y),
        Comparison::Geq(x, y) => (x, y),
        Comparison::Leq(x, y) => (x, y),
    }
}

impl Comparison {
    /// The register indices compared, first operand first.
    pub fn operands(&self) -> (r: (usize, usize))
        ensures
            r == operands_of(*self),
    {
        match *self {
            Comparison::Eq(x, y) => (x, y),
            Comparison::Neq(x, y) => (x, y),
            Comparison::Gt(x, y) => (x, y),
            Comparison::Lt(x, y) => (x, y),
            Comparison::Geq(x, y) => (x, y),
            Comparison::Leq(x, y) => (x, y),
        }
    }

    /// Evaluates the predicate on the values `a` and `b` of its two operands.
    pub fn holds(&self, a: i32, b: i32) -> (r: bool)
        ensures
            r == compares(*self, a as int, b as int),
    {
        match *self {
            Comparison::Eq(_, _) => a == b,
            Comparison::Neq(_, _) => a != b,
            Comparison::Gt(_, _) => a > b,
            Comparison::Lt(_, _) => a < b,
            Comparison::Geq(_, _) => a >= b,
            Comparison::Leq(_, _) => a <= b,
        }
    }
}

/// One operation of a program. Register operands are indices into the
/// register array; jump targets are absolute instruction positions.
#[derive(Clone, Copy, Debug)]
pub enum Instruction {
    Add { dst: usize, src1: usize, src2: usize },
    Sub { dst: usize, src1: usize, src2: usize },
    Mul { dst: usize, src1: usize, src2: usize },
    Div { dst: usize, src1: usize, src2: usize },
    Copy { dst: usize, src: usize },
    Push { val: i32 },
    Del { src: usize },
    Out { src: usize },
    OutStr { str: &'static str },
    Jump { dst: usize },
    /// Jumps to `dst` when the value stored in register `src` is zero.
    JmpIfZero { dst: usize, src: usize },
    /// Jumps to `dst` when the value stored in register `src` is not zero.
    JmpIfNotZero { dst: usize, src: usize },
    JumpCmp { dst: usize, els: usize, cmp: Comparison },
}

/// One line of output: a register's value, or a fixed text.
#[derive(Clone, Copy, Debug, PartialEq)]
pub enum Output {
    Value(i32),
    Text(&'static str),
}

/// Why a run stopped abnormally; `pc` is the position of the instruction
/// that faulted.
#[derive(Clone, Copy, Debug, PartialEq, Eq)]
pub enum Fault {
    /// The instruction named a register at or past the end of the array.
    OutOfBoundsAccess { pc: usize, index: usize },
    /// A division whose divisor register held zero.
    DivisionByZero { pc: usize },
    /// The exact result of an arithmetic instruction does not fit in `i32`.
    ArithmeticOverflow { pc: usize },
}

} // verus!
