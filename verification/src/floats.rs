//! The interpreter's floating-point unit.
//!
//! Verified code in this crate computes on integers only, so every value of
//! the language's float kind travels through the evaluator as its IEEE-754
//! binary64 bit pattern (a `u64`), and every operation on such values is
//! delegated to an implementation of [`FloatOps`] supplied by the embedding
//! (a REPL, a test harness). Nothing is assumed about these operations: the
//! evaluator's contract pins the result of an evaluation exactly whenever no
//! float operation is consulted, and promises nothing about the bits an
//! implementation returns.
use vstd::prelude::*;

verus! {

/// The four arithmetic operator kinds of the language.
#[derive(Debug, Clone, Copy, PartialEq, Eq, Structural)]
pub enum ArithOp {
    Add,
    Sub,
    Mul,
    Div,
}

/// The six relational operator kinds of the language.
#[derive(Debug, Clone, Copy, PartialEq, Eq, Structural)]
pub enum RelOp {
    Eq,
    Ne,
    Lt,
    Gt,
    Le,
    Ge,
}

/// Floating-point operations on IEEE-754 binary64 bit patterns.
///
/// An implementation is expected (but not required by any contract here) to
/// interpret each `u64` as the bits of an `f64` and apply the corresponding
/// IEEE-754 operation; the reference implementations in the test suite and
/// the REPL do exactly that.
pub trait FloatOps {
    /// The float whose value is the given integer (rounding if need be).
    fn float_of_int(&self, value: i64) -> u64;

    /// The arithmetic combination of two floats.
    fn float_arith(&self, op: ArithOp, a: u64, b: u64) -> u64;

    /// The comparison of two floats.
    fn float_compare(&self, op: RelOp, a: u64, b: u64) -> bool;

    /// The float denoted by a decimal literal (digits, `.`, an exponent).
    fn float_of_text(&self, text: &str) -> u64;

    /// The decimal rendering of a float, with a decimal point always present.
    fn float_text(&self, bits: u64) -> String;
}

} // verus!
