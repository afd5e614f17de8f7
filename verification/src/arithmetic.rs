//! The arithmetic that the caller carries out for the library.
//!
//! Rounding is the business of the machine's floating-point unit. The search
//! functions therefore take, beside the objective, a closure that performs one
//! [`Operation`] at a time. They decide which operations are asked for, in
//! which order, and what follows from the answers.
use vstd::prelude::*;
use crate::double::Double;

verus! {

/// One double-precision operation, with its operands in the order in which
/// they are written.
#[derive(Clone, Copy, Debug, PartialEq, Eq, Structural)]
pub enum Operation {
    /// `a + b`
    Sum(Double, Double),
    /// `a - b`
    Difference(Double, Double),
    /// `a * b`
    Product(Double, Double),
    /// `a / b`
    Quotient(Double, Double),
    /// The cube root of `a`.
    CubeRoot(Double),
}

/// A closure computes the function `f` when `f(x)` is the only value that a
/// call on `x` can return.
pub open spec fn computes<X, Y, C: Fn(X) -> Y>(c: C, f: spec_fn(X) -> Y) -> bool {
    forall|x: X, y: Y| #[trigger] c.ensures((x,), y) ==> y == f(x)
}

/// A closure can be called on every argument.
pub open spec fn total<X, Y, C: Fn(X) -> Y>(c: C) -> bool {
    forall|x: X| #[trigger] c.requires((x,))
}

} // verus!
