//! Derivative-free minimisation of a function of one variable: a bracket is
//! grown until it holds a local minimum, then narrowed by golden-section
//! search. Two estimators of a derivative come with it.
//!
//! # Numbers
//!
//! The searches decide by comparing double-precision numbers; they never
//! round. A number is a [`double::Double`], an IEEE 754 bit pattern with its
//! numeric order. Every sum, difference, product, quotient and root is handed
//! as an [`arithmetic::Operation`] to a closure of the caller, which carries
//! it out on the machine's floating-point unit. The objective is a closure
//! from `Double` to `Double`.
//!
//! # What is proved
//!
//! Each search states its result twice. For closures of which no more is
//! known than their contracts, the result is one that their answers lead to
//! (the `can_` relations). For closures that compute functions `f` and `a`,
//! the result is the value of a model of the search over `f` and `a`, so
//! that equal inputs give equal results, bit for bit. The models carry what
//! is proved of the searches: a bracket that was found holds a local minimum
//! and a monotonic objective has none, as far as the walk went the way that
//! double-precision sums take it ([`bracketing::validity`]); golden-section
//! search returns the lowest point that it sampled
//! ([`bracketing::narrowing`]).
//!
//! How close a result comes to a true minimum or derivative is a matter of
//! rounding and of the objective, and is not stated here.
use vstd::prelude::*;

pub mod arithmetic;
pub mod bracketing;
pub mod differentiate;
pub mod double;

use crate::arithmetic::{computes, total, Operation};
use crate::double::{epsilon, Double, EPSILON};

verus! {

/// The failure of a search that used up its iterations.
#[derive(Debug)]
pub struct Infeasible(&'static str);

impl Infeasible {
    /// The text of the diagnostic.
    pub closed spec fn spec_reason(&self) -> &'static str {
        self.0
    }

    /// An error with the given diagnostic.
    pub fn new(reason: &'static str) -> (e: Infeasible)
        ensures
            e.spec_reason() == reason,
    {
        Infeasible(reason)
    }

    /// The diagnostic.
    #[verifier::when_used_as_spec(spec_reason)]
    pub fn reason(&self) -> (r: &'static str)
        ensures
            r == self.spec_reason(),
    {
        self.0
    }
}

/// An approximate minimiser `x` and the objective's value `y` at it.
#[derive(Clone, Copy, Debug, PartialEq, Eq, Structural)]
pub struct Point {
    pub x: Double,
    pub y: Double,
}

/// Whether `r` can come out as the answer to "are `a` and `b` close?",
/// whatever the arithmetic answers within what it promises.
pub open spec fn can_close<A: Fn(Operation) -> Double>(arith: A, a: Double, b: Double, r: bool) -> bool {
    exists|difference: Double| #[trigger]
        arith.ensures((Operation::Difference(a, b),), difference) && r == difference.spec_abs().spec_le(
            epsilon(),
        )
}

/// Whether `a` and `b` differ by no more than the machine epsilon: for an
/// arithmetic that computes `o`, whether `|a - b| <= EPSILON`.
pub fn close<A: Fn(Operation) -> Double>(a: Double, b: Double, arith: &A) -> (r: bool)
    requires
        total(*arith),
    ensures
        can_close(*arith, a, b, r),
        forall|o: spec_fn(Operation) -> Double| #[trigger]
            computes(*arith, o) ==> r == o(Operation::Difference(a, b)).spec_abs().spec_le(epsilon()),
{
    arith(Operation::Difference(a, b)).abs().le(Double { bits: EPSILON })
}

} // verus!
