//! Numerical differentiation of a function of one variable.
use vstd::prelude::*;
use crate::arithmetic::{computes, total, Operation};
use crate::double::{epsilon, Double, EPSILON};

pub mod complex;

verus! {

/// The divisor that halves the step: the bit pattern of `2.0`.
pub const HALVING: u64 = 0x4000_0000_0000_0000;

/// The value of [`HALVING`].
pub open spec fn halving() -> Double {
    Double { bits: HALVING }
}

/// The central difference of `f` at `x` as the arithmetic `a` computes it:
/// `(f(x + h / 2) - f(x - h / 2)) / h` with the step `h`, the cube root of
/// the machine epsilon.
pub open spec fn central_difference(
    f: spec_fn(Double) -> Double,
    a: spec_fn(Operation) -> Double,
    x: Double,
) -> Double {
    let h = a(Operation::CubeRoot(epsilon()));
    let half = a(Operation::Quotient(h, halving()));
    let ahead = f(a(Operation::Sum(x, half)));
    let behind = f(a(Operation::Difference(x, half)));
    a(Operation::Quotient(a(Operation::Difference(ahead, behind)), h))
}

/// Whether `y` can come out as the value of `f` at the result of `op`,
/// whatever the two closures answer within what they promise.
pub open spec fn can_sample<F: Fn(Double) -> Double, A: Fn(Operation) -> Double>(
    f: F,
    arith: A,
    op: Operation,
    y: Double,
) -> bool {
    exists|at: Double| #[trigger] arith.ensures((op,), at) && f.ensures((at,), y)
}

/// Whether `r` can come out as the central difference of `f` at `x`,
/// whatever the two closures answer within what they promise: the step is
/// taken once, halved for each of the two samples, and divides their
/// difference.
pub open spec fn can_central<F: Fn(Double) -> Double, A: Fn(Operation) -> Double>(
    f: F,
    arith: A,
    x: Double,
    r: Double,
) -> bool {
    exists|h: Double, half_ahead: Double, ahead: Double, half_behind: Double, behind: Double, rise: Double|
        {
            &&& arith.ensures((Operation::CubeRoot(epsilon()),), h)
            &&& arith.ensures((Operation::Quotient(h, halving()),), half_ahead)
            &&& can_sample(f, arith, Operation::Sum(x, half_ahead), ahead)
            &&& arith.ensures((Operation::Quotient(h, halving()),), half_behind)
            &&& can_sample(f, arith, Operation::Difference(x, half_behind), behind)
            &&& arith.ensures((Operation::Difference(ahead, behind),), rise)
            &&& arith.ensures((Operation::Quotient(rise, h),), r)
        }
}

/// For closures that compute functions the central difference can come out
/// in one way only.
pub proof fn lemma_central_is_functional<F: Fn(Double) -> Double, A: Fn(Operation) -> Double>(
    f: F,
    arith: A,
    g: spec_fn(Double) -> Double,
    a: spec_fn(Operation) -> Double,
    x: Double,
    r: Double,
)
    requires
        computes(f, g),
        computes(arith, a),
        can_central(f, arith, x, r),
    ensures
        r == central_difference(g, a, x),
{
}

/// Estimates the derivative of `f` at `x` by a central difference.
///
/// The result is one that the answers of the two closures lead to
/// (`can_central`). For a function that computes `g` and an arithmetic that
/// computes `a` it is `central_difference(g, a, x)`.
pub fn central<F: Fn(Double) -> Double, A: Fn(Operation) -> Double>(f: F, x: Double, arith: &A) -> (r: Double)
    requires
        total(f),
        total(*arith),
    ensures
        can_central(f, *arith, x, r),
        forall|g: spec_fn(Double) -> Double, a: spec_fn(Operation) -> Double|
            #![trigger computes(f, g), computes(*arith, a)]
            computes(f, g) && computes(*arith, a) ==> r == central_difference(g, a, x),
{
    let h = arith(Operation::CubeRoot(Double { bits: EPSILON }));
    let half_ahead = arith(Operation::Quotient(h, Double { bits: HALVING }));
    let ahead = f(arith(Operation::Sum(x, half_ahead)));
    let half_behind = arith(Operation::Quotient(h, Double { bits: HALVING }));
    let behind = f(arith(Operation::Difference(x, half_behind)));
    let rise = arith(Operation::Difference(ahead, behind));
    let r = arith(Operation::Quotient(rise, h));
    proof {
        assert(can_sample(f, *arith, Operation::Sum(x, half_ahead), ahead));
        assert(can_sample(f, *arith, Operation::Difference(x, half_behind), behind));
        assert forall|g: spec_fn(Double) -> Double, a: spec_fn(Operation) -> Double|
            #![trigger computes(f, g), computes(*arith, a)]
            computes(f, g) && computes(*arith, a) implies r == central_difference(g, a, x) by {
            lemma_central_is_functional(f, *arith, g, a, x, r);
        }
    }
    r
}

} // verus!
