//! Differentiation by a step into the complex plane.
use vstd::prelude::*;
use crate::arithmetic::{computes, total, Operation};
use crate::double::Double;

verus! {

/// The length of the imaginary step: the bit pattern of `1e-20`.
pub const H: u64 = 0x3BC7_9CA1_0C92_4223;

/// The value of [`H`].
pub open spec fn h() -> Double {
    Double { bits: H }
}

/// A complex number with double-precision parts.
#[derive(Clone, Copy, Debug, PartialEq, Eq, Structural)]
pub struct Complex {
    pub re: Double,
    pub im: Double,
}

/// The complex-step derivative of `f` at `x` as the arithmetic `a` computes
/// it: the imaginary part of `f(x + i * H)`, divided by `H`.
pub open spec fn complex_step(
    f: spec_fn(Complex) -> Complex,
    a: spec_fn(Operation) -> Double,
    x: Double,
) -> Double {
    a(Operation::Quotient(f(Complex { re: x, im: h() }).im, h()))
}

/// Whether `r` can come out as the complex-step derivative of `f` at `x`,
/// whatever the two closures answer within what they promise.
pub open spec fn can_complex<F: Fn(Complex) -> Complex, A: Fn(Operation) -> Double>(
    f: F,
    arith: A,
    x: Double,
    r: Double,
) -> bool {
    exists|value: Complex|
        {
            &&& #[trigger] f.ensures((Complex { re: x, im: h() },), value)
            &&& arith.ensures((Operation::Quotient(value.im, h()),), r)
        }
}

/// Estimates the derivative at `x` of a function that extends to the complex
/// plane, by one evaluation beside the real axis.
///
/// The result is one that the answers of the two closures lead to
/// (`can_complex`). For a function that computes `g` and an arithmetic that
/// computes `a` it is `complex_step(g, a, x)`.
pub fn complex<F: Fn(Complex) -> Complex, A: Fn(Operation) -> Double>(f: F, x: Double, arith: &A) -> (r: Double)
    requires
        total(f),
        total(*arith),
    ensures
        can_complex(f, *arith, x, r),
        forall|g: spec_fn(Complex) -> Complex, a: spec_fn(Operation) -> Double|
            #![trigger computes(f, g), computes(*arith, a)]
            computes(f, g) && computes(*arith, a) ==> r == complex_step(g, a, x),
{
    let value = f(Complex { re: x, im: Double { bits: H } });
    arith(Operation::Quotient(value.im, Double { bits: H }))
}

} // verus!
