//! Narrowing a bracket by golden-section search.
use vstd::prelude::*;
use crate::arithmetic::{computes, total, Operation};
use crate::bracketing::bracket::Bracket;
use crate::bracketing::narrowing::{
    can_refine,
    can_search,
    can_weigh,
    first_state,
    lemma_search_is_functional,
    lemma_search_returns_lowest_sample,
    samples,
    search_point,
    Narrowing,
};
use crate::double::Double;
use crate::Point;

verus! {

/// The weight of the nearer end in an interior point, the inverse of the
/// golden ratio: the bit pattern of `0.6180339887498949`.
pub const FN1_FN: u64 = 0x3FE3_C6EF_372F_E950;

/// The weight of the farther end, one minus the inverse of the golden ratio:
/// the bit pattern of `0.38196601125010515`.
pub const FN2_FN: u64 = 0x3FD8_7221_91A0_2D61;

/// The number of rounds after which the search returns what it has.
pub const MAX_OPT_ITER: u32 = 1_000_000;

/// Computes the interior point `FN1_FN * near + FN2_FN * far`.
fn weigh<A: Fn(Operation) -> Double>(arith: &A, near: Double, far: Double) -> (x: Double)
    requires
        total(*arith),
    ensures
        can_weigh(*arith, near, far, x),
{
    let nearer = arith(Operation::Product(Double { bits: FN1_FN }, near));
    let farther = arith(Operation::Product(Double { bits: FN2_FN }, far));
    arith(Operation::Sum(nearer, farther))
}

/// Narrows the bracket by golden-section search and returns the interior
/// probe that it ends with, together with the objective's value there.
///
/// The search holds a directed interval and one interior probe. A round
/// stops where the ends differ by less than the machine epsilon. Otherwise
/// it probes the mirror image of the held probe and keeps the part of the
/// interval around the lower of the two probes. The search never fails:
/// after [`MAX_OPT_ITER`] rounds it returns the probe that it holds.
///
/// The result is one that the answers of the two closures lead to
/// (`can_search`). For an objective that computes `f` and an arithmetic that
/// computes `a` it is `search_point(f, a, left, right)`, a point on `f`, and
/// the lowest of the points at which the search took the objective's value.
pub fn search<F: Fn(Double) -> Double, A: Fn(Operation) -> Double>(bracket: &Bracket<F>, arith: &A) -> (point:
    Point)
    requires
        total(bracket.objective()),
        total(*arith),
    ensures
        can_search(bracket.objective(), *arith, bracket.spec_left(), bracket.spec_right(), point),
        forall|f: spec_fn(Double) -> Double, a: spec_fn(Operation) -> Double|
            #![trigger computes(bracket.objective(), f), computes(*arith, a)]
            computes(bracket.objective(), f) && computes(*arith, a) ==> point == search_point(
                f,
                a,
                bracket.spec_left(),
                bracket.spec_right(),
            ) && point.y == f(point.x),
        forall|f: spec_fn(Double) -> Double, a: spec_fn(Operation) -> Double, x: Double|
            #![trigger computes(bracket.objective(), f), computes(*arith, a), f(x)]
            computes(bracket.objective(), f) && computes(*arith, a) && samples(
                f,
                a,
                first_state(f, a, bracket.spec_left(), bracket.spec_right()),
                MAX_OPT_ITER as nat,
                x,
            ) ==> !f(x).spec_lt(point.y),
{
    let (left, right) = bracket.interval();
    let probe = weigh(arith, right, left);
    let value = bracket.evaluate(probe);
    let ghost first = Narrowing { left, right, probe, value };
    let mut state = Narrowing { left, right, probe, value };
    let mut i: u32 = 0;
    let ghost mut stopped = false;
    while i < MAX_OPT_ITER
        invariant_except_break
            !stopped,
        invariant
            i <= MAX_OPT_ITER,
            total(bracket.objective()),
            total(*arith),
            stopped ==> can_refine(bracket.objective(), *arith, state, (MAX_OPT_ITER - i) as nat, state.spec_point()),
            forall|point: Point| #[trigger]
                can_refine(bracket.objective(), *arith, state, (MAX_OPT_ITER - i) as nat, point) ==> can_refine(
                    bracket.objective(),
                    *arith,
                    first,
                    MAX_OPT_ITER as nat,
                    point,
                ),
        ensures
            !stopped ==> i == MAX_OPT_ITER,
        decreases MAX_OPT_ITER - i,
    {
        let width = arith(Operation::Difference(state.left, state.right));
        if Narrowing::converged(width) {
            proof {
                stopped = true;
            }
            break;
        }
        let x_new = weigh(arith, state.left, state.right);
        let y_new = bracket.evaluate(x_new);
        let ghost before = state;
        state = state.narrow(x_new, y_new);
        i += 1;
        assert forall|point: Point| #[trigger]
            can_refine(bracket.objective(), *arith, state, (MAX_OPT_ITER - i) as nat, point) implies can_refine(
            bracket.objective(),
            *arith,
            first,
            MAX_OPT_ITER as nat,
            point,
        ) by {
            assert(can_refine(bracket.objective(), *arith, before, (MAX_OPT_ITER - i + 1) as nat, point));
        }
    }
    let point = state.point();
    proof {
        assert forall|f: spec_fn(Double) -> Double, a: spec_fn(Operation) -> Double|
            #![trigger computes(bracket.objective(), f), computes(*arith, a)]
            computes(bracket.objective(), f) && computes(*arith, a) implies point == search_point(
            f,
            a,
            left,
            right,
        ) && point.y == f(point.x) by {
            lemma_search_is_functional(bracket.objective(), *arith, f, a, left, right, point);
            lemma_search_returns_lowest_sample(f, a, left, right);
        }
        assert forall|f: spec_fn(Double) -> Double, a: spec_fn(Operation) -> Double, x: Double|
            #![trigger computes(bracket.objective(), f), computes(*arith, a), f(x)]
            computes(bracket.objective(), f) && computes(*arith, a) && samples(
                f,
                a,
                first_state(f, a, left, right),
                MAX_OPT_ITER as nat,
                x,
            ) implies !f(x).spec_lt(point.y) by {
            lemma_search_is_functional(bracket.objective(), *arith, f, a, left, right, point);
            lemma_search_returns_lowest_sample(f, a, left, right);
        }
    }
    point
}

} // verus!
