//! The rounds that narrow a bracket: their state, what one probe decides, and
//! where the whole search ends.
use vstd::prelude::*;
use crate::arithmetic::{computes, Operation};
use crate::bracketing::golden_section::{FN1_FN, FN2_FN, MAX_OPT_ITER};
use crate::double::{epsilon, Double, EPSILON};
use crate::Point;

verus! {

/// The value of [`FN1_FN`].
pub open spec fn fn1() -> Double {
    Double { bits: FN1_FN }
}

/// The value of [`FN2_FN`].
pub open spec fn fn2() -> Double {
    Double { bits: FN2_FN }
}

/// What the search has in hand between two rounds: the working interval, its
/// interior probe and the objective's value there.
///
/// The interval is directed: after a round that kept the part beyond the new
/// probe, `left` is the end that was `right` before, so that the probe stays
/// the interior point nearer to `right`.
#[derive(Clone, Copy, Debug, PartialEq, Eq, Structural)]
pub struct Narrowing {
    pub left: Double,
    pub right: Double,
    pub probe: Double,
    pub value: Double,
}

impl Narrowing {
    /// Whether the interval has converged, given `width`, the difference
    /// `left - right`: its absolute value lies below the machine epsilon.
    pub open spec fn spec_converged(width: Double) -> bool {
        width.spec_abs().spec_lt(epsilon())
    }

    /// The state after a round that probed `x_new` and found `y_new` there.
    ///
    /// A new probe that lies below the held one becomes the held probe, and
    /// the old probe becomes the right end. Otherwise the right end becomes
    /// the left end and the new probe the right end; the held probe stays.
    pub open spec fn spec_narrow(self, x_new: Double, y_new: Double) -> Narrowing {
        if y_new.spec_lt(self.value) {
            Narrowing { left: self.left, right: self.probe, probe: x_new, value: y_new }
        } else {
            Narrowing { left: self.right, right: x_new, probe: self.probe, value: self.value }
        }
    }

    /// The held probe and its value.
    pub open spec fn spec_point(self) -> Point {
        Point { x: self.probe, y: self.value }
    }

    /// Whether the interval has converged, given the difference of its ends.
    #[verifier::when_used_as_spec(spec_converged)]
    pub fn converged(width: Double) -> (r: bool)
        ensures
            r == Self::spec_converged(width),
    {
        width.abs().lt(Double { bits: EPSILON })
    }

    /// The state after a round that probed `x_new` and found `y_new` there.
    #[verifier::when_used_as_spec(spec_narrow)]
    pub fn narrow(self, x_new: Double, y_new: Double) -> (r: Narrowing)
        ensures
            r == self.spec_narrow(x_new, y_new),
    {
        if y_new.lt(self.value) {
            Narrowing { left: self.left, right: self.probe, probe: x_new, value: y_new }
        } else {
            Narrowing { left: self.right, right: x_new, probe: self.probe, value: self.value }
        }
    }

    /// The held probe and its value.
    #[verifier::when_used_as_spec(spec_point)]
    pub fn point(self) -> (r: Point)
        ensures
            r == self.spec_point(),
    {
        Point { x: self.probe, y: self.value }
    }
}

/// The interior point `FN1_FN * near + FN2_FN * far` as the arithmetic `a`
/// computes it.
pub open spec fn interior(a: spec_fn(Operation) -> Double, near: Double, far: Double) -> Double {
    a(Operation::Sum(a(Operation::Product(fn1(), near)), a(Operation::Product(fn2(), far))))
}

/// The point that the search returns from the state `s` with `budget` rounds
/// left, for the objective `f` and the arithmetic `a`.
///
/// With no round left the search returns the probe that it holds. Otherwise
/// a round takes the difference of the ends and stops where the interval has
/// converged; else it probes the interior point nearer to `left` and narrows
/// the interval.
pub open spec fn refine(
    f: spec_fn(Double) -> Double,
    a: spec_fn(Operation) -> Double,
    s: Narrowing,
    budget: nat,
) -> Point
    decreases budget,
{
    if budget == 0 || Narrowing::spec_converged(a(Operation::Difference(s.left, s.right))) {
        s.spec_point()
    } else {
        let x_new = interior(a, s.left, s.right);
        refine(f, a, s.spec_narrow(x_new, f(x_new)), (budget - 1) as nat)
    }
}

/// The state in which the search on the interval from `left` to `right`
/// starts: it holds the interior point nearer to `right`.
pub open spec fn first_state(
    f: spec_fn(Double) -> Double,
    a: spec_fn(Operation) -> Double,
    left: Double,
    right: Double,
) -> Narrowing {
    Narrowing { left, right, probe: interior(a, right, left), value: f(interior(a, right, left)) }
}

/// The point that the search returns for the interval from `left` to `right`.
pub open spec fn search_point(
    f: spec_fn(Double) -> Double,
    a: spec_fn(Operation) -> Double,
    left: Double,
    right: Double,
) -> Point {
    refine(f, a, first_state(f, a, left, right), MAX_OPT_ITER as nat)
}

/// Whether the search from the state `s` with `budget` rounds left takes the
/// objective's value at `x`, the held probe counted in.
pub open spec fn samples(
    f: spec_fn(Double) -> Double,
    a: spec_fn(Operation) -> Double,
    s: Narrowing,
    budget: nat,
    x: Double,
) -> bool
    decreases budget,
{
    x == s.probe || (budget > 0 && !Narrowing::spec_converged(a(Operation::Difference(s.left, s.right))) && {
        let x_new = interior(a, s.left, s.right);
        x == x_new || samples(f, a, s.spec_narrow(x_new, f(x_new)), (budget - 1) as nat, x)
    })
}

/// Whether `x` can come out as the interior point `FN1_FN * near + FN2_FN *
/// far`, whatever the arithmetic answers within what it promises.
pub open spec fn can_weigh<A: Fn(Operation) -> Double>(arith: A, near: Double, far: Double, x: Double) -> bool {
    exists|nearer: Double, farther: Double|
        {
            &&& #[trigger] arith.ensures((Operation::Product(fn1(), near),), nearer)
            &&& #[trigger] arith.ensures((Operation::Product(fn2(), far),), farther)
            &&& arith.ensures((Operation::Sum(nearer, farther),), x)
        }
}

/// Whether the search from the state `s` with `budget` rounds left can end
/// with `point`, whatever the two closures answer within what they promise.
///
/// This is [`refine`] for closures of which no more is known than their
/// contracts.
pub open spec fn can_refine<F: Fn(Double) -> Double, A: Fn(Operation) -> Double>(
    func: F,
    arith: A,
    s: Narrowing,
    budget: nat,
    point: Point,
) -> bool
    decreases budget,
{
    if budget == 0 {
        point == s.spec_point()
    } else {
        exists|width: Double|
            {
                &&& #[trigger] arith.ensures((Operation::Difference(s.left, s.right),), width)
                &&& if Narrowing::spec_converged(width) {
                    point == s.spec_point()
                } else {
                    exists|x_new: Double, y_new: Double|
                        {
                            &&& #[trigger] can_weigh(arith, s.left, s.right, x_new)
                            &&& #[trigger] func.ensures((x_new,), y_new)
                            &&& can_refine(func, arith, s.spec_narrow(x_new, y_new), (budget - 1) as nat, point)
                        }
                }
            }
    }
}

/// Whether the search on the interval from `left` to `right` can end with
/// `point`: it starts from the interior point nearer to `right` and the
/// objective's value there, with the full number of rounds.
pub open spec fn can_search<F: Fn(Double) -> Double, A: Fn(Operation) -> Double>(
    func: F,
    arith: A,
    left: Double,
    right: Double,
    point: Point,
) -> bool {
    exists|probe: Double, value: Double|
        {
            &&& #[trigger] can_weigh(arith, right, left, probe)
            &&& #[trigger] func.ensures((probe,), value)
            &&& can_refine(func, arith, Narrowing { left, right, probe, value }, MAX_OPT_ITER as nat, point)
        }
}

/// For an arithmetic that computes a function the interior point can come
/// out in one way only.
pub proof fn lemma_weight_is_functional<A: Fn(Operation) -> Double>(
    arith: A,
    a: spec_fn(Operation) -> Double,
    near: Double,
    far: Double,
    x: Double,
)
    requires
        computes(arith, a),
        can_weigh(arith, near, far, x),
    ensures
        x == interior(a, near, far),
{
}

/// For closures that compute functions the search can end in one way only,
/// the way of [`refine`].
pub proof fn lemma_refinement_is_functional<F: Fn(Double) -> Double, A: Fn(Operation) -> Double>(
    func: F,
    arith: A,
    f: spec_fn(Double) -> Double,
    a: spec_fn(Operation) -> Double,
    s: Narrowing,
    budget: nat,
    point: Point,
)
    requires
        computes(func, f),
        computes(arith, a),
        can_refine(func, arith, s, budget, point),
    ensures
        point == refine(f, a, s, budget),
    decreases budget,
{
    if budget > 0 && !Narrowing::spec_converged(a(Operation::Difference(s.left, s.right))) {
        let x_new = interior(a, s.left, s.right);
        assert forall|x: Double| #[trigger] can_weigh(arith, s.left, s.right, x) implies x == x_new by {
            lemma_weight_is_functional(arith, a, s.left, s.right, x);
        }
        lemma_refinement_is_functional(
            func,
            arith,
            f,
            a,
            s.spec_narrow(x_new, f(x_new)),
            (budget - 1) as nat,
            point,
        );
    }
}

/// For an objective and an arithmetic that compute functions the search on a
/// given interval can end in one way only: every point that it may return is
/// `search_point(f, a, left, right)`.
pub proof fn lemma_search_is_functional<F: Fn(Double) -> Double, A: Fn(Operation) -> Double>(
    func: F,
    arith: A,
    f: spec_fn(Double) -> Double,
    a: spec_fn(Operation) -> Double,
    left: Double,
    right: Double,
    point: Point,
)
    requires
        computes(func, f),
        computes(arith, a),
        can_search(func, arith, left, right, point),
    ensures
        point == search_point(f, a, left, right),
{
    assert forall|x: Double| #[trigger] can_weigh(arith, right, left, x) implies x == interior(
        a,
        right,
        left,
    ) by {
        lemma_weight_is_functional(arith, a, right, left, x);
    }
    lemma_refinement_is_functional(
        func,
        arith,
        f,
        a,
        first_state(f, a, left, right),
        MAX_OPT_ITER as nat,
        point,
    );
}

/// Determinism. Two searches on the same interval, for the same objective and
/// with the same arithmetic, both of which compute functions, end with the
/// same point, bit for bit.
pub proof fn lemma_search_is_deterministic<F: Fn(Double) -> Double, A: Fn(Operation) -> Double>(
    func: F,
    arith: A,
    f: spec_fn(Double) -> Double,
    a: spec_fn(Operation) -> Double,
    left: Double,
    right: Double,
    first: Point,
    second: Point,
)
    requires
        computes(func, f),
        computes(arith, a),
        can_search(func, arith, left, right, first),
        can_search(func, arith, left, right, second),
    ensures
        first == second,
{
    lemma_search_is_functional(func, arith, f, a, left, right, first);
    lemma_search_is_functional(func, arith, f, a, left, right, second);
}

/// A search that holds the objective's value at its probe ends with a point
/// on the objective, and that point lies no higher than the held one.
proof fn lemma_refinement_descends(
    f: spec_fn(Double) -> Double,
    a: spec_fn(Operation) -> Double,
    s: Narrowing,
    budget: nat,
)
    requires
        s.value == f(s.probe),
    ensures
        refine(f, a, s, budget).y == f(refine(f, a, s, budget).x),
        refine(f, a, s, budget).y == s.value || refine(f, a, s, budget).y.spec_lt(s.value),
    decreases budget,
{
    if !(budget == 0 || Narrowing::spec_converged(a(Operation::Difference(s.left, s.right)))) {
        let x_new = interior(a, s.left, s.right);
        lemma_refinement_descends(f, a, s.spec_narrow(x_new, f(x_new)), (budget - 1) as nat);
    }
}

/// A search that holds the objective's value at its probe ends no higher
/// than at any point that it samples.
proof fn lemma_refinement_returns_lowest(
    f: spec_fn(Double) -> Double,
    a: spec_fn(Operation) -> Double,
    s: Narrowing,
    budget: nat,
    x: Double,
)
    requires
        s.value == f(s.probe),
        samples(f, a, s, budget, x),
    ensures
        !f(x).spec_lt(refine(f, a, s, budget).y),
    decreases budget,
{
    lemma_refinement_descends(f, a, s, budget);
    if x != s.probe {
        let x_new = interior(a, s.left, s.right);
        let next = s.spec_narrow(x_new, f(x_new));
        lemma_refinement_descends(f, a, next, (budget - 1) as nat);
        if x != x_new {
            lemma_refinement_returns_lowest(f, a, next, (budget - 1) as nat, x);
        }
    }
}

/// The point that the search returns lies on the objective, its `y` being
/// the value of `f` at its `x`, and it is the best that the search has seen:
/// at no point that the search sampled is the objective lower.
pub proof fn lemma_search_returns_lowest_sample(
    f: spec_fn(Double) -> Double,
    a: spec_fn(Operation) -> Double,
    left: Double,
    right: Double,
)
    ensures
        search_point(f, a, left, right).y == f(search_point(f, a, left, right).x),
        forall|x: Double|
            samples(f, a, first_state(f, a, left, right), MAX_OPT_ITER as nat, x) ==> !(#[trigger] f(x)).spec_lt(
                search_point(f, a, left, right).y,
            ),
{
    let s = first_state(f, a, left, right);
    lemma_refinement_descends(f, a, s, MAX_OPT_ITER as nat);
    assert forall|x: Double| samples(f, a, s, MAX_OPT_ITER as nat, x) implies !(#[trigger] f(x)).spec_lt(
        search_point(f, a, left, right).y,
    ) by {
        lemma_refinement_returns_lowest(f, a, s, MAX_OPT_ITER as nat, x);
    }
}

} // verus!
