//! The walk that grows a bracket: its state, what one probe decides, and
//! where the whole walk ends.
use vstd::prelude::*;
use crate::arithmetic::{computes, Operation};
use crate::bracketing::bracket::{GAP, INIT, MAX_ITER, STEP_FACTOR};
use crate::double::Double;

verus! {

/// The value of [`INIT`].
pub open spec fn init() -> Double {
    Double { bits: INIT }
}

/// The value of [`GAP`].
pub open spec fn gap() -> Double {
    Double { bits: GAP }
}

/// The value of [`STEP_FACTOR`].
pub open spec fn step_factor() -> Double {
    Double { bits: STEP_FACTOR }
}

/// What the search has in hand between two probes: the last two points, the
/// objective's value at the later one, and the step to the next probe.
#[derive(Clone, Copy, Debug, PartialEq, Eq, Structural)]
pub struct Expansion {
    pub left: Double,
    pub right: Double,
    pub y_right: Double,
    pub step: Double,
}

impl Expansion {
    /// Whether a probe with value `y_new` lies above the value at `right`.
    pub open spec fn spec_rises(self, y_new: Double) -> bool {
        y_new.spec_gt(self.y_right)
    }

    /// The interval between `left` and a probe at `x_new`, lower end first
    /// where `left < x_new`, the probe first otherwise.
    pub open spec fn spec_enclose(self, x_new: Double) -> (Double, Double) {
        if self.left.spec_lt(x_new) {
            (self.left, x_new)
        } else {
            (x_new, self.left)
        }
    }

    /// The state after a probe at `x_new` with value `y_new` that did not
    /// rise: the window moves on by one point and the step becomes `grown`.
    pub open spec fn spec_shift(self, x_new: Double, y_new: Double, grown: Double) -> Expansion {
        Expansion { left: self.right, right: x_new, y_right: y_new, step: grown }
    }

    /// Whether a probe with value `y_new` lies above the value at `right`, so
    /// that the search stops.
    #[verifier::when_used_as_spec(spec_rises)]
    pub fn rises(self, y_new: Double) -> (r: bool)
        ensures
            r == self.spec_rises(y_new),
    {
        y_new.gt(self.y_right)
    }

    /// The interval that the search returns when the probe at `x_new` rose.
    /// Its ends are in order unless the probe is level with `left` or one of
    /// the two is a NaN.
    #[verifier::when_used_as_spec(spec_enclose)]
    pub fn enclose(self, x_new: Double) -> (r: (Double, Double))
        ensures
            r == self.spec_enclose(x_new),
            r.0.spec_lt(r.1) <==> self.left.spec_lt(x_new) || x_new.spec_lt(self.left),
    {
        if self.left.lt(x_new) {
            (self.left, x_new)
        } else {
            (x_new, self.left)
        }
    }

    /// The state with which the search goes on when the probe did not rise.
    #[verifier::when_used_as_spec(spec_shift)]
    pub fn shift(self, x_new: Double, y_new: Double, grown: Double) -> (r: Expansion)
        ensures
            r == self.spec_shift(x_new, y_new, grown),
    {
        Expansion { left: self.right, right: x_new, y_right: y_new, step: grown }
    }
}

/// The interval that the search reaches from the state `s` with `budget`
/// probes left, for the objective `f` and the arithmetic `a`; `None` when the
/// probes run out before one of them rises.
///
/// Each round probes at `right + step`. A probe that rises above the value at
/// `right` ends the search with the interval between `left` and the probe.
/// Otherwise the window moves on and the step is multiplied by the step factor.
pub open spec fn expand(
    f: spec_fn(Double) -> Double,
    a: spec_fn(Operation) -> Double,
    s: Expansion,
    budget: nat,
) -> Option<(Double, Double)>
    decreases budget,
{
    if budget == 0 {
        None
    } else {
        let x_new = a(Operation::Sum(s.right, s.step));
        let y_new = f(x_new);
        if s.spec_rises(y_new) {
            Some(s.spec_enclose(x_new))
        } else {
            let grown = a(Operation::Product(s.step, step_factor()));
            expand(f, a, s.spec_shift(x_new, y_new, grown), (budget - 1) as nat)
        }
    }
}

/// The interval that the search reaches from the points `left` and `right`
/// with the first step `step`, within the full number of probes.
pub open spec fn expand_from(
    f: spec_fn(Double) -> Double,
    a: spec_fn(Operation) -> Double,
    left: Double,
    right: Double,
    step: Double,
) -> Option<(Double, Double)> {
    expand(f, a, Expansion { left, right, y_right: f(right), step }, MAX_ITER as nat)
}

/// The first right end: `INIT + GAP`.
pub open spec fn first_right(a: spec_fn(Operation) -> Double) -> Double {
    a(Operation::Sum(init(), gap()))
}

/// The first step: towards the right where the objective falls from `INIT`
/// to the first right end, towards the left otherwise.
pub open spec fn first_step(f: spec_fn(Double) -> Double, a: spec_fn(Operation) -> Double) -> Double {
    if f(init()).spec_gt(f(first_right(a))) {
        gap()
    } else {
        gap().spec_neg()
    }
}

/// The state in which the search starts from its fixed start.
pub open spec fn start(f: spec_fn(Double) -> Double, a: spec_fn(Operation) -> Double) -> Expansion {
    Expansion { left: init(), right: first_right(a), y_right: f(first_right(a)), step: first_step(f, a) }
}

/// The interval that the search reaches from its fixed start, for the
/// objective `f` and the arithmetic `a`.
pub open spec fn find_interval(f: spec_fn(Double) -> Double, a: spec_fn(Operation) -> Double) -> Option<
    (Double, Double),
> {
    expand(f, a, start(f, a), MAX_ITER as nat)
}

/// Whether the search from the state `s` with `budget` probes left can end
/// with `out`, whatever the two closures answer within what they promise.
///
/// This is [`expand`] for closures of which no more is known than their
/// contracts: each answer is one that the contract admits.
pub open spec fn can_expand<F: Fn(Double) -> Double, A: Fn(Operation) -> Double>(
    func: F,
    arith: A,
    s: Expansion,
    budget: nat,
    out: Option<(Double, Double)>,
) -> bool
    decreases budget,
{
    if budget == 0 {
        out is None
    } else {
        exists|x_new: Double, y_new: Double|
            {
                &&& #[trigger] arith.ensures((Operation::Sum(s.right, s.step),), x_new)
                &&& #[trigger] func.ensures((x_new,), y_new)
                &&& if s.spec_rises(y_new) {
                    out == Some(s.spec_enclose(x_new))
                } else {
                    exists|grown: Double|
                        {
                            &&& #[trigger] arith.ensures((Operation::Product(s.step, step_factor()),), grown)
                            &&& can_expand(func, arith, s.spec_shift(x_new, y_new, grown), (budget - 1) as nat, out)
                        }
                }
            }
    }
}

/// Whether the search from the points `left` and `right` with the first step
/// `step` can end with `out`: it takes the objective's value at `right` and
/// then has the full number of probes.
pub open spec fn can_expand_from<F: Fn(Double) -> Double, A: Fn(Operation) -> Double>(
    func: F,
    arith: A,
    left: Double,
    right: Double,
    step: Double,
    out: Option<(Double, Double)>,
) -> bool {
    exists|y_right: Double|
        {
            &&& #[trigger] func.ensures((right,), y_right)
            &&& can_expand(func, arith, Expansion { left, right, y_right, step }, MAX_ITER as nat, out)
        }
}

/// Whether the search from the fixed start can end with `out`: it computes
/// the first right end `INIT + GAP`, takes the objective's values at both ends
/// to choose the direction, and walks from there.
pub open spec fn can_find<F: Fn(Double) -> Double, A: Fn(Operation) -> Double>(
    func: F,
    arith: A,
    out: Option<(Double, Double)>,
) -> bool {
    exists|right: Double, y_left: Double, y_right: Double|
        {
            &&& #[trigger] arith.ensures((Operation::Sum(init(), gap()),), right)
            &&& #[trigger] func.ensures((init(),), y_left)
            &&& #[trigger] func.ensures((right,), y_right)
            &&& can_expand_from(
                func,
                arith,
                init(),
                right,
                if y_left.spec_gt(y_right) {
                    gap()
                } else {
                    gap().spec_neg()
                },
                out,
            )
        }
}

/// For closures that compute functions the search can end in one way only,
/// the way of [`expand`].
pub proof fn lemma_expansion_is_functional<F: Fn(Double) -> Double, A: Fn(Operation) -> Double>(
    func: F,
    arith: A,
    f: spec_fn(Double) -> Double,
    a: spec_fn(Operation) -> Double,
    s: Expansion,
    budget: nat,
    out: Option<(Double, Double)>,
)
    requires
        computes(func, f),
        computes(arith, a),
        can_expand(func, arith, s, budget, out),
    ensures
        out == expand(f, a, s, budget),
    decreases budget,
{
    if budget > 0 {
        let x_new = a(Operation::Sum(s.right, s.step));
        let y_new = f(x_new);
        if !s.spec_rises(y_new) {
            let grown = a(Operation::Product(s.step, step_factor()));
            lemma_expansion_is_functional(
                func,
                arith,
                f,
                a,
                s.spec_shift(x_new, y_new, grown),
                (budget - 1) as nat,
                out,
            );
        }
    }
}

/// For closures that compute functions the search from two given points can
/// end in one way only, the way of [`expand_from`].
pub proof fn lemma_expansion_from_is_functional<F: Fn(Double) -> Double, A: Fn(Operation) -> Double>(
    func: F,
    arith: A,
    f: spec_fn(Double) -> Double,
    a: spec_fn(Operation) -> Double,
    left: Double,
    right: Double,
    step: Double,
    out: Option<(Double, Double)>,
)
    requires
        computes(func, f),
        computes(arith, a),
        can_expand_from(func, arith, left, right, step, out),
    ensures
        out == expand_from(f, a, left, right, step),
{
    lemma_expansion_is_functional(
        func,
        arith,
        f,
        a,
        Expansion { left, right, y_right: f(right), step },
        MAX_ITER as nat,
        out,
    );
}

/// For an objective and an arithmetic that compute functions the search from
/// the fixed start can end in one way only: every result that it may return
/// has the ends `find_interval(f, a)`, or is the failure where that is `None`.
pub proof fn lemma_find_is_functional<F: Fn(Double) -> Double, A: Fn(Operation) -> Double>(
    func: F,
    arith: A,
    f: spec_fn(Double) -> Double,
    a: spec_fn(Operation) -> Double,
    out: Option<(Double, Double)>,
)
    requires
        computes(func, f),
        computes(arith, a),
        can_find(func, arith, out),
    ensures
        out == find_interval(f, a),
{
    lemma_expansion_from_is_functional(func, arith, f, a, init(), first_right(a), first_step(f, a), out);
}

/// Determinism. Two searches from the fixed start, for the same objective and
/// with the same arithmetic, both of which compute functions, end alike: with
/// the same ends, bit for bit, or both with the failure.
pub proof fn lemma_find_is_deterministic<F: Fn(Double) -> Double, A: Fn(Operation) -> Double>(
    func: F,
    arith: A,
    f: spec_fn(Double) -> Double,
    a: spec_fn(Operation) -> Double,
    first: Option<(Double, Double)>,
    second: Option<(Double, Double)>,
)
    requires
        computes(func, f),
        computes(arith, a),
        can_find(func, arith, first),
        can_find(func, arith, second),
    ensures
        first == second,
{
    lemma_find_is_functional(func, arith, f, a, first);
    lemma_find_is_functional(func, arith, f, a, second);
}

} // verus!
