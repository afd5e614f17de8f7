//! What the bracket search achieves: a bracket that it finds holds a local
//! minimum, and a monotonic objective has none to find.
//!
//! Both statements rest on the walk going the way that sums and products of
//! doubles take it: away from the start, never back. The library does not
//! compute, so it cannot know this of the arithmetic that it is given; the
//! statements name what they need of it.
use vstd::prelude::*;
use crate::arithmetic::Operation;
use crate::bracketing::bracket::MAX_ITER;
use crate::bracketing::expansion::{
    expand,
    find_interval,
    first_right,
    first_step,
    init,
    start,
    step_factor,
    Expansion,
};
use crate::double::Double;

verus! {

/// Whether the search in the state `s` is under way: the two points differ
/// and `right` lies on the side of `left` to which the step points.
pub open spec fn under_way(s: Expansion) -> bool {
    ||| s.step.positive() && s.left.spec_lt(s.right)
    ||| s.step.negative() && s.right.spec_lt(s.left)
}

/// Whether a probe at `x_new` lies beyond `s.right`, on the side to which the
/// step points.
pub open spec fn beyond(s: Expansion, x_new: Double) -> bool {
    ||| s.step.positive() && s.right.spec_lt(x_new)
    ||| s.step.negative() && x_new.spec_lt(s.right)
}

/// Whether `grown` points to the same side as `step` does.
pub open spec fn same_direction(step: Double, grown: Double) -> bool {
    &&& step.positive() ==> grown.positive()
    &&& step.negative() ==> grown.negative()
}

/// Whether the search from `s` moves on with every probe: each probe lies
/// beyond the point that it was stepped from, and a grown step keeps its
/// direction. Nothing is asked of what would follow a probe that rises.
pub open spec fn moves_on(
    f: spec_fn(Double) -> Double,
    a: spec_fn(Operation) -> Double,
    s: Expansion,
    budget: nat,
) -> bool
    decreases budget,
{
    budget > 0 ==> {
        let x_new = a(Operation::Sum(s.right, s.step));
        let y_new = f(x_new);
        let grown = a(Operation::Product(s.step, step_factor()));
        &&& beyond(s, x_new)
        &&& !s.spec_rises(y_new) ==> same_direction(s.step, grown) && moves_on(
            f,
            a,
            s.spec_shift(x_new, y_new, grown),
            (budget - 1) as nat,
        )
    }
}

/// Whether the search from `s` never turns back: each probe lies beyond the
/// point that it was stepped from or is that very point again (as it is once
/// the walk has reached an infinity), and a grown step keeps its direction.
pub open spec fn never_turns(
    f: spec_fn(Double) -> Double,
    a: spec_fn(Operation) -> Double,
    s: Expansion,
    budget: nat,
) -> bool
    decreases budget,
{
    budget > 0 ==> {
        let x_new = a(Operation::Sum(s.right, s.step));
        let y_new = f(x_new);
        let grown = a(Operation::Product(s.step, step_factor()));
        &&& beyond(s, x_new) || x_new == s.right
        &&& !s.spec_rises(y_new) ==> same_direction(s.step, grown) && never_turns(
            f,
            a,
            s.spec_shift(x_new, y_new, grown),
            (budget - 1) as nat,
        )
    }
}

/// Whether the walk from the fixed start moves on: `INIT + GAP` lies above
/// `INIT`, a first step to the left leads from there to `INIT` again, and
/// every probe before the one that rises lies beyond the last.
pub open spec fn walk_moves_on(f: spec_fn(Double) -> Double, a: spec_fn(Operation) -> Double) -> bool {
    &&& init().spec_lt(first_right(a))
    &&& first_step(f, a).negative() ==> a(Operation::Sum(first_right(a), first_step(f, a))) == init()
    &&& moves_on(f, a, start(f, a), MAX_ITER as nat)
}

/// Whether the walk from the fixed start never turns back: `INIT + GAP` lies
/// above `INIT`, and no probe lies before the last.
pub open spec fn walk_never_turns(f: spec_fn(Double) -> Double, a: spec_fn(Operation) -> Double) -> bool {
    &&& init().spec_lt(first_right(a))
    &&& never_turns(f, a, start(f, a), MAX_ITER as nat)
}

/// Whether the interval from `left` to `right` holds a local minimum of a
/// continuous `f`: its ends are in order, and strictly between them lies a
/// point at which `f` is above neither end and below at least one of them.
pub open spec fn holds_minimum(f: spec_fn(Double) -> Double, left: Double, right: Double) -> bool {
    &&& left.spec_lt(right)
    &&& exists|m: Double|
        {
            &&& left.spec_lt(m) && m.spec_lt(right)
            &&& !(#[trigger] f(m)).spec_gt(f(left)) && !f(m).spec_gt(f(right))
            &&& f(m).spec_lt(f(left)) || f(m).spec_lt(f(right))
        }
}

/// Whether `f` grows strictly with its argument.
pub open spec fn strictly_increasing(f: spec_fn(Double) -> Double) -> bool {
    forall|x: Double, y: Double| x.spec_lt(y) ==> (#[trigger] f(x)).spec_lt(#[trigger] f(y))
}

/// Whether `f` falls strictly as its argument grows.
pub open spec fn strictly_decreasing(f: spec_fn(Double) -> Double) -> bool {
    forall|x: Double, y: Double| x.spec_lt(y) ==> (#[trigger] f(y)).spec_lt(#[trigger] f(x))
}

/// Whether `f` is strictly monotonic.
pub open spec fn strictly_monotonic(f: spec_fn(Double) -> Double) -> bool {
    strictly_increasing(f) || strictly_decreasing(f)
}

/// A search that is under way, that has not seen the objective rise from
/// `left` to `right` and that moves on with every probe ends, if it ends with
/// an interval, with one that holds a local minimum: the ends are in order
/// and the last point before the rising probe lies between them, no higher
/// than either end.
pub proof fn lemma_expansion_holds_minimum(
    f: spec_fn(Double) -> Double,
    a: spec_fn(Operation) -> Double,
    s: Expansion,
    budget: nat,
)
    requires
        under_way(s),
        s.y_right == f(s.right),
        !f(s.right).spec_gt(f(s.left)),
        moves_on(f, a, s, budget),
        expand(f, a, s, budget) is Some,
    ensures
        holds_minimum(f, expand(f, a, s, budget)->Some_0.0, expand(f, a, s, budget)->Some_0.1),
    decreases budget,
{
    let x_new = a(Operation::Sum(s.right, s.step));
    let y_new = f(x_new);
    if s.spec_rises(y_new) {
        // The probe lies beyond `right` and `left` before it, so `right` is
        // the point between the ends.
        let (lower, upper) = s.spec_enclose(x_new);
        assert(lower.spec_lt(s.right) && s.right.spec_lt(upper));
    } else {
        let grown = a(Operation::Product(s.step, step_factor()));
        lemma_expansion_holds_minimum(f, a, s.spec_shift(x_new, y_new, grown), (budget - 1) as nat);
    }
}

/// Bracket validity. Where the search from the fixed start ends with an
/// interval, that interval holds a local minimum, provided that the walk
/// moved on.
pub proof fn lemma_found_bracket_holds_minimum(f: spec_fn(Double) -> Double, a: spec_fn(Operation) -> Double)
    requires
        walk_moves_on(f, a),
        find_interval(f, a) is Some,
    ensures
        holds_minimum(f, find_interval(f, a)->Some_0.0, find_interval(f, a)->Some_0.1),
{
    let s = start(f, a);
    if first_step(f, a).positive() {
        lemma_expansion_holds_minimum(f, a, s, MAX_ITER as nat);
    } else {
        // The first probe to the left is `INIT` itself, where the objective
        // does not lie above its value at the right end. From there on the
        // search is under way.
        let x_new = a(Operation::Sum(s.right, s.step));
        let grown = a(Operation::Product(s.step, step_factor()));
        assert(x_new == init() && !s.spec_rises(f(x_new)));
        lemma_expansion_holds_minimum(f, a, s.spec_shift(x_new, f(x_new), grown), (MAX_ITER - 1) as nat);
    }
}

/// A search that walks downhill and never turns back uses up its probes.
proof fn lemma_downhill_walk_runs_out(
    f: spec_fn(Double) -> Double,
    a: spec_fn(Operation) -> Double,
    s: Expansion,
    budget: nat,
)
    requires
        strictly_increasing(f) && s.step.negative() || strictly_decreasing(f) && s.step.positive(),
        s.y_right == f(s.right),
        never_turns(f, a, s, budget),
    ensures
        expand(f, a, s, budget) is None,
    decreases budget,
{
    if budget > 0 {
        // The probe lies downhill of `right` or is `right` again: its value
        // is not above the one at `right`.
        let x_new = a(Operation::Sum(s.right, s.step));
        let y_new = f(x_new);
        let grown = a(Operation::Product(s.step, step_factor()));
        assert(!s.spec_rises(y_new));
        lemma_downhill_walk_runs_out(f, a, s.spec_shift(x_new, y_new, grown), (budget - 1) as nat);
    }
}

/// Bracket failure. For an objective that is strictly monotonic the search
/// from the fixed start finds no bracket, provided that the walk never
/// turned back: it chooses the direction in which the objective falls and
/// uses up its probes.
pub proof fn lemma_monotonic_objective_has_no_bracket(
    f: spec_fn(Double) -> Double,
    a: spec_fn(Operation) -> Double,
)
    requires
        strictly_monotonic(f),
        walk_never_turns(f, a),
    ensures
        find_interval(f, a) is None,
{
    // The first step points downhill.
    assert(strictly_increasing(f) ==> first_step(f, a).negative());
    assert(strictly_decreasing(f) ==> first_step(f, a).positive());
    lemma_downhill_walk_runs_out(f, a, start(f, a), MAX_ITER as nat);
}

} // verus!
