//! Growing an interval until it holds a local minimum.
use vstd::prelude::*;
use crate::arithmetic::{computes, total, Operation};
use crate::bracketing::expansion::{
    can_expand,
    can_expand_from,
    can_find,
    expand_from,
    find_interval,
    lemma_expansion_from_is_functional,
    lemma_find_is_functional,
    Expansion,
};
use crate::bracketing::validity::{
    holds_minimum,
    lemma_found_bracket_holds_minimum,
    lemma_monotonic_objective_has_no_bracket,
    strictly_monotonic,
    walk_moves_on,
    walk_never_turns,
};
use crate::double::Double;
use crate::Infeasible;

verus! {

/// Where the search starts: the bit pattern of `0.0`.
pub const INIT: u64 = 0;

/// The width of the first interval and the length of the first step: the bit
/// pattern of `1e-2`.
pub const GAP: u64 = 0x3F84_7AE1_47AE_147B;

/// The factor by which the step grows after a probe that did not rise: the
/// bit pattern of `2.0`.
pub const STEP_FACTOR: u64 = 0x4000_0000_0000_0000;

/// The number of probes after which the search gives up.
pub const MAX_ITER: u32 = 1_000_000;

/// The diagnostic of a search that used up its probes.
pub const EXCEEDED: &'static str = "Bracketing algorithm exceeded MAX_ITER iterations";

/// An interval `[left, right]` of the objective `func`, meant to hold a local
/// minimum of it.
///
/// A bracket that [`Bracket::find`] returns has `left < right` whenever the
/// walk moved on from probe to probe; the type itself admits any two ends.
pub struct Bracket<F> {
    pub func: F,
    left: Double,
    right: Double,
}

impl<F: Fn(Double) -> Double> Bracket<F> {
    /// The objective.
    pub closed spec fn objective(&self) -> F {
        self.func
    }

    /// The lower end.
    pub closed spec fn spec_left(&self) -> Double {
        self.left
    }

    /// The upper end.
    pub closed spec fn spec_right(&self) -> Double {
        self.right
    }

    /// The ends of the bracket that a search returned; `None` for a failure.
    pub open spec fn ends(res: Result<Bracket<F>, Infeasible>) -> Option<(Double, Double)> {
        match res {
            Ok(b) => Some((b.spec_left(), b.spec_right())),
            Err(_) => None,
        }
    }

    /// The bracket of `func` with the given ends.
    pub fn new(func: F, left: Double, right: Double) -> (b: Bracket<F>)
        ensures
            b.objective() == func,
            b.spec_left() == left,
            b.spec_right() == right,
    {
        Bracket { func, left, right }
    }

    /// The lower end.
    #[verifier::when_used_as_spec(spec_left)]
    pub fn left(&self) -> (r: Double)
        ensures
            r == self.spec_left(),
    {
        self.left
    }

    /// The upper end.
    #[verifier::when_used_as_spec(spec_right)]
    pub fn right(&self) -> (r: Double)
        ensures
            r == self.spec_right(),
    {
        self.right
    }

    /// Both ends, the lower one first.
    pub fn interval(&self) -> (r: (Double, Double))
        ensures
            r == (self.spec_left(), self.spec_right()),
    {
        (self.left, self.right)
    }

    /// The objective's value at `x`.
    pub fn evaluate(&self, x: Double) -> (y: Double)
        requires
            self.objective().requires((x,)),
        ensures
            self.objective().ensures((x,), y),
    {
        (self.func)(x)
    }

    /// Finds a bracket `[left, right]` that holds a local minimum of `func`.
    ///
    /// The search starts with the interval from [`INIT`] to `INIT + GAP` and
    /// walks in the direction in which the objective falls, with steps that
    /// double, until a probe lies above the one before it. It fails when no
    /// probe has risen within [`MAX_ITER`] probes.
    ///
    /// The result is one that the answers of the two closures lead to
    /// (`can_find`). For an objective that computes `f` and an arithmetic that
    /// computes `a` it is the bracket with the ends `find_interval(f, a)`, or
    /// the failure where that is `None`. A bracket that was found on a walk
    /// that moved on holds a local minimum, and a strictly monotonic
    /// objective on a walk that never turned back yields the failure.
    pub fn find<A: Fn(Operation) -> Double>(func: F, arith: &A) -> (res: Result<Bracket<F>, Infeasible>)
        requires
            total(func),
            total(*arith),
        ensures
            res matches Ok(b) ==> b.objective() == func,
            res matches Err(e) ==> e.spec_reason() == EXCEEDED,
            can_find(func, *arith, Self::ends(res)),
            forall|f: spec_fn(Double) -> Double, a: spec_fn(Operation) -> Double|
                #![trigger computes(func, f), computes(*arith, a)]
                computes(func, f) && computes(*arith, a) ==> Self::ends(res) == find_interval(f, a),
            forall|f: spec_fn(Double) -> Double, a: spec_fn(Operation) -> Double|
                #![trigger computes(func, f), computes(*arith, a)]
                computes(func, f) && computes(*arith, a) && walk_moves_on(f, a) ==> (res matches Ok(b)
                    ==> holds_minimum(f, b.spec_left(), b.spec_right())),
            forall|f: spec_fn(Double) -> Double, a: spec_fn(Operation) -> Double|
                #![trigger computes(func, f), computes(*arith, a)]
                computes(func, f) && computes(*arith, a) && strictly_monotonic(f) && walk_never_turns(f, a)
                    ==> res is Err,
    {
        let left = Double { bits: INIT };
        let gap = Double { bits: GAP };
        let right = arith(Operation::Sum(left, gap));
        let y_left = func(left);
        let y_right = func(right);
        let step = if y_left.gt(y_right) {
            gap
        } else {
            gap.neg()
        };
        let res = Self::find_with_bracket(Bracket { func, left, right }, step, arith);
        proof {
            assert forall|f: spec_fn(Double) -> Double, a: spec_fn(Operation) -> Double|
                #![trigger computes(func, f), computes(*arith, a)]
                computes(func, f) && computes(*arith, a) implies {
                &&& Self::ends(res) == find_interval(f, a)
                &&& walk_moves_on(f, a) ==> (res matches Ok(b) ==> holds_minimum(f, b.spec_left(), b.spec_right()))
                &&& strictly_monotonic(f) && walk_never_turns(f, a) ==> res is Err
            } by {
                lemma_find_is_functional(func, *arith, f, a, Self::ends(res));
                if walk_moves_on(f, a) && res is Ok {
                    lemma_found_bracket_holds_minimum(f, a);
                }
                if strictly_monotonic(f) && walk_never_turns(f, a) {
                    lemma_monotonic_objective_has_no_bracket(f, a);
                }
            }
        }
        res
    }

    /// Moves the bracket along the objective, to the right or (where `step`
    /// is negative) to the left, until a local minimum appears inside it.
    ///
    /// Each round probes at `right + step`. A probe that lies above the value
    /// at `right` ends the search: the bracket then runs from `left` to the
    /// probe, or from the probe to `left` where the probe is not above
    /// `left`. Otherwise `right` becomes `left`, the probe becomes `right`,
    /// and the step is multiplied by [`STEP_FACTOR`]. After [`MAX_ITER`]
    /// probes without a rise the search fails.
    ///
    /// The result is one that the answers of the two closures lead to
    /// (`can_expand_from`). For an objective that computes `f` and an
    /// arithmetic that computes `a` it is the bracket with the ends
    /// `expand_from(f, a, left, right, step)`, or the failure where that is
    /// `None`.
    pub fn find_with_bracket<A: Fn(Operation) -> Double>(bracket: Bracket<F>, step: Double, arith: &A) -> (res:
        Result<Bracket<F>, Infeasible>)
        requires
            total(bracket.objective()),
            total(*arith),
        ensures
            res matches Ok(b) ==> b.objective() == bracket.objective(),
            res matches Err(e) ==> e.spec_reason() == EXCEEDED,
            can_expand_from(
                bracket.objective(),
                *arith,
                bracket.spec_left(),
                bracket.spec_right(),
                step,
                Self::ends(res),
            ),
            forall|f: spec_fn(Double) -> Double, a: spec_fn(Operation) -> Double|
                #![trigger computes(bracket.objective(), f), computes(*arith, a)]
                computes(bracket.objective(), f) && computes(*arith, a) ==> Self::ends(res) == expand_from(
                    f,
                    a,
                    bracket.spec_left(),
                    bracket.spec_right(),
                    step,
                ),
    {
        let Bracket { func, left, right } = bracket;
        let y_right = func(right);
        let ghost first = Expansion { left, right, y_right, step };
        let mut state = Expansion { left, right, y_right, step };
        let mut i: u32 = 0;
        while i < MAX_ITER
            invariant
                func == bracket.objective(),
                left == bracket.spec_left(),
                right == bracket.spec_right(),
                first == (Expansion { left, right, y_right, step }),
                func.ensures((right,), y_right),
                total(func),
                total(*arith),
                i <= MAX_ITER,
                forall|out: Option<(Double, Double)>| #[trigger]
                    can_expand(func, *arith, state, (MAX_ITER - i) as nat, out) ==> can_expand(
                        func,
                        *arith,
                        first,
                        MAX_ITER as nat,
                        out,
                    ),
            decreases MAX_ITER - i,
        {
            let x_new = arith(Operation::Sum(state.right, state.step));
            let y_new = func(x_new);
            if state.rises(y_new) {
                let (lower, upper) = state.enclose(x_new);
                proof {
                    assert(can_expand(func, *arith, state, (MAX_ITER - i) as nat, Some((lower, upper))));
                    Self::lemma_expansion_from_holds_for_all(func, *arith, left, right, step, Some((lower, upper)));
                }
                return Ok(Bracket { func, left: lower, right: upper });
            }
            let grown = arith(Operation::Product(state.step, Double { bits: STEP_FACTOR }));
            let ghost before = state;
            state = state.shift(x_new, y_new, grown);
            i += 1;
            assert forall|out: Option<(Double, Double)>| #[trigger]
                can_expand(func, *arith, state, (MAX_ITER - i) as nat, out) implies can_expand(
                func,
                *arith,
                first,
                MAX_ITER as nat,
                out,
            ) by {
                assert(can_expand(func, *arith, before, (MAX_ITER - i + 1) as nat, out));
            }
        }
        proof {
            assert(can_expand(func, *arith, state, (MAX_ITER - i) as nat, None));
            Self::lemma_expansion_from_holds_for_all(func, *arith, left, right, step, None);
        }
        Err(Infeasible::new(EXCEEDED))
    }

    /// What [`lemma_expansion_from_is_functional`] states, for every pair of
    /// functions at once.
    proof fn lemma_expansion_from_holds_for_all<A: Fn(Operation) -> Double>(
        func: F,
        arith: A,
        left: Double,
        right: Double,
        step: Double,
        out: Option<(Double, Double)>,
    )
        requires
            can_expand_from(func, arith, left, right, step, out),
        ensures
            forall|f: spec_fn(Double) -> Double, a: spec_fn(Operation) -> Double|
                #![trigger computes(func, f), computes(arith, a)]
                computes(func, f) && computes(arith, a) ==> out == expand_from(f, a, left, right, step),
    {
        assert forall|f: spec_fn(Double) -> Double, a: spec_fn(Operation) -> Double|
            #![trigger computes(func, f), computes(arith, a)]
            computes(func, f) && computes(arith, a) implies out == expand_from(f, a, left, right, step) by {
            lemma_expansion_from_is_functional(func, arith, f, a, left, right, step, out);
        }
    }
}

} // verus!
