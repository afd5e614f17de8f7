//! Bracketing a local minimum and narrowing the bracket.
use vstd::prelude::*;
use crate::arithmetic::{computes, total, Operation};
use crate::bracketing::bracket::{Bracket, EXCEEDED};
use crate::bracketing::expansion::{can_find, find_interval};
use crate::bracketing::golden_section::search;
use crate::bracketing::narrowing::{can_search, search_point};
use crate::double::Double;
use crate::{Infeasible, Point};

pub mod bracket;
pub mod expansion;
pub mod golden_section;
pub mod narrowing;
pub mod validity;

verus! {

/// The point that the whole search returns for the objective `f` and the
/// arithmetic `a`: the point that golden-section search reaches on the
/// bracket that was found; `None` where none was found.
pub open spec fn minimum(f: spec_fn(Double) -> Double, a: spec_fn(Operation) -> Double) -> Option<Point> {
    match find_interval(f, a) {
        Some((left, right)) => Some(search_point(f, a, left, right)),
        None => None,
    }
}

/// The point in a result of the whole search; `None` for a failure.
pub open spec fn located(res: Result<Point, Infeasible>) -> Option<Point> {
    match res {
        Ok(point) => Some(point),
        Err(_) => None,
    }
}

/// Whether the whole search can end with `out`, whatever the two closures
/// answer within what they promise: the bracket search ends with some
/// interval and golden-section search on it with the point, or the bracket
/// search fails.
pub open spec fn can_minimise<F: Fn(Double) -> Double, A: Fn(Operation) -> Double>(
    func: F,
    arith: A,
    out: Option<Point>,
) -> bool {
    exists|ends: Option<(Double, Double)>|
        {
            &&& #[trigger] can_find(func, arith, ends)
            &&& match ends {
                Some((left, right)) => out matches Some(point) && can_search(func, arith, left, right, point),
                None => out is None,
            }
        }
}

/// Finds a bracket of `func` and narrows it to an approximate local minimum.
///
/// The only failure is that of the bracket search; it is handed on unchanged.
/// For an objective that computes `f` and an arithmetic that computes `a` the
/// result is the point `minimum(f, a)`, or the failure where that is `None`.
pub fn golden_section_search<F: Fn(Double) -> Double, A: Fn(Operation) -> Double>(func: F, arith: &A) -> (res:
    Result<Point, Infeasible>)
    requires
        total(func),
        total(*arith),
    ensures
        res matches Err(e) ==> e.spec_reason() == EXCEEDED,
        can_minimise(func, *arith, located(res)),
        forall|f: spec_fn(Double) -> Double, a: spec_fn(Operation) -> Double|
            #![trigger computes(func, f), computes(*arith, a)]
            computes(func, f) && computes(*arith, a) ==> located(res) == minimum(f, a),
{
    let bracket = Bracket::find(func, arith)?;
    let solution = search(&bracket, arith);
    Ok(solution)
}

} // verus!
