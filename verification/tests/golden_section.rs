use algopt::arithmetic::Operation;
use algopt::bracketing::bracket::{Bracket, EXCEEDED};
use algopt::bracketing::golden_section::{search, FN1_FN, FN2_FN, MAX_OPT_ITER};
use algopt::bracketing::narrowing::Narrowing;
use algopt::bracketing::golden_section_search;
use algopt::close;
use algopt::double::Double;
use algopt::Point;
use std::cell::RefCell;

const POOR_PRECISION: f64 = 1e-6;

fn d(x: f64) -> Double {
    Double::from_bits(x.to_bits())
}

fn v(x: Double) -> f64 {
    f64::from_bits(x.to_bits())
}

fn native(op: Operation) -> Double {
    d(match op {
        Operation::Sum(a, b) => v(a) + v(b),
        Operation::Difference(a, b) => v(a) - v(b),
        Operation::Product(a, b) => v(a) * v(b),
        Operation::Quotient(a, b) => v(a) / v(b),
        Operation::CubeRoot(a) => v(a).cbrt(),
    })
}

fn state(left: f64, right: f64, probe: f64, value: f64) -> Narrowing {
    Narrowing { left: d(left), right: d(right), probe: d(probe), value: d(value) }
}

// The search written out in plain double-precision arithmetic.
fn by_hand(func: fn(f64) -> f64, bracket: (f64, f64)) -> (f64, f64) {
    let (mut left, mut right) = bracket;
    let mut right_new = 0.618_033_988_749_894_9 * right + 0.381_966_011_250_105_15 * left;
    let mut y_right_new = func(right_new);
    for _ in 0..1_000_000 {
        if f64::abs(left - right) < f64::EPSILON {
            break;
        }
        let left_new = 0.618_033_988_749_894_9 * left + 0.381_966_011_250_105_15 * right;
        let y_left_new = func(left_new);
        if y_left_new < y_right_new {
            right = right_new;
            right_new = left_new;
            y_right_new = y_left_new;
        } else {
            left = right;
            right = left_new;
        }
    }
    (right_new, y_right_new)
}

#[test]
fn search_quadratic() {
    let func = |x: f64| (x - 2.0).powi(2);
    let br = Bracket::find(|x: Double| d(func(v(x))), &native).unwrap();
    let point = search(&br, &native);
    // error in evaluating f(x) leads to poor precision of x
    assert!(f64::abs(v(point.x) - 2.0) <= POOR_PRECISION);
    assert!(close(point.y, d(0.0), &native));
}

#[test]
fn search_complex() {
    let func = |x: f64| f64::exp(x) * f64::sin(x / 4.0 + x * x);
    let br = Bracket::find(|x: Double| d(func(v(x))), &native).unwrap();
    let point = search(&br, &native);
    assert!(v(point.x) < -0.1172);
    assert!(v(point.x) > -0.1173);
    assert!(v(point.y) < -0.0138);
    assert!(v(point.y) > -0.0139);
}

#[test]
fn golden_section_constants_are_the_patterns_they_name() {
    assert_eq!(f64::from_bits(FN1_FN), 0.618_033_988_749_894_9);
    assert_eq!(f64::from_bits(FN2_FN), 0.381_966_011_250_105_15);
    assert_eq!(MAX_OPT_ITER, 1_000_000);
}

#[test]
fn search_agrees_with_the_search_written_out_by_hand() {
    let objectives: Vec<(fn(f64) -> f64, (f64, f64))> = vec![
        (|x| (x - 2.0).powi(2), (1.28, 5.12)),
        (|x| (x + 2.0).powi(2), (-5.1, -1.26)),
        (|x| f64::exp(x) * f64::sin(x / 4.0 + x * x), (-0.14, 0.01)),
        (|x| x.cosh(), (-0.02, 0.01)),
        (|x| (x - 1000.0).abs(), (640.0, 2560.0)),
        (|x| x, (0.0, 1.0)),
        (|x| -x, (3.0, 1.0)),
        (|_| f64::NAN, (0.0, 1.0)),
    ];
    for (func, (left, right)) in objectives {
        let br = Bracket::new(|x: Double| d(func(v(x))), d(left), d(right));
        let point = search(&br, &native);
        let (x, y) = by_hand(func, (left, right));
        assert_eq!(point.x.to_bits(), x.to_bits());
        assert_eq!(point.y.to_bits(), y.to_bits());
    }
}

#[test]
fn search_returns_a_point_on_the_objective() {
    let func = |x: f64| f64::exp(x) * f64::sin(x / 4.0 + x * x);
    let br = Bracket::find(|x: Double| d(func(v(x))), &native).unwrap();
    let point = search(&br, &native);
    assert_eq!(v(point.y).to_bits(), func(v(point.x)).to_bits());
}

#[test]
fn search_returns_the_lowest_of_its_samples() {
    let objectives: Vec<(fn(f64) -> f64, (f64, f64))> = vec![
        (|x| (x - 2.0).powi(2), (1.28, 5.12)),
        (|x| f64::exp(x) * f64::sin(x / 4.0 + x * x), (-0.14, 0.01)),
        (|x| (x * 40.0).sin() + x, (0.0, 3.0)),
        (|x| -x, (3.0, 1.0)),
    ];
    for (func, (left, right)) in objectives {
        let sampled = RefCell::new(Vec::new());
        let br = Bracket::new(
            |x: Double| {
                let y = func(v(x));
                sampled.borrow_mut().push(y);
                d(y)
            },
            d(left),
            d(right),
        );
        let point = search(&br, &native);
        for y in sampled.borrow().iter() {
            assert!(!(*y < v(point.y)));
        }
        assert!(sampled.borrow().contains(&v(point.y)));
    }
}

#[test]
fn search_is_deterministic() {
    let func = |x: f64| f64::exp(x) * f64::sin(x / 4.0 + x * x);
    let br = Bracket::find(|x: Double| d(func(v(x))), &native).unwrap();
    let first = search(&br, &native);
    let second = search(&br, &native);
    assert_eq!(first, second);
    assert_eq!(first.x.to_bits(), second.x.to_bits());
    assert_eq!(first.y.to_bits(), second.y.to_bits());
}

#[test]
fn search_starts_from_the_interior_point_nearer_to_the_right_end() {
    let seen = RefCell::new(Vec::new());
    let br = Bracket::new(
        |x: Double| {
            seen.borrow_mut().push(v(x));
            d((v(x) - 2.0).powi(2))
        },
        d(1.28),
        d(5.12),
    );
    search(&br, &native);
    let seen = seen.borrow();
    assert_eq!(seen[0], 0.618_033_988_749_894_9 * 5.12 + 0.381_966_011_250_105_15 * 1.28);
    assert_eq!(seen[1], 0.618_033_988_749_894_9 * 1.28 + 0.381_966_011_250_105_15 * 5.12);
}

#[test]
fn search_asks_for_one_value_in_each_round() {
    let asked = RefCell::new(Vec::new());
    let values = RefCell::new(0usize);
    let arith = |op: Operation| {
        asked.borrow_mut().push(op);
        native(op)
    };
    let br = Bracket::new(
        |x: Double| {
            *values.borrow_mut() += 1;
            d((v(x) - 2.0).powi(2))
        },
        d(1.28),
        d(5.12),
    );
    search(&br, &arith);
    let asked = asked.borrow();
    let differences = asked.iter().filter(|op| matches!(op, Operation::Difference(_, _))).count();
    let sums = asked.iter().filter(|op| matches!(op, Operation::Sum(_, _))).count();
    let products = asked.iter().filter(|op| matches!(op, Operation::Product(_, _))).count();
    // The last difference is the one that shows the interval converged.
    let rounds = differences - 1;
    assert!(rounds > 10 && rounds < 200);
    assert_eq!(*values.borrow(), 1 + rounds);
    assert_eq!(sums, 1 + rounds);
    assert_eq!(products, 2 + 2 * rounds);
    assert_eq!(asked.len(), differences + sums + products);
    match (asked[0], asked[1], asked[2], asked[3], asked[4], asked[5]) {
        (
            Operation::Product(a, b),
            Operation::Product(c, e),
            Operation::Sum(_, _),
            Operation::Difference(l, r),
            Operation::Product(g, h),
            Operation::Product(i, j),
        ) => {
            assert_eq!((a.to_bits(), v(b)), (FN1_FN, 5.12));
            assert_eq!((c.to_bits(), v(e)), (FN2_FN, 1.28));
            assert_eq!((v(l), v(r)), (1.28, 5.12));
            assert_eq!((g.to_bits(), v(h)), (FN1_FN, 1.28));
            assert_eq!((i.to_bits(), v(j)), (FN2_FN, 5.12));
        }
        _ => panic!("the first operations are two products, a sum, a difference and two products"),
    }
}

#[test]
fn search_returns_what_it_holds_when_the_rounds_run_out() {
    // An arithmetic whose differences never shrink keeps the search going.
    let arith = |op: Operation| match op {
        Operation::Difference(_, _) => d(1.0),
        other => native(other),
    };
    let values = RefCell::new(0u32);
    let br = Bracket::new(
        |x: Double| {
            *values.borrow_mut() += 1;
            d((v(x) - 2.0).powi(2))
        },
        d(1.28),
        d(5.12),
    );
    let point = search(&br, &arith);
    assert_eq!(*values.borrow(), MAX_OPT_ITER + 1);
    assert!(f64::abs(v(point.x) - 2.0) <= POOR_PRECISION);
    assert_eq!(v(point.y), (v(point.x) - 2.0).powi(2));
}

#[test]
fn search_on_a_single_point_returns_it_at_once() {
    let values = RefCell::new(0u32);
    let br = Bracket::new(
        |x: Double| {
            *values.borrow_mut() += 1;
            d(v(x) * 3.0)
        },
        d(1.0),
        d(1.0),
    );
    let point = search(&br, &native);
    let x = 0.618_033_988_749_894_9 * 1.0 + 0.381_966_011_250_105_15 * 1.0;
    assert_eq!(point, Point { x: d(x), y: d(x * 3.0) });
    assert_eq!(*values.borrow(), 1);
}

#[test]
fn golden_section_search_chains_the_two_searches() {
    let func = |x: f64| f64::exp(x) * f64::sin(x / 4.0 + x * x);
    let point = golden_section_search(|x: Double| d(func(v(x))), &native).unwrap();
    let br = Bracket::find(|x: Double| d(func(v(x))), &native).unwrap();
    assert_eq!(point, search(&br, &native));
    assert!(v(point.x) < -0.1172 && v(point.x) > -0.1173);
    assert!(v(point.y) < -0.0138 && v(point.y) > -0.0139);
}

#[test]
fn golden_section_search_hands_the_failure_on() {
    match golden_section_search(|x: Double| x, &native) {
        Ok(_) => panic!("a rising line has no minimum"),
        Err(e) => assert_eq!(e.reason(), EXCEEDED),
    }
}

#[test]
fn golden_section_search_finds_the_minimum_of_a_quadratic() {
    let point = golden_section_search(|x: Double| d((v(x) + 3.0).powi(2) + 1.0), &native).unwrap();
    assert!(f64::abs(v(point.x) + 3.0) <= 1e-6);
    assert!((v(point.y) - 1.0).abs() <= f64::EPSILON);
}

#[test]
fn converged_compares_the_width_with_the_machine_epsilon() {
    assert!(Narrowing::converged(d(0.0)));
    assert!(Narrowing::converged(d(-0.0)));
    assert!(Narrowing::converged(d(f64::EPSILON / 2.0)));
    assert!(Narrowing::converged(d(-f64::EPSILON / 2.0)));
    assert!(Narrowing::converged(d(f64::from_bits(f64::EPSILON.to_bits() - 1))));
    assert!(!Narrowing::converged(d(f64::EPSILON)));
    assert!(!Narrowing::converged(d(-f64::EPSILON)));
    assert!(!Narrowing::converged(d(1.0)));
    assert!(!Narrowing::converged(d(f64::INFINITY)));
    assert!(!Narrowing::converged(d(f64::NAN)));
}

#[test]
fn narrow_keeps_the_left_part_when_the_new_probe_is_lower() {
    let s = state(0.0, 10.0, 6.0, 5.0);
    assert_eq!(s.narrow(d(4.0), d(3.0)), state(0.0, 6.0, 4.0, 3.0));
}

#[test]
fn narrow_turns_to_the_right_part_when_the_new_probe_is_not_lower() {
    let s = state(0.0, 10.0, 6.0, 5.0);
    assert_eq!(s.narrow(d(4.0), d(5.0)), state(10.0, 4.0, 6.0, 5.0));
    assert_eq!(s.narrow(d(4.0), d(7.0)), state(10.0, 4.0, 6.0, 5.0));
    let turned = s.narrow(d(4.0), d(f64::NAN));
    assert_eq!((turned.left, turned.right, turned.probe, turned.value), (d(10.0), d(4.0), d(6.0), d(5.0)));
}

#[test]
fn point_is_the_held_probe_and_its_value() {
    assert_eq!(state(0.0, 10.0, 6.0, 5.0).point(), Point { x: d(6.0), y: d(5.0) });
}
