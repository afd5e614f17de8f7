use algopt::arithmetic::Operation;
use algopt::double::Double;
use algopt::{close, Infeasible, Point};

fn d(x: f64) -> Double {
    Double::from_bits(x.to_bits())
}

fn v(x: Double) -> f64 {
    f64::from_bits(x.to_bits())
}

fn native(op: Operation) -> Double {
    d(match op {
        Operation::Sum(a, b) => v(a) + v(b),
        Operation::Difference(a, b) => v(a) - v(b),
        Operation::Product(a, b) => v(a) * v(b),
        Operation::Quotient(a, b) => v(a) / v(b),
        Operation::CubeRoot(a) => v(a).cbrt(),
    })
}

#[test]
fn infeasible_carries_its_reason() {
    let e = Infeasible::new("no minimum in sight");
    assert_eq!(e.reason(), "no minimum in sight");
    assert_eq!(format!("{:?}", e), "Infeasible(\"no minimum in sight\")");
}

#[test]
fn point_holds_its_two_coordinates() {
    let p = Point { x: d(2.0), y: d(-1.0) };
    assert_eq!(v(p.x), 2.0);
    assert_eq!(v(p.y), -1.0);
    assert_eq!(p, Point { x: d(2.0), y: d(-1.0) });
    assert_ne!(p, Point { x: d(2.0), y: d(1.0) });
}

#[test]
fn close_allows_a_difference_of_one_epsilon() {
    assert!(close(d(1.0), d(1.0), &native));
    assert!(close(d(1.0), d(1.0 + f64::EPSILON), &native));
    assert!(close(d(1.0 + f64::EPSILON), d(1.0), &native));
    assert!(!close(d(1.0), d(1.0 + 2.0 * f64::EPSILON), &native));
    assert!(!close(d(1.0), d(2.0), &native));
    assert!(close(d(0.0), d(-0.0), &native));
    assert!(!close(d(f64::NAN), d(f64::NAN), &native));
    assert!(!close(d(f64::INFINITY), d(f64::INFINITY), &native));
}

#[test]
fn close_subtracts_the_second_from_the_first() {
    let arith = |op: Operation| match op {
        Operation::Difference(a, b) => {
            assert_eq!((v(a), v(b)), (3.0, 5.0));
            d(0.0)
        }
        _ => panic!("only a difference is asked for"),
    };
    assert!(close(d(3.0), d(5.0), &arith));
}
