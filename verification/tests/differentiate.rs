use algopt::arithmetic::Operation;
use algopt::close;
use algopt::differentiate::central;
use algopt::differentiate::complex::{complex, Complex, H};
use algopt::differentiate::HALVING;
use algopt::double::Double;
use std::cell::RefCell;

fn d(x: f64) -> Double {
    Double::from_bits(x.to_bits())
}

fn v(x: Double) -> f64 {
    f64::from_bits(x.to_bits())
}

fn native(op: Operation) -> Double {
    d(match op {
        Operation::Sum(a, b) => v(a) + v(b),
        Operation::Difference(a, b) => v(a) - v(b),
        Operation::Product(a, b) => v(a) * v(b),
        Operation::Quotient(a, b) => v(a) / v(b),
        Operation::CubeRoot(a) => v(a).cbrt(),
    })
}

fn from_num(z: num::Complex<f64>) -> Complex {
    Complex { re: d(z.re), im: d(z.im) }
}

fn to_num(z: Complex) -> num::Complex<f64> {
    num::Complex::new(v(z.re), v(z.im))
}

fn test_eps() -> f64 {
    f64::cbrt(f64::EPSILON)
}

#[test]
fn diff_central_sin() {
    let fs = |x: f64| f64::sin(x);
    let result = v(central(|x: Double| d(fs(v(x))), d(std::f64::consts::FRAC_PI_3), &native));
    let expected = 0.5;
    assert!((result - expected).abs() <= test_eps());
}

#[test]
fn diff_central_square() {
    let fs = |x: f64| x * x;
    let result = v(central(|x: Double| d(fs(v(x))), d(4.0), &native));
    let expected = 8.0;
    assert!((result - expected).abs() <= test_eps());
}

#[test]
fn diff_complex_sin() {
    let fs = |x: num::Complex<f64>| x.sin();
    let result = complex(|z: Complex| from_num(fs(to_num(z))), d(std::f64::consts::FRAC_PI_3), &native);
    let expected = 0.5;
    assert!(close(result, d(expected), &native));
}

#[test]
fn diff_complex_square() {
    let fs = |x: num::Complex<f64>| x * x;
    let result = complex(|z: Complex| from_num(fs(to_num(z))), d(4.0), &native);
    let expected = 8.0;
    assert!(close(result, d(expected), &native));
}

#[test]
fn differentiation_constants_are_the_patterns_they_name() {
    assert_eq!(f64::from_bits(H), 1e-20);
    assert_eq!(f64::from_bits(HALVING), 2.0);
}

#[test]
fn central_is_the_difference_quotient_over_the_cube_root_of_epsilon() {
    let fs = |x: f64| x * x * x - 2.0 * x;
    let h = f64::cbrt(f64::EPSILON);
    for x in [0.0, 1.0, -2.5, 4.0, 1e6] {
        let expected = (fs(x + h / 2.0) - fs(x - h / 2.0)) / h;
        let result = v(central(|x: Double| d(fs(v(x))), d(x), &native));
        assert_eq!(result.to_bits(), expected.to_bits());
    }
}

#[test]
fn central_asks_for_its_operations_in_order() {
    let asked = RefCell::new(Vec::new());
    let seen = RefCell::new(Vec::new());
    let arith = |op: Operation| {
        asked.borrow_mut().push(op);
        native(op)
    };
    let f = |x: Double| {
        seen.borrow_mut().push(v(x));
        d(v(x) * v(x))
    };
    central(f, d(4.0), &arith);
    let h = f64::cbrt(f64::EPSILON);
    assert_eq!(*seen.borrow(), vec![4.0 + h / 2.0, 4.0 - h / 2.0]);
    let shape: Vec<char> = asked
        .borrow()
        .iter()
        .map(|op| match op {
            Operation::Sum(_, _) => '+',
            Operation::Difference(_, _) => '-',
            Operation::Product(_, _) => '*',
            Operation::Quotient(_, _) => '/',
            Operation::CubeRoot(_) => 'c',
        })
        .collect();
    assert_eq!(shape, vec!['c', '/', '+', '/', '-', '-', '/']);
    let first = asked.borrow()[0];
    match first {
        Operation::CubeRoot(a) => assert_eq!(v(a), f64::EPSILON),
        _ => panic!("the step is a cube root"),
    }
}

#[test]
fn complex_is_the_imaginary_part_over_the_step() {
    let seen = RefCell::new(Vec::new());
    let f = |z: Complex| {
        seen.borrow_mut().push((v(z.re), v(z.im)));
        Complex { re: d(7.0), im: d(3e-20) }
    };
    let result = v(complex(f, d(4.0), &native));
    assert_eq!(*seen.borrow(), vec![(4.0, 1e-20)]);
    assert_eq!(result.to_bits(), (3e-20f64 / 1e-20).to_bits());
}

#[test]
fn complex_of_a_cube_is_three_squares() {
    let fs = |x: num::Complex<f64>| x * x * x;
    let result = v(complex(|z: Complex| from_num(fs(to_num(z))), d(2.0), &native));
    assert!((result - 12.0).abs() <= f64::EPSILON * 12.0);
}
