use rusty_graph::evaluate;
use rusty_graph::parse;
use rusty_graph::solution_points;
use rusty_graph::EvalError;
use rusty_graph::FloatOp;
use rusty_graph::Point;
use rusty_graph::Scanner;

fn num_reader() -> impl Fn(String) -> u64 {
    |s: String| s.parse::<f64>().unwrap_or(0.0).to_bits()
}

fn float_ops() -> impl Fn(FloatOp, u64, u64) -> u64 {
    |op: FloatOp, a: u64, b: u64| {
        let x = f64::from_bits(a);
        let y = f64::from_bits(b);
        let r = match op {
            FloatOp::Add => x + y,
            FloatOp::Sub => x - y,
            FloatOp::Mul => x * y,
            FloatOp::Div => x / y,
            FloatOp::Pow => x.powf(y),
            FloatOp::Neg => -x,
        };
        r.to_bits()
    }
}

fn grid(lo: i32, hi: i32) -> Vec<u64> {
    (lo..=hi).map(|n| (n as f64).to_bits()).collect()
}

fn point(x: f64, y: f64) -> Point {
    Point { x: x.to_bits(), y: y.to_bits() }
}

#[test]
fn diagonal_points_in_scan_order() {
    // x = y over the integer grid [-2, 2] x [-2, 2].
    let (points, diags) =
        evaluate("x = y", &grid(-2, 2), &grid(-2, 2), &num_reader(), &float_ops()).unwrap();
    assert_eq!(
        points,
        vec![
            point(-2.0, -2.0),
            point(-1.0, -1.0),
            point(0.0, 0.0),
            point(1.0, 1.0),
            point(2.0, 2.0),
        ]
    );
    assert_eq!(diags, Vec::<EvalError>::new());
}

#[test]
fn parabola_points_in_scan_order() {
    // y = x**2 over x in [0, 3], y in [0, 10].
    let (points, _) =
        evaluate("y = x**2", &grid(0, 3), &grid(0, 10), &num_reader(), &float_ops()).unwrap();
    assert_eq!(points, vec![point(0.0, 0.0), point(1.0, 1.0), point(2.0, 4.0), point(3.0, 9.0)]);
}

#[test]
fn evaluation_error_does_not_abort_search() {
    // Every cell fails (unknown identifier), yet the sweep visits them all.
    let mut scanner = Scanner::new("z = x");
    scanner.tokenize(&num_reader());
    let eq = parse(&scanner.tokens).unwrap();
    let (points, diags) = solution_points(&eq, &grid(0, 1), &grid(0, 1), &float_ops());
    assert_eq!(points, Vec::<Point>::new());
    assert_eq!(diags.len(), 4);
    assert_eq!(diags[0], EvalError::UnknownIdentifier("z".to_string()));
}

#[test]
fn equation_reused_across_sweep_unchanged() {
    // One parse serves any number of evaluations, and the equation itself
    // never changes.
    let mut scanner = Scanner::new("x = y");
    scanner.tokenize(&num_reader());
    let eq = parse(&scanner.tokens).unwrap();
    let copy = eq.clone();
    let (first, _) = solution_points(&eq, &grid(-1, 1), &grid(-1, 1), &float_ops());
    let (second, _) = solution_points(&eq, &grid(-1, 1), &grid(-1, 1), &float_ops());
    assert_eq!(eq, copy);
    assert_eq!(first, second);
    assert_eq!(first, vec![point(-1.0, -1.0), point(0.0, 0.0), point(1.0, 1.0)]);
}

#[test]
fn evaluate_returns_parse_error_for_malformed_input() {
    let r = evaluate("x + = y", &grid(0, 1), &grid(0, 1), &num_reader(), &float_ops());
    assert!(r.is_err());
    let r = evaluate("(x = y", &grid(0, 1), &grid(0, 1), &num_reader(), &float_ops());
    assert!(r.is_err());
}

#[test]
fn empty_ranges_yield_no_points() {
    let (points, diags) =
        evaluate("x = y", &Vec::new(), &Vec::new(), &num_reader(), &float_ops()).unwrap();
    assert_eq!(points, Vec::<Point>::new());
    assert_eq!(diags, Vec::<EvalError>::new());
}
