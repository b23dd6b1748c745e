use rusty_graph::equal;
use rusty_graph::eval;
use rusty_graph::parse;
use rusty_graph::EvalError;
use rusty_graph::FloatOp;
use rusty_graph::Scanner;

fn num_reader() -> impl Fn(String) -> u64 {
    |s: String| s.parse::<f64>().unwrap_or(0.0).to_bits()
}

fn float_ops() -> impl Fn(FloatOp, u64, u64) -> u64 {
    |op: FloatOp, a: u64, b: u64| {
        let x = f64::from_bits(a);
        let y = f64::from_bits(b);
        let r = match op {
            FloatOp::Add => x + y,
            FloatOp::Sub => x - y,
            FloatOp::Mul => x * y,
            FloatOp::Div => x / y,
            FloatOp::Pow => x.powf(y),
            FloatOp::Neg => -x,
        };
        r.to_bits()
    }
}

fn bits(x: f64) -> u64 {
    x.to_bits()
}

fn parse_text(input: &str) -> rusty_graph::Equation {
    let mut scanner = Scanner::new(input);
    scanner.tokenize(&num_reader());
    parse(&scanner.tokens).unwrap()
}

#[test]
fn eval_mixed_arithmetic() {
    // 100 + (x - 3.5) evaluated at x = 4.5 is 101.
    let eq = parse_text("100 + (x - 3.5) = y");
    let v = eval(&eq.left, bits(4.5), bits(0.0), &float_ops()).unwrap();
    assert_eq!(f64::from_bits(v), 101.0);
}

#[test]
fn eval_power_is_left_associative() {
    // 2**3**2 groups as (2**3)**2 = 64, not 2**(3**2) = 512.
    let eq = parse_text("2**3**2 = y");
    let v = eval(&eq.left, bits(0.0), bits(0.0), &float_ops()).unwrap();
    assert_eq!(f64::from_bits(v), 64.0);
}

#[test]
fn eval_unary_minus_negates() {
    let eq = parse_text("-x = y");
    let v = eval(&eq.left, bits(5.0), bits(0.0), &float_ops()).unwrap();
    assert_eq!(f64::from_bits(v), -5.0);
}

#[test]
fn eval_division_by_zero_follows_float_semantics() {
    let eq = parse_text("1/x = y");
    let v = eval(&eq.left, bits(0.0), bits(0.0), &float_ops()).unwrap();
    assert_eq!(f64::from_bits(v), f64::INFINITY);
}

#[test]
fn eval_unknown_identifier_is_error() {
    let eq = parse_text("z = x");
    let r = eval(&eq.left, bits(1.0), bits(2.0), &float_ops());
    assert_eq!(r.unwrap_err(), EvalError::UnknownIdentifier("z".to_string()));
}

#[test]
fn eval_variable_names_case_insensitive() {
    let eq = parse_text("X + Y = x + y");
    let l = eval(&eq.left, bits(2.0), bits(3.0), &float_ops()).unwrap();
    let r = eval(&eq.right, bits(2.0), bits(3.0), &float_ops()).unwrap();
    assert_eq!(f64::from_bits(l), 5.0);
    assert_eq!(l, r);
}

#[test]
fn oracle_true_iff_bit_identical() {
    let eq = parse_text("x = y");
    let ops = float_ops();
    assert_eq!(equal(&eq, bits(1.5), bits(1.5), &ops), Ok(true));
    assert_eq!(equal(&eq, bits(1.5), bits(1.5000001), &ops), Ok(false));
    // 0.0 and -0.0 compare equal as floats but differ bit for bit.
    assert_eq!(equal(&eq, bits(0.0), bits(-0.0), &ops), Ok(false));
}

#[test]
fn oracle_propagates_evaluation_error() {
    let eq = parse_text("x = z");
    let r = equal(&eq, bits(1.0), bits(1.0), &float_ops());
    assert_eq!(r.unwrap_err(), EvalError::UnknownIdentifier("z".to_string()));
}
