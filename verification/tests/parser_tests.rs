use rusty_graph::equation_to_string;
use rusty_graph::parse;
use rusty_graph::BinOp;
use rusty_graph::Equation;
use rusty_graph::Expr;
use rusty_graph::ParseError;
use rusty_graph::Scanner;
use rusty_graph::Token;
use rusty_graph::UnOp;

fn num_reader() -> impl Fn(String) -> u64 {
    |s: String| s.parse::<f64>().unwrap_or(0.0).to_bits()
}

fn num_writer() -> impl Fn(u64) -> String {
    |n: u64| f64::from_bits(n).to_string()
}

fn bits(x: f64) -> u64 {
    x.to_bits()
}

#[test]
fn parse_simple_equation() {
    // x = y
    let tokens = vec![Token::Id("x".to_string()), Token::Equal, Token::Id("y".to_string())];
    let result = parse(&tokens);
    assert_eq!(
        result,
        Ok(Equation { left: Expr::Id("x".to_string()), right: Expr::Id("y".to_string()) })
    )
}

#[test]
fn parse_complex_linear_equation() {
    // 100 + x = x/y + 2
    let tokens = vec![
        Token::Num(bits(100.0)),
        Token::Plus,
        Token::Id("x".to_string()),
        Token::Equal,
        Token::Id("x".to_string()),
        Token::Slash,
        Token::Id("y".to_string()),
        Token::Plus,
        Token::Num(bits(2.0)),
    ];
    let result = parse(&tokens);
    assert_eq!(
        result,
        Ok(Equation {
            left: Expr::Binary(
                Box::new(Expr::Num(bits(100.0))),
                BinOp::Plus,
                Box::new(Expr::Id("x".to_string())),
            ),
            right: Expr::Binary(
                Box::new(Expr::Binary(
                    Box::new(Expr::Id("x".to_string())),
                    BinOp::Slash,
                    Box::new(Expr::Id("y".to_string())),
                )),
                BinOp::Plus,
                Box::new(Expr::Num(bits(2.0))),
            ),
        })
    )
}

#[test]
fn scanner_and_parser_integration_simple() {
    // input = "-x = y + 20"
    let input = "-x = y + 20";
    let mut scanner = Scanner::new(input);
    scanner.tokenize(&num_reader());
    let result = parse(&scanner.tokens);
    assert_eq!(
        result,
        Ok(Equation {
            left: Expr::Unary(UnOp::Minus, Box::new(Expr::Id("x".to_string()))),
            right: Expr::Binary(
                Box::new(Expr::Id("y".to_string())),
                BinOp::Plus,
                Box::new(Expr::Num(bits(20.0))),
            ),
        })
    )
}

#[test]
fn parse_missing_operand_is_error() {
    let mut scanner = Scanner::new("x + = y");
    scanner.tokenize(&num_reader());
    let result = parse(&scanner.tokens);
    assert_eq!(result, Err(ParseError::UnexpectedPrimary { found: Some(Token::Equal) }));
}

#[test]
fn parse_unclosed_paren_is_error() {
    let mut scanner = Scanner::new("(x = y");
    scanner.tokenize(&num_reader());
    let result = parse(&scanner.tokens);
    assert_eq!(
        result,
        Err(ParseError::Expected { expected: Token::CloseParen, found: Some(Token::Equal) })
    );
}

#[test]
fn parse_missing_equals_is_error() {
    let mut scanner = Scanner::new("x + y");
    scanner.tokenize(&num_reader());
    let result = parse(&scanner.tokens);
    assert_eq!(result, Err(ParseError::Expected { expected: Token::Equal, found: None }));
}

#[test]
fn parse_empty_input_is_error() {
    let mut scanner = Scanner::new("");
    scanner.tokenize(&num_reader());
    let result = parse(&scanner.tokens);
    assert_eq!(result, Err(ParseError::UnexpectedPrimary { found: None }));
}

#[test]
fn render_parsed_equation() {
    let mut scanner = Scanner::new("100 + (x - 3.7) = y**3");
    scanner.tokenize(&num_reader());
    let eq = parse(&scanner.tokens).unwrap();
    let text = equation_to_string(&eq, &num_writer());
    assert_eq!(text, "100 + (x - 3.7) = y**3");
}

#[test]
fn clone_preserves_equation() {
    let mut scanner = Scanner::new("-x = y + 20");
    scanner.tokenize(&num_reader());
    let eq = parse(&scanner.tokens).unwrap();
    let copy = eq.clone();
    assert_eq!(eq, copy);
}
