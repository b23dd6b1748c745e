use rusty_graph::Scanner;
use rusty_graph::Token;

fn num_reader() -> impl Fn(String) -> u64 {
    |s: String| s.parse::<f64>().unwrap_or(0.0).to_bits()
}

fn bits(x: f64) -> u64 {
    x.to_bits()
}

#[test]
fn scan_simple_expr() {
    let input = "10 = x + y";
    let mut scanner = Scanner::new(input);
    scanner.tokenize(&num_reader());
    assert_eq!(
        scanner.tokens,
        vec![
            Token::Num(bits(10.0)),
            Token::Equal,
            Token::Id("x".to_string()),
            Token::Plus,
            Token::Id("y".to_string()),
        ]
    )
}

#[test]
fn scan_complex_expr() {
    let input = "x + (10-3.333 * 27**(y+2)) = x                 +\t23";
    let mut scanner = Scanner::new(input);
    scanner.tokenize(&num_reader());
    assert_eq!(
        scanner.tokens,
        vec![
            Token::Id("x".to_string()),
            Token::Plus,
            Token::OpenParen,
            Token::Num(bits(10.0)),
            Token::Minus,
            Token::Num(bits(3.333)),
            Token::Star,
            Token::Num(bits(27.0)),
            Token::Pow,
            Token::OpenParen,
            Token::Id("y".to_string()),
            Token::Plus,
            Token::Num(bits(2.0)),
            Token::CloseParen,
            Token::CloseParen,
            Token::Equal,
            Token::Id("x".to_string()),
            Token::Plus,
            Token::Num(bits(23.0)),
        ]
    )
}

#[test]
fn scan_unexpected_characters_are_recoverable() {
    let mut scanner = Scanner::new("x $ + ?y");
    scanner.tokenize(&num_reader());
    assert_eq!(
        scanner.tokens,
        vec![Token::Id("x".to_string()), Token::Plus, Token::Id("y".to_string())]
    );
    assert_eq!(scanner.diagnostics, vec!['$', '?']);
}

#[test]
fn scan_number_with_trailing_dot() {
    let mut scanner = Scanner::new("10. = x");
    scanner.tokenize(&num_reader());
    assert_eq!(
        scanner.tokens,
        vec![Token::Num(bits(10.0)), Token::Equal, Token::Id("x".to_string())]
    );
    assert_eq!(scanner.diagnostics, Vec::<char>::new());
}

#[test]
fn scan_distinguishes_power_from_stars() {
    let mut scanner = Scanner::new("x**y*x* *y");
    scanner.tokenize(&num_reader());
    assert_eq!(
        scanner.tokens,
        vec![
            Token::Id("x".to_string()),
            Token::Pow,
            Token::Id("y".to_string()),
            Token::Star,
            Token::Id("x".to_string()),
            Token::Star,
            Token::Star,
            Token::Id("y".to_string()),
        ]
    );
}

#[test]
fn scan_underscored_identifier_kept_verbatim() {
    let mut scanner = Scanner::new("Some_Name");
    scanner.tokenize(&num_reader());
    assert_eq!(scanner.tokens, vec![Token::Id("Some_Name".to_string())]);
}
