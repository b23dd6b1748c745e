//! The parser: recursive descent over the token sequence, producing an
//! immutable [`Equation`] of two expression trees, or a parse error that names
//! the expected and the found token. The grammar, each level binding tighter
//! than the one above, every repetition folding to the left:
//!
//! ```text
//! equation   := expression '=' expression
//! expression := factor (('+' | '-') factor)*
//! factor     := pow (('*' | '/') pow)*
//! pow        := unary ('**' unary)*
//! unary      := '-' unary | primary
//! primary    := identifier | number | '(' expression ')'
//! ```
use vstd::prelude::*;

use crate::scanner::deep_toks;
use crate::scanner::Token;
use crate::scanner::TokenS;

verus! {

/// A binary operator, named after its token.
#[derive(Debug, Clone, Copy, PartialEq, Eq, Structural)]
pub enum BinOp {
    Plus,
    Minus,
    Star,
    Slash,
    Pow,
}

/// A unary operator: only negation exists.
#[derive(Debug, Clone, Copy, PartialEq, Eq, Structural)]
pub enum UnOp {
    Minus,
}

/// An expression tree. Each non-leaf node exclusively owns its children; an
/// identifier leaf owns its name, so the tree outlives the input text.
#[derive(Debug)]
pub enum Expr {
    Binary(Box<Expr>, BinOp, Box<Expr>),
    Unary(UnOp, Box<Expr>),
    Group(Box<Expr>),
    Id(String),
    Num(u64),
}

/// The mathematical value of an [`Expr`]: identifier names become their
/// character sequences.
pub ghost enum ExprS {
    Binary(Box<ExprS>, BinOp, Box<ExprS>),
    Unary(UnOp, Box<ExprS>),
    Group(Box<ExprS>),
    Id(Seq<char>),
    Num(u64),
}

impl View for Expr {
    type V = ExprS;

    open spec fn view(&self) -> ExprS
        decreases self,
    {
        match self {
            Expr::Binary(l, op, r) => ExprS::Binary(Box::new((**l)@), *op, Box::new((**r)@)),
            Expr::Unary(op, e) => ExprS::Unary(*op, Box::new((**e)@)),
            Expr::Group(e) => ExprS::Group(Box::new((**e)@)),
            Expr::Id(s) => ExprS::Id(s@),
            Expr::Num(n) => ExprS::Num(*n),
        }
    }
}

/// Two expression trees asserted equal: the product of one successful parse,
/// immutable thereafter.
#[derive(Debug)]
pub struct Equation {
    pub left: Expr,
    pub right: Expr,
}

/// The mathematical value of an [`Equation`].
pub ghost struct EquationS {
    pub left: ExprS,
    pub right: ExprS,
}

impl View for Equation {
    type V = EquationS;

    open spec fn view(&self) -> EquationS {
        EquationS { left: self.left@, right: self.right@ }
    }
}

impl Clone for Expr {
    /// A deep copy: the copy has the same mathematical value as the original.
    fn clone(&self) -> (res: Expr)
        ensures
            res@ == self@,
        decreases self,
    {
        match self {
            Expr::Binary(l, op, r) => Expr::Binary(
                Box::new((**l).clone()),
                *op,
                Box::new((**r).clone()),
            ),
            Expr::Unary(op, e) => Expr::Unary(*op, Box::new((**e).clone())),
            Expr::Group(e) => Expr::Group(Box::new((**e).clone())),
            Expr::Id(s) => Expr::Id(s.clone()),
            Expr::Num(n) => Expr::Num(*n),
        }
    }
}

impl Clone for Equation {
    /// A deep copy: the copy has the same mathematical value as the original.
    fn clone(&self) -> (res: Equation)
        ensures
            res@ == self@,
    {
        Equation { left: self.left.clone(), right: self.right.clone() }
    }
}

impl PartialEq for Expr {
    /// Trees are equal when they have the same shape, the same operators, the
    /// same numeric bit patterns, and identifier names that agree character
    /// for character.
    fn eq(&self, other: &Expr) -> bool
        decreases self,
    {
        match (self, other) {
            (Expr::Binary(l1, op1, r1), Expr::Binary(l2, op2, r2)) => *op1 == *op2 && (**l1).eq(
                &**l2,
            ) && (**r1).eq(&**r2),
            (Expr::Unary(op1, e1), Expr::Unary(op2, e2)) => *op1 == *op2 && (**e1).eq(&**e2),
            (Expr::Group(e1), Expr::Group(e2)) => (**e1).eq(&**e2),
            (Expr::Id(a), Expr::Id(b)) => *a == *b,
            (Expr::Num(a), Expr::Num(b)) => *a == *b,
            _ => false,
        }
    }
}

impl vstd::std_specs::cmp::PartialEqSpecImpl for Expr {
    open spec fn obeys_eq_spec() -> bool {
        true
    }

    open spec fn eq_spec(&self, other: &Expr) -> bool {
        self@ == other@
    }
}

impl PartialEq for Equation {
    /// Equations are equal when both sides are.
    fn eq(&self, other: &Equation) -> bool {
        self.left == other.left && self.right == other.right
    }
}

impl vstd::std_specs::cmp::PartialEqSpecImpl for Equation {
    open spec fn obeys_eq_spec() -> bool {
        true
    }

    open spec fn eq_spec(&self, other: &Equation) -> bool {
        self@ == other@
    }
}

/// A parse error: what was expected and what stood there instead (`None` for
/// the end of the token sequence). Parsing never yields a partial equation.
#[derive(Debug)]
pub enum ParseError {
    /// A particular token was required (the `=` between the sides, or the `)`
    /// closing a group) and something else was found.
    Expected { expected: Token, found: Option<Token> },
    /// An expression atom (identifier, number or parenthesis) was required
    /// and something else was found.
    UnexpectedPrimary { found: Option<Token> },
}

/// Whether two optional tokens are the same token.
fn opt_token_eq(a: &Option<Token>, b: &Option<Token>) -> (r: bool)
    ensures
        r == (a.deep_view() == b.deep_view()),
{
    match (a, b) {
        (Some(x), Some(y)) => {
            proof {
                crate::scanner::lemma_token_eq_view(x, y);
            }
            *x == *y
        },
        (None, None) => true,
        _ => false,
    }
}

impl PartialEq for ParseError {
    /// Errors are equal when they report the same expectation and the same
    /// found token.
    fn eq(&self, other: &ParseError) -> bool {
        match (self, other) {
            (
                ParseError::Expected { expected: e1, found: f1 },
                ParseError::Expected { expected: e2, found: f2 },
            ) => {
                proof {
                    crate::scanner::lemma_token_eq_view(e1, e2);
                }
                *e1 == *e2 && opt_token_eq(f1, f2)
            },
            (
                ParseError::UnexpectedPrimary { found: f1 },
                ParseError::UnexpectedPrimary { found: f2 },
            ) => opt_token_eq(f1, f2),
            _ => false,
        }
    }
}

impl vstd::std_specs::cmp::PartialEqSpecImpl for ParseError {
    open spec fn obeys_eq_spec() -> bool {
        true
    }

    open spec fn eq_spec(&self, other: &ParseError) -> bool {
        self@ == other@
    }
}

/// The mathematical value of a [`ParseError`].
pub ghost enum ParseErrS {
    Expected { expected: TokenS, found: Option<TokenS> },
    UnexpectedPrimary { found: Option<TokenS> },
}

impl View for ParseError {
    type V = ParseErrS;

    open spec fn view(&self) -> ParseErrS {
        match self {
            ParseError::Expected { expected, found } => ParseErrS::Expected {
                expected: expected.deep_view(),
                found: found.deep_view(),
            },
            ParseError::UnexpectedPrimary { found } => ParseErrS::UnexpectedPrimary {
                found: found.deep_view(),
            },
        }
    }
}

/// The token of `ts` at `i`, if `i` is in range.
pub open spec fn tok_at(ts: Seq<TokenS>, i: int) -> Option<TokenS> {
    if 0 <= i < ts.len() {
        Some(ts[i])
    } else {
        None
    }
}

/// `j` confined to `[lo, hi]`. The parsing functions below resume after a
/// successfully parsed part at `step_to(j, i + 1, ts.len())`, where `j` is
/// the position that part ended at: a parse that succeeds always consumes at
/// least one token and never runs past the end, so the confinement is the
/// identity on every reachable argument; it makes that progress manifest to
/// the termination checker.
pub open spec fn step_to(j: int, lo: int, hi: int) -> int {
    let raised = if j < lo {
        lo
    } else {
        j
    };
    if raised > hi {
        hi
    } else {
        raised
    }
}

/// What parsing a primary at `i` yields: an identifier or number leaf, or a
/// parenthesized group.
pub open spec fn spec_primary(ts: Seq<TokenS>, i: int) -> Result<(ExprS, int), ParseErrS>
    decreases ts.len() - i, 0int,
{
    match tok_at(ts, i) {
        Some(TokenS::Id(name)) => Ok((ExprS::Id(name), i + 1)),
        Some(TokenS::Num(n)) => Ok((ExprS::Num(n), i + 1)),
        Some(TokenS::OpenParen) => match spec_expression(ts, i + 1) {
            Ok((e, j)) => if tok_at(ts, j) == Some(TokenS::CloseParen) {
                Ok((ExprS::Group(Box::new(e)), j + 1))
            } else {
                Err(ParseErrS::Expected { expected: TokenS::CloseParen, found: tok_at(ts, j) })
            },
            Err(e) => Err(e),
        },
        found => Err(ParseErrS::UnexpectedPrimary { found }),
    }
}

/// What parsing a unary at `i` yields: any run of leading minus signs folds
/// into nested negations of a primary.
pub open spec fn spec_unary(ts: Seq<TokenS>, i: int) -> Result<(ExprS, int), ParseErrS>
    decreases ts.len() - i, 1int,
{
    if tok_at(ts, i) == Some(TokenS::Minus) {
        match spec_unary(ts, i + 1) {
            Ok((e, j)) => Ok((ExprS::Unary(UnOp::Minus, Box::new(e)), j)),
            Err(e) => Err(e),
        }
    } else {
        spec_primary(ts, i)
    }
}

/// What parsing a power at `i` yields: unaries joined by `**`, folded to the
/// left.
pub open spec fn spec_pow(ts: Seq<TokenS>, i: int) -> Result<(ExprS, int), ParseErrS>
    decreases ts.len() - i, 2int,
{
    if i < 0 || i >= ts.len() {
        Err(ParseErrS::UnexpectedPrimary { found: None })
    } else {
        match spec_unary(ts, i) {
            Ok((e, j)) => spec_pow_tail(ts, step_to(j, i + 1, ts.len() as int), e),
            Err(e) => Err(e),
        }
    }
}

/// The left fold of the `('**' unary)*` repetition, starting from `acc`.
pub open spec fn spec_pow_tail(ts: Seq<TokenS>, i: int, acc: ExprS) -> Result<
    (ExprS, int),
    ParseErrS,
>
    decreases ts.len() - i, 3int,
{
    if tok_at(ts, i) == Some(TokenS::Pow) {
        match spec_unary(ts, i + 1) {
            Ok((r, k)) => spec_pow_tail(
                ts,
                step_to(k, i + 2, ts.len() as int),
                ExprS::Binary(Box::new(acc), BinOp::Pow, Box::new(r)),
            ),
            Err(e) => Err(e),
        }
    } else {
        Ok((acc, i))
    }
}

/// What parsing a factor at `i` yields: powers joined by `*` or `/`, folded
/// to the left.
pub open spec fn spec_factor(ts: Seq<TokenS>, i: int) -> Result<(ExprS, int), ParseErrS>
    decreases ts.len() - i, 4int,
{
    if i < 0 || i >= ts.len() {
        Err(ParseErrS::UnexpectedPrimary { found: None })
    } else {
        match spec_pow(ts, i) {
            Ok((e, j)) => spec_factor_tail(ts, step_to(j, i + 1, ts.len() as int), e),
            Err(e) => Err(e),
        }
    }
}

/// The left fold of the `(('*' | '/') pow)*` repetition, starting from `acc`.
pub open spec fn spec_factor_tail(ts: Seq<TokenS>, i: int, acc: ExprS) -> Result<
    (ExprS, int),
    ParseErrS,
>
    decreases ts.len() - i, 5int,
{
    let op = if tok_at(ts, i) == Some(TokenS::Star) {
        Some(BinOp::Star)
    } else if tok_at(ts, i) == Some(TokenS::Slash) {
        Some(BinOp::Slash)
    } else {
        None
    };
    match op {
        Some(op) => match spec_pow(ts, i + 1) {
            Ok((r, k)) => spec_factor_tail(
                ts,
                step_to(k, i + 2, ts.len() as int),
                ExprS::Binary(Box::new(acc), op, Box::new(r)),
            ),
            Err(e) => Err(e),
        },
        None => Ok((acc, i)),
    }
}

/// What parsing an expression at `i` yields: factors joined by `+` or `-`,
/// folded to the left.
pub open spec fn spec_expression(ts: Seq<TokenS>, i: int) -> Result<(ExprS, int), ParseErrS>
    decreases ts.len() - i, 6int,
{
    if i < 0 || i >= ts.len() {
        Err(ParseErrS::UnexpectedPrimary { found: None })
    } else {
        match spec_factor(ts, i) {
            Ok((e, j)) => spec_expression_tail(ts, step_to(j, i + 1, ts.len() as int), e),
            Err(e) => Err(e),
        }
    }
}

/// The left fold of the `(('+' | '-') factor)*` repetition, starting from
/// `acc`.
pub open spec fn spec_expression_tail(ts: Seq<TokenS>, i: int, acc: ExprS) -> Result<
    (ExprS, int),
    ParseErrS,
>
    decreases ts.len() - i, 7int,
{
    let op = if tok_at(ts, i) == Some(TokenS::Plus) {
        Some(BinOp::Plus)
    } else if tok_at(ts, i) == Some(TokenS::Minus) {
        Some(BinOp::Minus)
    } else {
        None
    };
    match op {
        Some(op) => match spec_factor(ts, i + 1) {
            Ok((r, k)) => spec_expression_tail(
                ts,
                step_to(k, i + 2, ts.len() as int),
                ExprS::Binary(Box::new(acc), op, Box::new(r)),
            ),
            Err(e) => Err(e),
        },
        None => Ok((acc, i)),
    }
}

/// What consuming an exact token at `i` yields: the next position, or the
/// error naming the expected token and what was found.
pub open spec fn spec_expect(ts: Seq<TokenS>, i: int, expected: TokenS) -> Result<int, ParseErrS> {
    if tok_at(ts, i) == Some(expected) {
        Ok(i + 1)
    } else {
        Err(ParseErrS::Expected { expected, found: tok_at(ts, i) })
    }
}

/// The operator that an additive-level repetition continues with at `i`, if
/// any.
pub open spec fn addop_at_spec(ts: Seq<TokenS>, i: int) -> Option<BinOp> {
    if tok_at(ts, i) == Some(TokenS::Plus) {
        Some(BinOp::Plus)
    } else if tok_at(ts, i) == Some(TokenS::Minus) {
        Some(BinOp::Minus)
    } else {
        None
    }
}

/// The operator that a multiplicative-level repetition continues with at `i`,
/// if any.
pub open spec fn mulop_at_spec(ts: Seq<TokenS>, i: int) -> Option<BinOp> {
    if tok_at(ts, i) == Some(TokenS::Star) {
        Some(BinOp::Star)
    } else if tok_at(ts, i) == Some(TokenS::Slash) {
        Some(BinOp::Slash)
    } else {
        None
    }
}

/// What parsing a whole equation yields: an expression, the `=`, and a second
/// expression. Tokens after the right-hand side are ignored. No partial
/// equation is ever produced: any failure is the whole parse's failure.
pub open spec fn spec_parse(ts: Seq<TokenS>) -> Result<EquationS, ParseErrS> {
    match spec_expression(ts, 0) {
        Ok((left, i)) => match spec_expect(ts, i, TokenS::Equal) {
            Ok(j) => match spec_expression(ts, j) {
                Ok((right, _)) => Ok(EquationS { left, right }),
                Err(e) => Err(e),
            },
            Err(e) => Err(e),
        },
        Err(e) => Err(e),
    }
}


/// The token at `pos`, if any, tied to its place in the view.
fn peek_token<'a>(tokens: &'a Vec<Token>, pos: usize) -> (r: Option<&'a Token>)
    ensures
        match r {
            Some(t) => pos < tokens@.len() && tok_at(deep_toks(tokens@), pos as int) == Some(
                t.deep_view(),
            ),
            None => pos >= tokens@.len() && tok_at(deep_toks(tokens@), pos as int) is None,
        },
        tokens@.len() <= usize::MAX,
{
    if pos < tokens.len() {
        Some(&tokens[pos])
    } else {
        None
    }
}

/// Consumes the next token when it is `expected`; otherwise reports what was
/// expected and what was found.
fn expect(tokens: &Vec<Token>, pos: usize, expected: Token) -> (r: Result<usize, ParseError>)
    requires
        pos <= tokens@.len(),
    ensures
        ({
            let ts = deep_toks(tokens@);
            match r {
                Ok(np) => spec_expect(ts, pos as int, expected.deep_view()) == Ok::<
                    int,
                    ParseErrS,
                >(np as int) && np == pos + 1 && pos < tokens@.len(),
                Err(pe) => spec_expect(ts, pos as int, expected.deep_view()) == Err::<
                    int,
                    ParseErrS,
                >(pe@),
            }
        }),
{
    match peek_token(tokens, pos) {
        Some(t) => {
            proof {
                crate::scanner::lemma_token_eq_view(t, &expected);
            }
            if *t == expected {
                Ok(pos + 1)
            } else {
                Err(ParseError::Expected { expected, found: Some(t.clone()) })
            }
        },
        None => Err(ParseError::Expected { expected, found: None }),
    }
}

/// Parses a primary: an identifier, a number, or a parenthesized expression.
fn primary(tokens: &Vec<Token>, pos: usize) -> (r: Result<(Expr, usize), ParseError>)
    requires
        pos <= tokens@.len(),
    ensures
        ({
            let ts = deep_toks(tokens@);
            match r {
                Ok((e, np)) => spec_primary(ts, pos as int) == Ok::<(ExprS, int), ParseErrS>(
                    (e@, np as int),
                ) && pos < np <= tokens@.len(),
                Err(pe) => spec_primary(ts, pos as int) == Err::<(ExprS, int), ParseErrS>(pe@),
            }
        }),
    decreases tokens@.len() - pos, 0int,
{
    match peek_token(tokens, pos) {
        Some(t) => match t {
            Token::Id(s) => Ok((Expr::Id(s.clone()), pos + 1)),
            Token::Num(n) => Ok((Expr::Num(*n), pos + 1)),
            Token::OpenParen => match expression(tokens, pos + 1) {
                Ok((e, j)) => match expect(tokens, j, Token::CloseParen) {
                    Ok(np) => Ok((Expr::Group(Box::new(e)), np)),
                    Err(pe) => Err(pe),
                },
                Err(pe) => Err(pe),
            },
            _ => Err(ParseError::UnexpectedPrimary { found: Some(t.clone()) }),
        },
        None => Err(ParseError::UnexpectedPrimary { found: None }),
    }
}

/// Whether the token at `pos` is a minus sign.
fn minus_at(tokens: &Vec<Token>, pos: usize) -> (b: bool)
    ensures
        b == (tok_at(deep_toks(tokens@), pos as int) == Some(TokenS::Minus)),
        b ==> pos < tokens@.len(),
        tokens@.len() <= usize::MAX,
{
    match peek_token(tokens, pos) {
        Some(t) => matches!(t, Token::Minus),
        None => false,
    }
}

/// Parses a unary: any run of leading minus signs, then a primary.
fn unary(tokens: &Vec<Token>, pos: usize) -> (r: Result<(Expr, usize), ParseError>)
    requires
        pos <= tokens@.len(),
    ensures
        ({
            let ts = deep_toks(tokens@);
            match r {
                Ok((e, np)) => spec_unary(ts, pos as int) == Ok::<(ExprS, int), ParseErrS>(
                    (e@, np as int),
                ) && pos < np <= tokens@.len(),
                Err(pe) => spec_unary(ts, pos as int) == Err::<(ExprS, int), ParseErrS>(pe@),
            }
        }),
    decreases tokens@.len() - pos, 1int,
{
    if minus_at(tokens, pos) {
        match unary(tokens, pos + 1) {
            Ok((e, j)) => Ok((Expr::Unary(UnOp::Minus, Box::new(e)), j)),
            Err(pe) => Err(pe),
        }
    } else {
        primary(tokens, pos)
    }
}

/// Whether the token at `pos` is the power operator.
fn pow_at(tokens: &Vec<Token>, pos: usize) -> (b: bool)
    ensures
        b == (tok_at(deep_toks(tokens@), pos as int) == Some(TokenS::Pow)),
        b ==> pos < tokens@.len(),
        tokens@.len() <= usize::MAX,
{
    match peek_token(tokens, pos) {
        Some(t) => matches!(t, Token::Pow),
        None => false,
    }
}

/// Parses a power: unaries joined by `**`, folded to the left.
#[verifier::loop_isolation(false)]
fn pow(tokens: &Vec<Token>, pos: usize) -> (r: Result<(Expr, usize), ParseError>)
    requires
        pos <= tokens@.len(),
    ensures
        ({
            let ts = deep_toks(tokens@);
            match r {
                Ok((e, np)) => spec_pow(ts, pos as int) == Ok::<(ExprS, int), ParseErrS>(
                    (e@, np as int),
                ) && pos < np <= tokens@.len(),
                Err(pe) => spec_pow(ts, pos as int) == Err::<(ExprS, int), ParseErrS>(pe@),
            }
        }),
    decreases tokens@.len() - pos, 2int,
{
    let ghost ts = deep_toks(tokens@);
    if pos >= tokens.len() {
        return Err(ParseError::UnexpectedPrimary { found: None });
    }
    let mut left: Expr;
    let mut cur: usize;
    match unary(tokens, pos) {
        Ok((e, j)) => {
            left = e;
            cur = j;
        },
        Err(pe) => {
            return Err(pe);
        },
    }
    while pow_at(tokens, cur)
        invariant
            ts == deep_toks(tokens@),
            pos < cur <= tokens@.len(),
            spec_pow(ts, pos as int) == spec_pow_tail(ts, cur as int, left@),
        decreases tokens@.len() - cur,
    {
        match unary(tokens, cur + 1) {
            Ok((rhs, k)) => {
                left = Expr::Binary(Box::new(left), BinOp::Pow, Box::new(rhs));
                cur = k;
            },
            Err(pe) => {
                return Err(pe);
            },
        }
    }
    Ok((left, cur))
}

/// The `*` or `/` continuing a factor at `pos`, if any.
fn mulop_at(tokens: &Vec<Token>, pos: usize) -> (r: Option<BinOp>)
    ensures
        r == mulop_at_spec(deep_toks(tokens@), pos as int),
        r is Some ==> pos < tokens@.len(),
        tokens@.len() <= usize::MAX,
{
    match peek_token(tokens, pos) {
        Some(t) => match t {
            Token::Star => Some(BinOp::Star),
            Token::Slash => Some(BinOp::Slash),
            _ => None,
        },
        None => None,
    }
}

/// Parses a factor: powers joined by `*` or `/`, folded to the left.
#[verifier::loop_isolation(false)]
fn factor(tokens: &Vec<Token>, pos: usize) -> (r: Result<(Expr, usize), ParseError>)
    requires
        pos <= tokens@.len(),
    ensures
        ({
            let ts = deep_toks(tokens@);
            match r {
                Ok((e, np)) => spec_factor(ts, pos as int) == Ok::<(ExprS, int), ParseErrS>(
                    (e@, np as int),
                ) && pos < np <= tokens@.len(),
                Err(pe) => spec_factor(ts, pos as int) == Err::<(ExprS, int), ParseErrS>(pe@),
            }
        }),
    decreases tokens@.len() - pos, 4int,
{
    let ghost ts = deep_toks(tokens@);
    if pos >= tokens.len() {
        return Err(ParseError::UnexpectedPrimary { found: None });
    }
    let mut left: Expr;
    let mut cur: usize;
    match pow(tokens, pos) {
        Ok((e, j)) => {
            left = e;
            cur = j;
        },
        Err(pe) => {
            return Err(pe);
        },
    }
    let mut op_opt = mulop_at(tokens, cur);
    while op_opt.is_some()
        invariant
            ts == deep_toks(tokens@),
            pos < cur <= tokens@.len(),
            op_opt == mulop_at_spec(ts, cur as int),
            tokens@.len() <= usize::MAX,
            spec_factor(ts, pos as int) == spec_factor_tail(ts, cur as int, left@),
        decreases tokens@.len() - cur,
    {
        let op = op_opt.unwrap();
        match pow(tokens, cur + 1) {
            Ok((rhs, k)) => {
                left = Expr::Binary(Box::new(left), op, Box::new(rhs));
                cur = k;
            },
            Err(pe) => {
                return Err(pe);
            },
        }
        op_opt = mulop_at(tokens, cur);
    }
    Ok((left, cur))
}

/// The `+` or `-` continuing an expression at `pos`, if any.
fn addop_at(tokens: &Vec<Token>, pos: usize) -> (r: Option<BinOp>)
    ensures
        r == addop_at_spec(deep_toks(tokens@), pos as int),
        r is Some ==> pos < tokens@.len(),
        tokens@.len() <= usize::MAX,
{
    match peek_token(tokens, pos) {
        Some(t) => match t {
            Token::Plus => Some(BinOp::Plus),
            Token::Minus => Some(BinOp::Minus),
            _ => None,
        },
        None => None,
    }
}

/// Parses an expression: factors joined by `+` or `-`, folded to the left.
#[verifier::loop_isolation(false)]
fn expression(tokens: &Vec<Token>, pos: usize) -> (r: Result<(Expr, usize), ParseError>)
    requires
        pos <= tokens@.len(),
    ensures
        ({
            let ts = deep_toks(tokens@);
            match r {
                Ok((e, np)) => spec_expression(ts, pos as int) == Ok::<(ExprS, int), ParseErrS>(
                    (e@, np as int),
                ) && pos < np <= tokens@.len(),
                Err(pe) => spec_expression(ts, pos as int) == Err::<(ExprS, int), ParseErrS>(pe@),
            }
        }),
    decreases tokens@.len() - pos, 6int,
{
    let ghost ts = deep_toks(tokens@);
    if pos >= tokens.len() {
        return Err(ParseError::UnexpectedPrimary { found: None });
    }
    let mut left: Expr;
    let mut cur: usize;
    match factor(tokens, pos) {
        Ok((e, j)) => {
            left = e;
            cur = j;
        },
        Err(pe) => {
            return Err(pe);
        },
    }
    let mut op_opt = addop_at(tokens, cur);
    while op_opt.is_some()
        invariant
            ts == deep_toks(tokens@),
            pos < cur <= tokens@.len(),
            op_opt == addop_at_spec(ts, cur as int),
            tokens@.len() <= usize::MAX,
            spec_expression(ts, pos as int) == spec_expression_tail(ts, cur as int, left@),
        decreases tokens@.len() - cur,
    {
        let op = op_opt.unwrap();
        match factor(tokens, cur + 1) {
            Ok((rhs, k)) => {
                left = Expr::Binary(Box::new(left), op, Box::new(rhs));
                cur = k;
            },
            Err(pe) => {
                return Err(pe);
            },
        }
        op_opt = addop_at(tokens, cur);
    }
    Ok((left, cur))
}

/// Parses a whole equation from the token sequence: a left expression, the
/// `=`, and a right expression (tokens after it are ignored, as the grammar
/// has no end marker). On failure no partial equation is returned: the error
/// names the expected and the found token.
pub fn parse(tokens: &Vec<Token>) -> (r: Result<Equation, ParseError>)
    ensures
        ({
            let ts = deep_toks(tokens@);
            match r {
                Ok(eq) => spec_parse(ts) == Ok::<EquationS, ParseErrS>(eq@),
                Err(pe) => spec_parse(ts) == Err::<EquationS, ParseErrS>(pe@),
            }
        }),
{
    let left = match expression(tokens, 0) {
        Ok((e, j)) => (e, j),
        Err(pe) => {
            return Err(pe);
        },
    };
    let i = match expect(tokens, left.1, Token::Equal) {
        Ok(np) => np,
        Err(pe) => {
            return Err(pe);
        },
    };
    let right = match expression(tokens, i) {
        Ok((e, j)) => (e, j),
        Err(pe) => {
            return Err(pe);
        },
    };
    Ok(Equation { left: left.0, right: right.0 })
}

} // verus!


verus! {

/// What the library asks of the number-formatting closure: it accepts every
/// bit pattern, and the text it returns depends only on the pattern.
pub open spec fn fmt_wf<F: Fn(u64) -> String>(f: F) -> bool {
    &&& forall|n: u64| #[trigger] call_requires(f, (n,))
    &&& forall|n: u64, r1: String, r2: String|
        #[trigger] call_ensures(f, (n,), r1) && #[trigger] call_ensures(f, (n,), r2) ==> r1@
            == r2@
}

/// The function from a bit pattern to the text that the closure `f` renders
/// it as.
pub open spec fn fmt_fn<F: Fn(u64) -> String>(f: F) -> spec_fn(u64) -> Seq<char> {
    |n: u64| (choose|r: String| #[trigger] call_ensures(f, (n,), r))@
}

/// Renders one number through the closure and names the result.
fn apply_fmt<F: Fn(u64) -> String>(fmt: &F, n: u64) -> (s: String)
    requires
        fmt_wf(*fmt),
    ensures
        s@ == fmt_fn(*fmt)(n),
{
    let s = (*fmt)(n);
    proof {
        let r0 = choose|r0: String| #[trigger] call_ensures(*fmt, (n,), r0);
        assert(call_ensures(*fmt, (n,), s));
        assert(r0@ == s@);
    }
    s
}

/// The text of a binary operator, as it stands between its operands.
pub open spec fn op_str(op: BinOp) -> Seq<char> {
    match op {
        BinOp::Plus => seq![' ', '+', ' '],
        BinOp::Minus => seq![' ', '-', ' '],
        BinOp::Star => seq![' ', '*', ' '],
        BinOp::Slash => seq![' ', '/', ' '],
        BinOp::Pow => seq!['*', '*'],
    }
}

/// The text that a tree renders to, given the function `nf` from a number's
/// bit pattern to its text: binary nodes render flat (no parentheses of their
/// own), a group renders its parentheses, a negation its minus sign.
pub open spec fn spec_expr_string(e: ExprS, nf: spec_fn(u64) -> Seq<char>) -> Seq<char>
    decreases e,
{
    match e {
        ExprS::Binary(l, op, r) => spec_expr_string(*l, nf) + op_str(op) + spec_expr_string(*r, nf),
        ExprS::Unary(_, inner) => seq!['-'] + spec_expr_string(*inner, nf),
        ExprS::Group(inner) => seq!['('] + spec_expr_string(*inner, nf) + seq![')'],
        ExprS::Id(name) => name,
        ExprS::Num(n) => nf(n),
    }
}

/// The text that an equation renders to: its left side, ` = `, its right
/// side.
pub open spec fn spec_equation_string(eq: EquationS, nf: spec_fn(u64) -> Seq<char>) -> Seq<char> {
    spec_expr_string(eq.left, nf) + seq![' ', '=', ' '] + spec_expr_string(eq.right, nf)
}

/// Renders a tree as text, numbers through the given closure. The result is
/// exactly `spec_expr_string` of the tree.
pub fn expr_to_string<F: Fn(u64) -> String>(expr: &Expr, fmt: &F) -> (s: String)
    requires
        fmt_wf(*fmt),
    ensures
        s@ == spec_expr_string(expr@, fmt_fn(*fmt)),
    decreases expr,
{
    broadcast use vstd::string::group_string_axioms;

    match expr {
        Expr::Binary(l, op, r) => {
            let mut s = expr_to_string(&**l, fmt);
            let mid = match op {
                BinOp::Plus => " + ",
                BinOp::Minus => " - ",
                BinOp::Star => " * ",
                BinOp::Slash => " / ",
                BinOp::Pow => "**",
            };
            proof {
                reveal_strlit(" + ");
                reveal_strlit(" - ");
                reveal_strlit(" * ");
                reveal_strlit(" / ");
                reveal_strlit("**");
                assert(mid@ =~= op_str(*op));
            }
            s.append(mid);
            let rs = expr_to_string(&**r, fmt);
            s.append(rs.as_str());
            s
        },
        Expr::Unary(_, inner) => {
            let mut s = String::from_str("-");
            proof {
                reveal_strlit("-");
                assert(s@ =~= seq!['-']);
            }
            let is = expr_to_string(&**inner, fmt);
            s.append(is.as_str());
            s
        },
        Expr::Group(inner) => {
            let mut s = String::from_str("(");
            proof {
                reveal_strlit("(");
                reveal_strlit(")");
                assert(s@ =~= seq!['(']);
                assert(")"@ =~= seq![')']);
            }
            let is = expr_to_string(&**inner, fmt);
            s.append(is.as_str());
            s.append(")");
            proof {
                assert(s@ =~= seq!['('] + spec_expr_string((**inner)@, fmt_fn(*fmt)) + seq![')']);
            }
            s
        },
        Expr::Id(name) => name.clone(),
        Expr::Num(n) => apply_fmt(fmt, *n),
    }
}

/// Renders an equation as `left = right`, numbers through the given closure.
/// This is the fallible core of the original "solve and print" convenience:
/// the caller decides what to do with the text or with a parse failure.
pub fn equation_to_string<F: Fn(u64) -> String>(eq: &Equation, fmt: &F) -> (s: String)
    requires
        fmt_wf(*fmt),
    ensures
        s@ == spec_equation_string(eq@, fmt_fn(*fmt)),
{
    broadcast use vstd::string::group_string_axioms;

    let mut s = expr_to_string(&eq.left, fmt);
    proof {
        reveal_strlit(" = ");
        assert(" = "@ =~= seq![' ', '=', ' ']);
    }
    s.append(" = ");
    let rs = expr_to_string(&eq.right, fmt);
    s.append(rs.as_str());
    s
}

} // verus!
