//! The lexer: a single left-to-right scan that turns the input text into the
//! ordered token sequence `spec_tokens` describes. Characters that fit no rule
//! are recorded as recoverable diagnostics and skipped; scanning never stops
//! early. Numeric literals are handed, verbatim, to a caller-supplied closure
//! that produces the bit pattern of their double-precision value.
use vstd::prelude::*;
use vstd::std_specs::cmp::PartialEqSpec;

verus! {

/// An atomic lexical unit of the input text. A number carries the bit pattern
/// of its double-precision value; an identifier carries its name verbatim.
#[derive(Debug)]
pub enum Token {
    OpenParen,
    CloseParen,
    Id(String),
    Num(u64),
    Plus,
    Minus,
    Star,
    Slash,
    Pow,
    Equal,
}

/// The mathematical value of a [`Token`]: the identifier name becomes its
/// character sequence.
pub ghost enum TokenS {
    OpenParen,
    CloseParen,
    Id(Seq<char>),
    Num(u64),
    Plus,
    Minus,
    Star,
    Slash,
    Pow,
    Equal,
}

impl DeepView for Token {
    type V = TokenS;

    open spec fn deep_view(&self) -> TokenS {
        match self {
            Token::OpenParen => TokenS::OpenParen,
            Token::CloseParen => TokenS::CloseParen,
            Token::Id(s) => TokenS::Id(s@),
            Token::Num(n) => TokenS::Num(*n),
            Token::Plus => TokenS::Plus,
            Token::Minus => TokenS::Minus,
            Token::Star => TokenS::Star,
            Token::Slash => TokenS::Slash,
            Token::Pow => TokenS::Pow,
            Token::Equal => TokenS::Equal,
        }
    }
}

impl Clone for Token {
    /// The copy has the same value as the original.
    fn clone(&self) -> (res: Token)
        ensures
            res.deep_view() == self.deep_view(),
    {
        match self {
            Token::OpenParen => Token::OpenParen,
            Token::CloseParen => Token::CloseParen,
            Token::Id(s) => Token::Id(s.clone()),
            Token::Num(n) => Token::Num(*n),
            Token::Plus => Token::Plus,
            Token::Minus => Token::Minus,
            Token::Star => Token::Star,
            Token::Slash => Token::Slash,
            Token::Pow => Token::Pow,
            Token::Equal => Token::Equal,
        }
    }
}

impl PartialEq for Token {
    /// Tokens are equal when they are the same variant with the same payload;
    /// identifier names compare character for character (case-sensitively).
    fn eq(&self, other: &Token) -> bool {
        match (self, other) {
            (Token::OpenParen, Token::OpenParen) => true,
            (Token::CloseParen, Token::CloseParen) => true,
            (Token::Id(a), Token::Id(b)) => *a == *b,
            (Token::Num(a), Token::Num(b)) => *a == *b,
            (Token::Plus, Token::Plus) => true,
            (Token::Minus, Token::Minus) => true,
            (Token::Star, Token::Star) => true,
            (Token::Slash, Token::Slash) => true,
            (Token::Pow, Token::Pow) => true,
            (Token::Equal, Token::Equal) => true,
            _ => false,
        }
    }
}

impl vstd::std_specs::cmp::PartialEqSpecImpl for Token {
    open spec fn obeys_eq_spec() -> bool {
        true
    }

    open spec fn eq_spec(&self, other: &Token) -> bool {
        match (self, other) {
            (Token::OpenParen, Token::OpenParen) => true,
            (Token::CloseParen, Token::CloseParen) => true,
            (Token::Id(a), Token::Id(b)) => a@ == b@,
            (Token::Num(a), Token::Num(b)) => a == b,
            (Token::Plus, Token::Plus) => true,
            (Token::Minus, Token::Minus) => true,
            (Token::Star, Token::Star) => true,
            (Token::Slash, Token::Slash) => true,
            (Token::Pow, Token::Pow) => true,
            (Token::Equal, Token::Equal) => true,
            _ => false,
        }
    }
}

/// Token equality (the hand-written [`PartialEq`]) agrees with equality of
/// token views.
pub proof fn lemma_token_eq_view(a: &Token, b: &Token)
    ensures
        a.eq_spec(b) <==> (a.deep_view() == b.deep_view()),
{
}

/// Whitespace is skipped without emitting a token.
pub open spec fn is_space_char(c: char) -> bool {
    c == ' ' || c == '\t' || c == '\n'
}

/// The characters that start and continue a numeric literal.
pub open spec fn is_digit_char(c: char) -> bool {
    '0' <= c && c <= '9'
}

/// The characters that start and continue an identifier.
pub open spec fn is_ident_char(c: char) -> bool {
    ('a' <= c && c <= 'z') || ('A' <= c && c <= 'Z') || c == '_'
}

/// Length of the run of characters satisfying `p` that starts at `i`.
pub open spec fn run_len(s: Seq<char>, p: spec_fn(char) -> bool, i: int) -> int
    decreases s.len() - i,
{
    if i < 0 || i >= s.len() || !p(s[i]) {
        0
    } else {
        1 + run_len(s, p, i + 1)
    }
}

/// The digit predicate, as a single named value so that every use of
/// `run_len` over digits speaks of the same function.
pub open spec fn digit_p() -> spec_fn(char) -> bool {
    |c: char| is_digit_char(c)
}

/// The identifier-character predicate, as a single named value.
pub open spec fn ident_p() -> spec_fn(char) -> bool {
    |c: char| is_ident_char(c)
}

/// Length of the numeric literal that starts at `i`: a run of digits,
/// optionally followed by one `.` and a further (possibly empty) run of
/// digits.
pub open spec fn number_len(s: Seq<char>, i: int) -> int {
    let d = run_len(s, digit_p(), i);
    if i + d < s.len() && s[i + d] == '.' {
        d + 1 + run_len(s, digit_p(), i + d + 1)
    } else {
        d
    }
}

proof fn lemma_run_len_bounds(s: Seq<char>, p: spec_fn(char) -> bool, i: int)
    requires
        0 <= i <= s.len(),
    ensures
        0 <= run_len(s, p, i) <= s.len() - i,
        i < s.len() && p(s[i]) ==> run_len(s, p, i) >= 1,
    decreases s.len() - i,
{
    if i < s.len() && p(s[i]) {
        lemma_run_len_bounds(s, p, i + 1);
    }
}

/// A run that ends exactly at `j` (everything in `[i, j)` satisfies `p`, and
/// `j` is the end of the text or fails `p`) has length `j - i`.
proof fn lemma_run_len_exact(s: Seq<char>, p: spec_fn(char) -> bool, i: int, j: int)
    requires
        0 <= i <= j <= s.len(),
        forall|k: int| i <= k < j ==> p(#[trigger] s[k]),
        j == s.len() || !p(s[j]),
    ensures
        run_len(s, p, i) == j - i,
    decreases j - i,
{
    if i < j {
        lemma_run_len_exact(s, p, i + 1, j);
    }
}

proof fn lemma_number_len_bounds(s: Seq<char>, i: int)
    requires
        0 <= i < s.len(),
        is_digit_char(s[i]),
    ensures
        1 <= number_len(s, i) <= s.len() - i,
{
    lemma_run_len_bounds(s, digit_p(), i);
    let d = run_len(s, digit_p(), i);
    if i + d < s.len() && s[i + d] == '.' {
        lemma_run_len_bounds(s, digit_p(), i + d + 1);
    }
}

/// The character of `s` at `i`, if `i` is in range.
pub open spec fn char_at(s: Seq<char>, i: int) -> Option<char> {
    if 0 <= i < s.len() {
        Some(s[i])
    } else {
        None
    }
}

/// The token sequence that scanning `s` from position `i` produces, given the
/// function `nfn` from a numeric literal to the bit pattern of its value.
/// The rules, in priority order: single-character operators and parentheses;
/// `**` before a lone `*`; whitespace skipped; a digit starts a numeric
/// literal of `number_len` characters; a letter or underscore starts an
/// identifier; anything else is skipped (see `spec_diags`).
pub open spec fn spec_tokens(s: Seq<char>, i: int, nfn: spec_fn(Seq<char>) -> u64) -> Seq<TokenS>
    decreases s.len() - i,
    via spec_tokens_dec
{
    if i < 0 || i >= s.len() {
        Seq::empty()
    } else {
        let c = s[i];
        if c == '+' {
            seq![TokenS::Plus] + spec_tokens(s, i + 1, nfn)
        } else if c == '-' {
            seq![TokenS::Minus] + spec_tokens(s, i + 1, nfn)
        } else if c == '/' {
            seq![TokenS::Slash] + spec_tokens(s, i + 1, nfn)
        } else if c == '*' {
            if char_at(s, i + 1) == Some('*') {
                seq![TokenS::Pow] + spec_tokens(s, i + 2, nfn)
            } else {
                seq![TokenS::Star] + spec_tokens(s, i + 1, nfn)
            }
        } else if c == '=' {
            seq![TokenS::Equal] + spec_tokens(s, i + 1, nfn)
        } else if c == '(' {
            seq![TokenS::OpenParen] + spec_tokens(s, i + 1, nfn)
        } else if c == ')' {
            seq![TokenS::CloseParen] + spec_tokens(s, i + 1, nfn)
        } else if is_space_char(c) {
            spec_tokens(s, i + 1, nfn)
        } else if is_digit_char(c) {
            let n = number_len(s, i);
            seq![TokenS::Num(nfn(s.subrange(i, i + n)))] + spec_tokens(s, i + n, nfn)
        } else if is_ident_char(c) {
            let n = run_len(s, ident_p(), i);
            seq![TokenS::Id(s.subrange(i, i + n))] + spec_tokens(s, i + n, nfn)
        } else {
            spec_tokens(s, i + 1, nfn)
        }
    }
}

#[via_fn]
proof fn spec_tokens_dec(s: Seq<char>, i: int, nfn: spec_fn(Seq<char>) -> u64) {
    if 0 <= i < s.len() {
        if is_digit_char(s[i]) {
            lemma_number_len_bounds(s, i);
        } else if is_ident_char(s[i]) {
            lemma_run_len_bounds(s, ident_p(), i);
        }
    }
}

/// The characters that scanning `s` from position `i` reports as unexpected,
/// in scan order: those that fit no lexical rule.
pub open spec fn spec_diags(s: Seq<char>, i: int) -> Seq<char>
    decreases s.len() - i,
    via spec_diags_dec
{
    if i < 0 || i >= s.len() {
        Seq::empty()
    } else {
        let c = s[i];
        if c == '+' || c == '-' || c == '/' || c == '=' || c == '(' || c == ')' {
            spec_diags(s, i + 1)
        } else if c == '*' {
            if char_at(s, i + 1) == Some('*') {
                spec_diags(s, i + 2)
            } else {
                spec_diags(s, i + 1)
            }
        } else if is_space_char(c) {
            spec_diags(s, i + 1)
        } else if is_digit_char(c) {
            spec_diags(s, i + number_len(s, i))
        } else if is_ident_char(c) {
            spec_diags(s, i + run_len(s, ident_p(), i))
        } else {
            seq![c] + spec_diags(s, i + 1)
        }
    }
}

#[via_fn]
proof fn spec_diags_dec(s: Seq<char>, i: int) {
    if 0 <= i < s.len() {
        if is_digit_char(s[i]) {
            lemma_number_len_bounds(s, i);
        } else if is_ident_char(s[i]) {
            lemma_run_len_bounds(s, ident_p(), i);
        }
    }
}

/// What the library asks of the literal-reading closure: it accepts every
/// literal, and the value it returns depends only on the literal's characters.
pub open spec fn num_wf<F: Fn(String) -> u64>(f: F) -> bool {
    &&& forall|s: String| #[trigger] call_requires(f, (s,))
    &&& forall|s1: String, s2: String, r1: u64, r2: u64|
        s1@ == s2@ && #[trigger] call_ensures(f, (s1,), r1) && #[trigger] call_ensures(f, (s2,), r2)
            ==> r1 == r2
}

/// The function from a literal's characters to the bit pattern that the
/// closure `f` returns for it (well defined whenever `num_wf(f)` holds and
/// `f` has been applied to the literal).
pub open spec fn num_fn<F: Fn(String) -> u64>(f: F) -> spec_fn(Seq<char>) -> u64 {
    |s: Seq<char>|
        (choose|r: u64, ls: String| ls@ == s && #[trigger] call_ensures(f, (ls,), r)).0
}

/// The view of a token sequence.
pub open spec fn deep_toks(ts: Seq<Token>) -> Seq<TokenS> {
    ts.map_values(|t: Token| t.deep_view())
}

proof fn lemma_deep_toks_push(ts: Seq<Token>, t: Token)
    ensures
        deep_toks(ts.push(t)) == deep_toks(ts).push(t.deep_view()),
{
    assert(deep_toks(ts.push(t)) =~= deep_toks(ts).push(t.deep_view()));
}

proof fn lemma_push_concat<A>(a: Seq<A>, x: A, b: Seq<A>)
    ensures
        a.push(x) + b == a + (seq![x] + b),
{
    assert(a.push(x) + b =~= a + (seq![x] + b));
}

/// The cursor-driven lexer. `tokens` and `diagnostics` only ever grow: no
/// token is removed or reordered after being appended.
pub struct Scanner {
    pub input: String,
    pub start: usize,
    pub current: usize,
    pub tokens: Vec<Token>,
    pub diagnostics: Vec<char>,
}

impl Scanner {
    pub fn new(input: &str) -> (s: Self)
        ensures
            s.input@ == input@,
            s.start == 0,
            s.current == 0,
            s.tokens@ == Seq::<Token>::empty(),
            s.diagnostics@ == Seq::<char>::empty(),
    {
        Self { input: input.to_owned(), start: 0, current: 0, tokens: Vec::new(), diagnostics: Vec::new() }
    }

    /// The character `n` places past the cursor, if any.
    fn peek(&self, n: usize) -> (c: Option<char>)
        ensures
            c == char_at(self.input@, self.current + n),
            c is Some ==> self.input@.len() <= usize::MAX,
    {
        let len = self.input.as_str().unicode_len();
        if self.current < len && n < len - self.current {
            Some(self.input.as_str().get_char(self.current + n))
        } else {
            None
        }
    }

    /// Advances the cursor one character.
    fn next(&mut self)
        requires
            old(self).current < old(self).input@.len(),
            old(self).input@.len() <= usize::MAX,
        ensures
            final(self).current == old(self).current + 1,
            final(self).input == old(self).input,
            final(self).start == old(self).start,
            final(self).tokens == old(self).tokens,
            final(self).diagnostics == old(self).diagnostics,
    {
        self.current = self.current + 1;
    }

    /// Emits `token` and consumes one character.
    fn add_token(&mut self, token: Token)
        requires
            old(self).current < old(self).input@.len(),
            old(self).input@.len() <= usize::MAX,
        ensures
            final(self).current == old(self).current + 1,
            final(self).input == old(self).input,
            final(self).start == old(self).start,
            final(self).diagnostics == old(self).diagnostics,
            final(self).tokens@ == old(self).tokens@.push(token),
    {
        self.tokens.push(token);
        self.next();
    }

    /// Emits `alt_token` and consumes two characters when the character after
    /// the cursor is `alt_char`; otherwise emits `token` and consumes one.
    fn add_token_or(&mut self, token: Token, alt_char: char, alt_token: Token)
        requires
            old(self).current < old(self).input@.len(),
            old(self).input@.len() <= usize::MAX,
        ensures
            final(self).input == old(self).input,
            final(self).start == old(self).start,
            final(self).diagnostics == old(self).diagnostics,
            if char_at(old(self).input@, old(self).current + 1) == Some(alt_char) {
                final(self).tokens@ == old(self).tokens@.push(alt_token) && final(self).current
                    == old(self).current + 2
            } else {
                final(self).tokens@ == old(self).tokens@.push(token) && final(self).current
                    == old(self).current + 1
            },
    {
        let p = self.peek(1);
        if let Some(c) = p {
            if c == alt_char {
                self.tokens.push(alt_token);
                self.next();
                self.next();
                return;
            }
        }
        self.tokens.push(token);
        self.next();
    }

    /// Whether the cursor stands on a digit.
    fn on_digit(&self) -> (b: bool)
        ensures
            b == (self.current < self.input@.len() && is_digit_char(
                self.input@[self.current as int],
            )),
            b ==> self.input@.len() <= usize::MAX,
    {
        match self.peek(0) {
            Some(c) => '0' <= c && c <= '9',
            None => false,
        }
    }

    /// Whether the cursor stands on an identifier character.
    fn on_ident_char(&self) -> (b: bool)
        ensures
            b == (self.current < self.input@.len() && is_ident_char(
                self.input@[self.current as int],
            )),
            b ==> self.input@.len() <= usize::MAX,
    {
        match self.peek(0) {
            Some(c) => ('a' <= c && c <= 'z') || ('A' <= c && c <= 'Z') || c == '_',
            None => false,
        }
    }

    /// Consumes the run of digits at the cursor.
    fn eat_digits(&mut self)
        requires
            old(self).current <= old(self).input@.len(),
        ensures
            final(self).input == old(self).input,
            final(self).start == old(self).start,
            final(self).tokens == old(self).tokens,
            final(self).diagnostics == old(self).diagnostics,
            final(self).current == old(self).current + run_len(
                old(self).input@,
                digit_p(),
                old(self).current as int,
            ),
    {
        let ghost c0 = self.current as int;
        let ghost s = self.input@;
        while self.on_digit()
            invariant
                self.input == old(self).input,
                self.start == old(self).start,
                self.tokens == old(self).tokens,
                self.diagnostics == old(self).diagnostics,
                c0 <= self.current <= s.len(),
                s == self.input@,
                forall|k: int| c0 <= k < self.current ==> is_digit_char(#[trigger] s[k]),
            decreases s.len() - self.current,
        {
            self.next();
        }
        proof {
            lemma_run_len_exact(s, digit_p(), c0, self.current as int);
        }
    }

    /// Scans the numeric literal at the cursor (a digit run, optionally one
    /// `.` and a further digit run), reads its value through `num_of`, and
    /// emits the number token.
    fn add_number<F: Fn(String) -> u64>(&mut self, num_of: &F)
        requires
            num_wf(*num_of),
            old(self).start == old(self).current,
            old(self).current < old(self).input@.len(),
            is_digit_char(old(self).input@[old(self).current as int]),
        ensures
            final(self).input == old(self).input,
            final(self).start == old(self).start,
            final(self).diagnostics == old(self).diagnostics,
            final(self).current == old(self).current + number_len(
                old(self).input@,
                old(self).current as int,
            ),
            final(self).tokens@ == old(self).tokens@.push(
                Token::Num(
                    num_fn(*num_of)(
                        old(self).input@.subrange(
                            old(self).current as int,
                            old(self).current + number_len(
                                old(self).input@,
                                old(self).current as int,
                            ),
                        ),
                    ),
                ),
            ),
    {
        let ghost s = self.input@;
        let ghost c0 = self.current as int;
        self.eat_digits();
        let p = self.peek(0);
        if let Some(c) = p {
            if c == '.' {
                self.next();
                self.eat_digits();
            }
        }
        proof {
            lemma_number_len_bounds(s, c0);
            assert(self.current - c0 == number_len(s, c0));
        }
        let lit = self.input.as_str().substring_char(self.start, self.current);
        let lit = lit.to_owned();
        let ghost glit = lit;
        let v = (*num_of)(lit);
        proof {
            let (r0, ls0) = choose|r0: u64, ls0: String|
                ls0@ == glit@ && #[trigger] call_ensures(*num_of, (ls0,), r0);
            assert(glit@ == glit@ && call_ensures(*num_of, (glit,), v));
            assert(r0 == v);
        }
        self.tokens.push(Token::Num(v));
    }

    /// Scans the identifier at the cursor and emits its token, the name kept
    /// verbatim.
    fn add_identifier(&mut self)
        requires
            old(self).start == old(self).current,
            old(self).current < old(self).input@.len(),
            is_ident_char(old(self).input@[old(self).current as int]),
        ensures
            final(self).input == old(self).input,
            final(self).start == old(self).start,
            final(self).diagnostics == old(self).diagnostics,
            final(self).current == old(self).current + run_len(
                old(self).input@,
                ident_p(),
                old(self).current as int,
            ),
            deep_toks(final(self).tokens@) == deep_toks(old(self).tokens@).push(
                TokenS::Id(
                    old(self).input@.subrange(
                        old(self).current as int,
                        old(self).current + run_len(
                            old(self).input@,
                            ident_p(),
                            old(self).current as int,
                        ),
                    ),
                ),
            ),
    {
        let ghost s = self.input@;
        let ghost c0 = self.current as int;
        while self.on_ident_char()
            invariant
                self.input == old(self).input,
                self.start == old(self).start,
                self.tokens == old(self).tokens,
                self.diagnostics == old(self).diagnostics,
                c0 <= self.current <= s.len(),
                s == self.input@,
                forall|k: int| c0 <= k < self.current ==> is_ident_char(#[trigger] s[k]),
            decreases s.len() - self.current,
        {
            self.next();
        }
        proof {
            lemma_run_len_exact(s, ident_p(), c0, self.current as int);
        }
        let name = self.input.as_str().substring_char(self.start, self.current);
        let name = name.to_owned();
        self.tokens.push(Token::Id(name));
        proof {
            assert(deep_toks(self.tokens@) =~= deep_toks(old(self).tokens@).push(
                TokenS::Id(s.subrange(c0, self.current as int)),
            ));
        }
    }

    /// Whether the cursor has reached the end of the input.
    fn at_end(&self) -> (b: bool)
        ensures
            b == (self.current >= self.input@.len()),
            self.input@.len() <= usize::MAX,
    {
        let len = self.input.as_str().unicode_len();
        self.current >= len
    }

    /// The single left-to-right scan: lexes the whole remaining input,
    /// appending to `tokens` exactly the sequence `spec_tokens` describes and
    /// to `diagnostics` the unexpected characters `spec_diags` describes.
    /// Tokens already present are kept in place: nothing is removed or
    /// reordered.
    pub fn tokenize<F: Fn(String) -> u64>(&mut self, num_of: &F)
        requires
            num_wf(*num_of),
        ensures
            final(self).input == old(self).input,
            old(self).current <= final(self).current,
            old(self).current <= old(self).input@.len() ==> final(self).current
                == old(self).input@.len(),
            deep_toks(final(self).tokens@) == deep_toks(old(self).tokens@) + spec_tokens(
                old(self).input@,
                old(self).current as int,
                num_fn(*num_of),
            ),
            final(self).diagnostics@ == old(self).diagnostics@ + spec_diags(
                old(self).input@,
                old(self).current as int,
            ),
    {
        let ghost s = self.input@;
        let ghost c0 = self.current as int;
        let ghost nf = num_fn(*num_of);
        while !self.at_end()
            invariant
                num_wf(*num_of),
                self.input == old(self).input,
                s == self.input@,
                c0 == old(self).current,
                nf == num_fn(*num_of),
                c0 <= self.current,
                self.current <= s.len() || self.current == c0,
                deep_toks(self.tokens@) + spec_tokens(s, self.current as int, nf) == deep_toks(
                    old(self).tokens@,
                ) + spec_tokens(s, c0, nf),
                self.diagnostics@ + spec_diags(s, self.current as int) == old(self).diagnostics@
                    + spec_diags(s, c0),
            decreases s.len() - self.current,
        {
            self.start = self.current;
            let ghost cur = self.current as int;
            let ghost toks_pre = self.tokens@;
            let ghost diags_pre = self.diagnostics@;
            let p = self.peek(0);
            if let Some(c) = p {
                if c == '+' {
                    self.add_token(Token::Plus);
                    proof {
                        lemma_deep_toks_push(toks_pre, Token::Plus);
                        lemma_push_concat(deep_toks(toks_pre), TokenS::Plus, spec_tokens(s, cur + 1, nf));
                    }
                } else if c == '-' {
                    self.add_token(Token::Minus);
                    proof {
                        lemma_deep_toks_push(toks_pre, Token::Minus);
                        lemma_push_concat(deep_toks(toks_pre), TokenS::Minus, spec_tokens(s, cur + 1, nf));
                    }
                } else if c == '/' {
                    self.add_token(Token::Slash);
                    proof {
                        lemma_deep_toks_push(toks_pre, Token::Slash);
                        lemma_push_concat(deep_toks(toks_pre), TokenS::Slash, spec_tokens(s, cur + 1, nf));
                    }
                } else if c == '*' {
                    self.add_token_or(Token::Star, '*', Token::Pow);
                    proof {
                        if char_at(s, cur + 1) == Some('*') {
                            lemma_deep_toks_push(toks_pre, Token::Pow);
                            lemma_push_concat(deep_toks(toks_pre), TokenS::Pow, spec_tokens(s, cur + 2, nf));
                        } else {
                            lemma_deep_toks_push(toks_pre, Token::Star);
                            lemma_push_concat(deep_toks(toks_pre), TokenS::Star, spec_tokens(s, cur + 1, nf));
                        }
                    }
                } else if c == '=' {
                    self.add_token(Token::Equal);
                    proof {
                        lemma_deep_toks_push(toks_pre, Token::Equal);
                        lemma_push_concat(deep_toks(toks_pre), TokenS::Equal, spec_tokens(s, cur + 1, nf));
                    }
                } else if c == '(' {
                    self.add_token(Token::OpenParen);
                    proof {
                        lemma_deep_toks_push(toks_pre, Token::OpenParen);
                        lemma_push_concat(deep_toks(toks_pre), TokenS::OpenParen, spec_tokens(s, cur + 1, nf));
                    }
                } else if c == ')' {
                    self.add_token(Token::CloseParen);
                    proof {
                        lemma_deep_toks_push(toks_pre, Token::CloseParen);
                        lemma_push_concat(deep_toks(toks_pre), TokenS::CloseParen, spec_tokens(s, cur + 1, nf));
                    }
                } else if c == ' ' || c == '\t' || c == '\n' {
                    self.next();
                } else if '0' <= c && c <= '9' {
                    self.add_number(num_of);
                    proof {
                        lemma_number_len_bounds(s, cur);
                        let n = number_len(s, cur);
                        lemma_deep_toks_push(toks_pre, Token::Num(nf(s.subrange(cur, cur + n))));
                        lemma_push_concat(
                            deep_toks(toks_pre),
                            TokenS::Num(nf(s.subrange(cur, cur + n))),
                            spec_tokens(s, cur + n, nf),
                        );
                    }
                } else if ('a' <= c && c <= 'z') || ('A' <= c && c <= 'Z') || c == '_' {
                    self.add_identifier();
                    proof {
                        lemma_run_len_bounds(s, ident_p(), cur);
                        let n = run_len(s, ident_p(), cur);
                        lemma_push_concat(
                            deep_toks(toks_pre),
                            TokenS::Id(s.subrange(cur, cur + n)),
                            spec_tokens(s, cur + n, nf),
                        );
                    }
                } else {
                    self.diagnostics.push(c);
                    self.next();
                    proof {
                        lemma_push_concat(diags_pre, c, spec_diags(s, cur + 1));
                    }
                }
            } else {
                proof {
                    assert(false);
                }
            }
        }
        proof {
            assert(spec_tokens(s, self.current as int, nf) =~= Seq::<TokenS>::empty());
            assert(spec_diags(s, self.current as int) =~= Seq::<char>::empty());
            assert(deep_toks(self.tokens@) + Seq::<TokenS>::empty() =~= deep_toks(self.tokens@));
            assert(self.diagnostics@ + Seq::<char>::empty() =~= self.diagnostics@);
        }
    }
}

} // verus!
