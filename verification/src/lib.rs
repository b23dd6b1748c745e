//! A small algebra pipeline: an equation in the two variables `x` and `y` is
//! lexed into tokens, parsed into an immutable equation of two expression
//! trees, and evaluated over a bounded two-dimensional grid to collect the
//! points that satisfy it.
//!
//! Numeric values are IEEE 754 double-precision numbers, carried everywhere as
//! their bit patterns (`u64`). The library itself never computes with floating
//! point: the caller supplies the arithmetic as closures (one that reads a
//! numeric literal, one that applies an operator), and every contract speaks
//! of whatever those closures return. The equality test between the two sides
//! of an equation is bit-for-bit equality of the patterns.
use vstd::prelude::*;

mod eval;
mod parser;
mod scanner;
mod search;

pub use search::deep_diags;
pub use search::solution_points;
pub use search::spec_search_diags;
pub use search::spec_solution_points;
pub use search::Point;

pub use eval::equal;
pub use eval::eval;
pub use eval::has_unknown_id;
pub use eval::is_x_name;
pub use eval::is_y_name;
pub use eval::lemma_eval_err_iff_unknown_id;
pub use eval::lemma_oracle_bit_equality;
pub use eval::ops_fn;
pub use eval::ops_wf;
pub use eval::spec_eval;
pub use eval::spec_oracle;
pub use eval::EvalErrS;
pub use eval::EvalError;
pub use eval::FloatOp;
pub use parser::equation_to_string;
pub use parser::expr_to_string;
pub use parser::fmt_fn;
pub use parser::fmt_wf;
pub use parser::parse;
pub use parser::spec_equation_string;
pub use parser::spec_expr_string;
pub use parser::spec_expression;
pub use parser::spec_parse;
pub use parser::tok_at;
pub use parser::BinOp;
pub use parser::Equation;
pub use parser::EquationS;
pub use parser::Expr;
pub use parser::ExprS;
pub use parser::ParseErrS;
pub use parser::ParseError;
pub use parser::UnOp;
pub use scanner::deep_toks;
pub use scanner::num_fn;
pub use scanner::num_wf;
pub use scanner::spec_diags;
pub use scanner::spec_tokens;
pub use scanner::Scanner;
pub use scanner::Token;
pub use scanner::TokenS;

verus! {

/// The whole pipeline on one input text: lex it, parse the tokens, and sweep
/// the grid of the given sample coordinates (bit patterns; row-major: for
/// each `x` of `xs`, every `y` of `ys`). Returns the satisfying points in
/// scan order together with the diagnostics of the cells whose evaluation
/// failed — or the parse error, on which no search is attempted. Parsing a
/// malformed input is an error result, never a panic.
pub fn evaluate<FN: Fn(String) -> u64, FO: Fn(FloatOp, u64, u64) -> u64>(
    input: &str,
    xs: &Vec<u64>,
    ys: &Vec<u64>,
    num_of: &FN,
    ops: &FO,
) -> (r: Result<(Vec<Point>, Vec<EvalError>), ParseError>)
    requires
        num_wf(*num_of),
        ops_wf(*ops),
    ensures
        ({
            let toks = spec_tokens(input@, 0, num_fn(*num_of));
            match r {
                Ok((points, diags)) => {
                    &&& spec_parse(toks) matches Ok(eq)
                    &&& points@ == spec_solution_points(
                        spec_parse(toks)->Ok_0,
                        xs@,
                        ys@,
                        ops_fn(*ops),
                    )
                    &&& deep_diags(diags@) == spec_search_diags(
                        spec_parse(toks)->Ok_0,
                        xs@,
                        ys@,
                        ops_fn(*ops),
                    )
                },
                Err(e) => spec_parse(toks) == Err::<EquationS, ParseErrS>(e@),
            }
        }),
{
    let mut sc = Scanner::new(input);
    sc.tokenize(num_of);
    proof {
        assert(deep_toks(sc.tokens@) =~= Seq::<TokenS>::empty() + spec_tokens(
            input@,
            0,
            num_fn(*num_of),
        ));
        assert(Seq::<TokenS>::empty() + spec_tokens(input@, 0, num_fn(*num_of)) =~= spec_tokens(
            input@,
            0,
            num_fn(*num_of),
        ));
    }
    match parse(&sc.tokens) {
        Ok(eq) => Ok(solution_points(&eq, xs, ys, ops)),
        Err(e) => Err(e),
    }
}

} // verus!
