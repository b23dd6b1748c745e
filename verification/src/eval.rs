//! The evaluator and the equality oracle. A tree is folded recursively to the
//! bit pattern of its double-precision value; the arithmetic itself is the
//! caller's closure, handed one operation request at a time. The oracle
//! evaluates both sides of an equation and compares the two bit patterns for
//! bit-for-bit identity (no tolerance).
use vstd::prelude::*;

use crate::parser::BinOp;
use crate::parser::Equation;
use crate::parser::EquationS;
use crate::parser::Expr;
use crate::parser::ExprS;

verus! {

/// An evaluation error. The only one is an identifier other than `x`/`X` and
/// `y`/`Y`: the tree shape rules out every other failure. It is fatal to the
/// single evaluation only, never to a surrounding grid sweep.
#[derive(Debug)]
pub enum EvalError {
    UnknownIdentifier(String),
}

/// The mathematical value of an [`EvalError`].
pub ghost enum EvalErrS {
    UnknownIdentifier(Seq<char>),
}

impl View for EvalError {
    type V = EvalErrS;

    open spec fn view(&self) -> EvalErrS {
        match self {
            EvalError::UnknownIdentifier(s) => EvalErrS::UnknownIdentifier(s@),
        }
    }
}

impl Clone for EvalError {
    /// The copy carries the same identifier name.
    fn clone(&self) -> (res: EvalError)
        ensures
            res@ == self@,
    {
        match self {
            EvalError::UnknownIdentifier(s) => EvalError::UnknownIdentifier(s.clone()),
        }
    }
}

impl PartialEq for EvalError {
    /// Errors are equal when they name the same identifier.
    fn eq(&self, other: &EvalError) -> bool {
        match (self, other) {
            (EvalError::UnknownIdentifier(a), EvalError::UnknownIdentifier(b)) => *a == *b,
        }
    }
}

impl vstd::std_specs::cmp::PartialEqSpecImpl for EvalError {
    open spec fn obeys_eq_spec() -> bool {
        true
    }

    open spec fn eq_spec(&self, other: &EvalError) -> bool {
        self@ == other@
    }
}

/// One request to the arithmetic closure: apply this double-precision
/// operation to the values with these bit patterns (negation reads only the
/// first operand).
#[derive(Debug, Clone, Copy, PartialEq, Eq, Structural)]
pub enum FloatOp {
    Add,
    Sub,
    Mul,
    Div,
    Pow,
    Neg,
}

/// The arithmetic request for a binary operator.
pub open spec fn float_op_of(op: BinOp) -> FloatOp {
    match op {
        BinOp::Plus => FloatOp::Add,
        BinOp::Minus => FloatOp::Sub,
        BinOp::Star => FloatOp::Mul,
        BinOp::Slash => FloatOp::Div,
        BinOp::Pow => FloatOp::Pow,
    }
}

/// What the library asks of the arithmetic closure: it accepts every request,
/// and the value it returns depends only on the request — as the IEEE 754
/// operations it stands for do.
pub open spec fn ops_wf<F: Fn(FloatOp, u64, u64) -> u64>(f: F) -> bool {
    &&& forall|op: FloatOp, a: u64, b: u64| #[trigger] call_requires(f, (op, a, b))
    &&& forall|op: FloatOp, a: u64, b: u64, r1: u64, r2: u64|
        #[trigger] call_ensures(f, (op, a, b), r1) && #[trigger] call_ensures(f, (op, a, b), r2)
            ==> r1 == r2
}

/// The function from an operation request to the bit pattern that the closure
/// `f` returns for it (well defined whenever `ops_wf(f)` holds and `f` has
/// been applied to the request).
pub open spec fn ops_fn<F: Fn(FloatOp, u64, u64) -> u64>(f: F) -> spec_fn(
    FloatOp,
    u64,
    u64,
) -> u64 {
    |op: FloatOp, a: u64, b: u64| choose|r: u64| #[trigger] call_ensures(f, (op, a, b), r)
}

/// Applies one operation through the closure and names the result.
fn apply_op<F: Fn(FloatOp, u64, u64) -> u64>(ops: &F, op: FloatOp, a: u64, b: u64) -> (r: u64)
    requires
        ops_wf(*ops),
    ensures
        r == ops_fn(*ops)(op, a, b),
{
    let r = (*ops)(op, a, b);
    proof {
        let r0 = choose|r0: u64| #[trigger] call_ensures(*ops, (op, a, b), r0);
        assert(call_ensures(*ops, (op, a, b), r));
        assert(r0 == r);
    }
    r
}

/// Whether the name is the first variable's (`x` or `X`; the comparison is
/// case-insensitive for these two names only).
pub open spec fn is_x_name(name: Seq<char>) -> bool {
    name.len() == 1 && (name[0] == 'x' || name[0] == 'X')
}

/// Whether the name is the second variable's (`y` or `Y`).
pub open spec fn is_y_name(name: Seq<char>) -> bool {
    name.len() == 1 && (name[0] == 'y' || name[0] == 'Y')
}

/// What evaluating the tree at the point `(x, y)` yields, given the function
/// `ofn` from an operation request to its result: the number's own bits, the
/// binding for `x`/`y`, the operation's result for each node — or the error
/// naming the first (leftmost, depth-first) unknown identifier.
pub open spec fn spec_eval(
    e: ExprS,
    x: u64,
    y: u64,
    ofn: spec_fn(FloatOp, u64, u64) -> u64,
) -> Result<u64, EvalErrS>
    decreases e,
{
    match e {
        ExprS::Binary(l, op, r) => match spec_eval(*l, x, y, ofn) {
            Ok(lv) => match spec_eval(*r, x, y, ofn) {
                Ok(rv) => Ok(ofn(float_op_of(op), lv, rv)),
                Err(er) => Err(er),
            },
            Err(er) => Err(er),
        },
        ExprS::Unary(_, inner) => match spec_eval(*inner, x, y, ofn) {
            Ok(v) => Ok(ofn(FloatOp::Neg, v, 0)),
            Err(er) => Err(er),
        },
        ExprS::Group(inner) => spec_eval(*inner, x, y, ofn),
        ExprS::Id(name) => if is_x_name(name) {
            Ok(x)
        } else if is_y_name(name) {
            Ok(y)
        } else {
            Err(EvalErrS::UnknownIdentifier(name))
        },
        ExprS::Num(n) => Ok(n),
    }
}

/// The single character of `s`, if it has exactly one.
fn single_char(s: &String) -> (c: Option<char>)
    ensures
        match c {
            Some(ch) => s@.len() == 1 && s@[0] == ch,
            None => s@.len() != 1,
        },
{
    let len = s.as_str().unicode_len();
    if len == 1 {
        Some(s.as_str().get_char(0))
    } else {
        None
    }
}

/// Evaluates the tree at the point `(x, y)` (all values as bit patterns),
/// applying each operation through `ops`. The tree is only read: the same
/// tree can be evaluated at any number of points.
pub fn eval<F: Fn(FloatOp, u64, u64) -> u64>(e: &Expr, x: u64, y: u64, ops: &F) -> (r: Result<
    u64,
    EvalError,
>)
    requires
        ops_wf(*ops),
    ensures
        match r {
            Ok(v) => spec_eval(e@, x, y, ops_fn(*ops)) == Ok::<u64, EvalErrS>(v),
            Err(er) => spec_eval(e@, x, y, ops_fn(*ops)) == Err::<u64, EvalErrS>(er@),
        },
    decreases e,
{
    match e {
        Expr::Binary(l, op, r) => {
            let lv = match eval(&**l, x, y, ops) {
                Ok(v) => v,
                Err(er) => {
                    return Err(er);
                },
            };
            let rv = match eval(&**r, x, y, ops) {
                Ok(v) => v,
                Err(er) => {
                    return Err(er);
                },
            };
            let fop = match op {
                BinOp::Plus => FloatOp::Add,
                BinOp::Minus => FloatOp::Sub,
                BinOp::Star => FloatOp::Mul,
                BinOp::Slash => FloatOp::Div,
                BinOp::Pow => FloatOp::Pow,
            };
            Ok(apply_op(ops, fop, lv, rv))
        },
        Expr::Unary(_, inner) => {
            let v = match eval(&**inner, x, y, ops) {
                Ok(v) => v,
                Err(er) => {
                    return Err(er);
                },
            };
            Ok(apply_op(ops, FloatOp::Neg, v, 0))
        },
        Expr::Group(inner) => eval(&**inner, x, y, ops),
        Expr::Id(s) => match single_char(s) {
            Some(ch) => {
                if ch == 'x' || ch == 'X' {
                    Ok(x)
                } else if ch == 'y' || ch == 'Y' {
                    Ok(y)
                } else {
                    Err(EvalError::UnknownIdentifier(s.clone()))
                }
            },
            None => Err(EvalError::UnknownIdentifier(s.clone())),
        },
        Expr::Num(n) => Ok(*n),
    }
}

/// What the equality oracle yields at a point: `true` exactly when the two
/// sides evaluate to bit-for-bit identical patterns; the first evaluation
/// error (left side first) otherwise.
pub open spec fn spec_oracle(
    eq: EquationS,
    x: u64,
    y: u64,
    ofn: spec_fn(FloatOp, u64, u64) -> u64,
) -> Result<bool, EvalErrS> {
    match spec_eval(eq.left, x, y, ofn) {
        Ok(lv) => match spec_eval(eq.right, x, y, ofn) {
            Ok(rv) => Ok(lv == rv),
            Err(er) => Err(er),
        },
        Err(er) => Err(er),
    }
}

/// The equality oracle: evaluates both sides of the equation at the point and
/// reports whether the two bit patterns are identical, bit for bit — no
/// tolerance. The equation is only read, so one parse serves any number of
/// points.
pub fn equal<F: Fn(FloatOp, u64, u64) -> u64>(eq: &Equation, x: u64, y: u64, ops: &F) -> (r:
    Result<bool, EvalError>)
    requires
        ops_wf(*ops),
    ensures
        match r {
            Ok(b) => spec_oracle(eq@, x, y, ops_fn(*ops)) == Ok::<bool, EvalErrS>(b),
            Err(er) => spec_oracle(eq@, x, y, ops_fn(*ops)) == Err::<bool, EvalErrS>(er@),
        },
{
    let left = match eval(&eq.left, x, y, ops) {
        Ok(v) => v,
        Err(er) => {
            return Err(er);
        },
    };
    let right = match eval(&eq.right, x, y, ops) {
        Ok(v) => v,
        Err(er) => {
            return Err(er);
        },
    };
    Ok(left == right)
}

/// Whether the tree contains an identifier that is neither `x`/`X` nor
/// `y`/`Y`.
pub open spec fn has_unknown_id(e: ExprS) -> bool
    decreases e,
{
    match e {
        ExprS::Binary(l, _, r) => has_unknown_id(*l) || has_unknown_id(*r),
        ExprS::Unary(_, inner) => has_unknown_id(*inner),
        ExprS::Group(inner) => has_unknown_id(*inner),
        ExprS::Id(name) => !is_x_name(name) && !is_y_name(name),
        ExprS::Num(_) => false,
    }
}

/// Law: evaluation fails exactly on the trees that contain an identifier
/// other than the two variables — whatever the point and whatever the
/// arithmetic returns. Every operation and every number succeeds, so nothing
/// else can fail.
pub proof fn lemma_eval_err_iff_unknown_id(
    e: ExprS,
    x: u64,
    y: u64,
    ofn: spec_fn(FloatOp, u64, u64) -> u64,
)
    ensures
        (spec_eval(e, x, y, ofn) is Err) <==> has_unknown_id(e),
    decreases e,
{
    match e {
        ExprS::Binary(l, _, r) => {
            lemma_eval_err_iff_unknown_id(*l, x, y, ofn);
            lemma_eval_err_iff_unknown_id(*r, x, y, ofn);
        },
        ExprS::Unary(_, inner) => {
            lemma_eval_err_iff_unknown_id(*inner, x, y, ofn);
        },
        ExprS::Group(inner) => {
            lemma_eval_err_iff_unknown_id(*inner, x, y, ofn);
        },
        _ => {},
    }
}

/// Law: the oracle answers `true` exactly when the two sides' bit patterns
/// are identical — stated for any point at which both sides evaluate.
pub proof fn lemma_oracle_bit_equality(
    eq: EquationS,
    x: u64,
    y: u64,
    ofn: spec_fn(FloatOp, u64, u64) -> u64,
    lv: u64,
    rv: u64,
)
    requires
        spec_eval(eq.left, x, y, ofn) == Ok::<u64, EvalErrS>(lv),
        spec_eval(eq.right, x, y, ofn) == Ok::<u64, EvalErrS>(rv),
    ensures
        spec_oracle(eq, x, y, ofn) == Ok::<bool, EvalErrS>(lv == rv),
        spec_oracle(eq, x, y, ofn) == Ok::<bool, EvalErrS>(true) <==> lv == rv,
{
}

} // verus!
