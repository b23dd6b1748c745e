//! The domain search: a row-major sweep of a bounded two-dimensional grid.
//! For each sample `x` (outer) and each sample `y` (inner) the equality
//! oracle is asked once; the satisfying points are collected in scan order.
//! A cell whose evaluation fails is recorded as a diagnostic and skipped: the
//! sweep never stops early.
use vstd::prelude::*;

use crate::eval::equal;
use crate::eval::ops_fn;
use crate::eval::ops_wf;
use crate::eval::spec_oracle;
use crate::eval::EvalErrS;
use crate::eval::EvalError;
use crate::eval::FloatOp;
use crate::parser::Equation;
use crate::parser::EquationS;

verus! {

/// A sampled point of the grid: the bit patterns of its two coordinates.
#[derive(Debug, Clone, Copy, PartialEq, Eq, Structural)]
pub struct Point {
    pub x: u64,
    pub y: u64,
}

/// The satisfying points among the cells `(x, ys[j])` for `j >= i`, in scan
/// order: those at which the oracle answers `true`.
pub open spec fn spec_row_points(
    eq: EquationS,
    x: u64,
    ys: Seq<u64>,
    i: int,
    ofn: spec_fn(FloatOp, u64, u64) -> u64,
) -> Seq<Point>
    decreases ys.len() - i,
{
    if i < 0 || i >= ys.len() {
        Seq::empty()
    } else {
        let rest = spec_row_points(eq, x, ys, i + 1, ofn);
        if spec_oracle(eq, x, ys[i], ofn) == Ok::<bool, EvalErrS>(true) {
            seq![Point { x, y: ys[i] }] + rest
        } else {
            rest
        }
    }
}

/// The evaluation errors among the cells `(x, ys[j])` for `j >= i`, in scan
/// order.
pub open spec fn spec_row_diags(
    eq: EquationS,
    x: u64,
    ys: Seq<u64>,
    i: int,
    ofn: spec_fn(FloatOp, u64, u64) -> u64,
) -> Seq<EvalErrS>
    decreases ys.len() - i,
{
    if i < 0 || i >= ys.len() {
        Seq::empty()
    } else {
        let rest = spec_row_diags(eq, x, ys, i + 1, ofn);
        match spec_oracle(eq, x, ys[i], ofn) {
            Err(er) => seq![er] + rest,
            Ok(_) => rest,
        }
    }
}

/// The satisfying points of the rows `xs[i..]`, row-major.
pub open spec fn spec_points_from(
    eq: EquationS,
    xs: Seq<u64>,
    ys: Seq<u64>,
    i: int,
    ofn: spec_fn(FloatOp, u64, u64) -> u64,
) -> Seq<Point>
    decreases xs.len() - i,
{
    if i < 0 || i >= xs.len() {
        Seq::empty()
    } else {
        spec_row_points(eq, xs[i], ys, 0, ofn) + spec_points_from(eq, xs, ys, i + 1, ofn)
    }
}

/// The evaluation errors of the rows `xs[i..]`, row-major.
pub open spec fn spec_diags_from(
    eq: EquationS,
    xs: Seq<u64>,
    ys: Seq<u64>,
    i: int,
    ofn: spec_fn(FloatOp, u64, u64) -> u64,
) -> Seq<EvalErrS>
    decreases xs.len() - i,
{
    if i < 0 || i >= xs.len() {
        Seq::empty()
    } else {
        spec_row_diags(eq, xs[i], ys, 0, ofn) + spec_diags_from(eq, xs, ys, i + 1, ofn)
    }
}

/// The whole sweep's satisfying points: row-major, `x` in the order of `xs`,
/// `y` in the order of `ys` within each row.
pub open spec fn spec_solution_points(
    eq: EquationS,
    xs: Seq<u64>,
    ys: Seq<u64>,
    ofn: spec_fn(FloatOp, u64, u64) -> u64,
) -> Seq<Point> {
    spec_points_from(eq, xs, ys, 0, ofn)
}

/// The whole sweep's diagnostics: one per cell whose evaluation failed, in
/// scan order.
pub open spec fn spec_search_diags(
    eq: EquationS,
    xs: Seq<u64>,
    ys: Seq<u64>,
    ofn: spec_fn(FloatOp, u64, u64) -> u64,
) -> Seq<EvalErrS> {
    spec_diags_from(eq, xs, ys, 0, ofn)
}

/// The view of a diagnostics list.
pub open spec fn deep_diags(ds: Seq<EvalError>) -> Seq<EvalErrS> {
    ds.map_values(|d: EvalError| d@)
}

/// Sweeps the grid of the sample coordinates (bit patterns; row-major: for
/// each `x` of `xs`, every `y` of `ys` in order) and returns the points the
/// oracle accepts, in scan order, together with one diagnostic per cell whose
/// evaluation failed. An error never stops the sweep, and the equation is
/// only read.
#[verifier::loop_isolation(false)]
pub fn solution_points<F: Fn(FloatOp, u64, u64) -> u64>(
    eq: &Equation,
    xs: &Vec<u64>,
    ys: &Vec<u64>,
    ops: &F,
) -> (r: (Vec<Point>, Vec<EvalError>))
    requires
        ops_wf(*ops),
    ensures
        r.0@ == spec_solution_points(eq@, xs@, ys@, ops_fn(*ops)),
        deep_diags(r.1@) == spec_search_diags(eq@, xs@, ys@, ops_fn(*ops)),
{
    let ghost ofn = ops_fn(*ops);
    let mut points: Vec<Point> = Vec::new();
    let mut diags: Vec<EvalError> = Vec::new();
    let mut i: usize = 0;
    while i < xs.len()
        invariant
            i <= xs@.len(),
            points@ + spec_points_from(eq@, xs@, ys@, i as int, ofn) == spec_solution_points(
                eq@,
                xs@,
                ys@,
                ofn,
            ),
            deep_diags(diags@) + spec_diags_from(eq@, xs@, ys@, i as int, ofn) == spec_search_diags(
                eq@,
                xs@,
                ys@,
                ofn,
            ),
        decreases xs@.len() - i,
    {
        let x = xs[i];
        let mut j: usize = 0;
        while j < ys.len()
            invariant
                i < xs@.len(),
                x == xs@[i as int],
                j <= ys@.len(),
                points@ + spec_row_points(eq@, x, ys@, j as int, ofn) + spec_points_from(
                    eq@,
                    xs@,
                    ys@,
                    i + 1,
                    ofn,
                ) == spec_solution_points(eq@, xs@, ys@, ofn),
                deep_diags(diags@) + spec_row_diags(eq@, x, ys@, j as int, ofn) + spec_diags_from(
                    eq@,
                    xs@,
                    ys@,
                    i + 1,
                    ofn,
                ) == spec_search_diags(eq@, xs@, ys@, ofn),
            decreases ys@.len() - j,
        {
            let y = ys[j];
            let ghost points_pre = points@;
            let ghost diags_pre = diags@;
            match equal(eq, x, y, ops) {
                Ok(true) => {
                    points.push(Point { x, y });
                    proof {
                        assert(points@ + spec_row_points(eq@, x, ys@, j + 1, ofn) =~= points_pre
                            + spec_row_points(eq@, x, ys@, j as int, ofn));
                    }
                },
                Ok(false) => {},
                Err(er) => {
                    let ghost ers = er@;
                    diags.push(er);
                    proof {
                        assert(deep_diags(diags@) =~= deep_diags(diags_pre).push(ers));
                        assert(deep_diags(diags@) + spec_row_diags(eq@, x, ys@, j + 1, ofn)
                            =~= deep_diags(diags_pre) + spec_row_diags(eq@, x, ys@, j as int, ofn));
                    }
                },
            }
            j += 1;
        }
        proof {
            assert(spec_row_points(eq@, x, ys@, j as int, ofn) =~= Seq::<Point>::empty());
            assert(spec_row_diags(eq@, x, ys@, j as int, ofn) =~= Seq::<EvalErrS>::empty());
            assert(points@ + Seq::<Point>::empty() =~= points@);
            assert(deep_diags(diags@) + Seq::<EvalErrS>::empty() =~= deep_diags(diags@));
        }
        i += 1;
    }
    proof {
        assert(spec_points_from(eq@, xs@, ys@, i as int, ofn) =~= Seq::<Point>::empty());
        assert(spec_diags_from(eq@, xs@, ys@, i as int, ofn) =~= Seq::<EvalErrS>::empty());
        assert(points@ + Seq::<Point>::empty() =~= points@);
        assert(deep_diags(diags@) + Seq::<EvalErrS>::empty() =~= deep_diags(diags@));
    }
    (points, diags)
}

} // verus!
