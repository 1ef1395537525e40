//! Polynomial expressions over the cells of a table region.
//!
//! A gate is an expression built from column queries at a row offset, field
//! constants and the row-active selector; the constraint it declares is that
//! the expression evaluates to zero at every row of the region.  `eval`
//! evaluates an expression on a concrete table and is proved to agree with
//! the specification-level `eval_spec`.

use vstd::prelude::*;

use crate::field::Felt;
use crate::field::fadd;
use crate::field::fsub;
use crate::field::fmul;
use crate::field::felt_add;
use crate::field::felt_sub;
use crate::field::felt_mul;
use crate::field::felt_one;
use crate::field::felt_zero;

verus! {

/// A row offset in a column query: the previous or the current row.
#[derive(Clone, Copy, Debug, PartialEq, Eq, Structural)]
pub enum Rot {
    Prev,
    Cur,
}

/// The row a query at offset `r` reads in an evaluation at `row`.
pub open spec fn rot_row(r: Rot, row: int) -> int {
    match r {
        Rot::Prev => row - 1,
        Rot::Cur => row,
    }
}

/// A polynomial expression over table cells: a field constant, a query of an
/// advice or fixed column at a row offset, the row-active selector, or a
/// sum, difference or product of two expressions.
#[derive(Debug)]
pub enum Expr {
    Constant(Felt),
    Advice(usize, Rot),
    Fixed(usize, Rot),
    Selector,
    Sum(Box<Expr>, Box<Expr>),
    Diff(Box<Expr>, Box<Expr>),
    Prod(Box<Expr>, Box<Expr>),
}

/// One region of assigned cells: advice columns and fixed columns, each a
/// vector of rows, and the row-active selector.
pub struct Table {
    pub advice: Vec<Vec<Felt>>,
    pub fixed: Vec<Vec<Felt>>,
    pub selector: Vec<bool>,
}

impl Table {
    /// The value of the advice cell in column `c` at row `r`.
    pub open spec fn adv(self, c: int, r: int) -> int {
        self.advice@[c]@[r].value()
    }

    /// The value of the fixed cell in column `c` at row `r`.
    pub open spec fn fix(self, c: int, r: int) -> int {
        self.fixed@[c]@[r].value()
    }

    /// The selector at row `r`, as the field value a gate multiplies by.
    pub open spec fn sel(self, r: int) -> int {
        if self.selector@[r] {
            1
        } else {
            0
        }
    }

    /// Every assigned cell holds a canonical representative.
    pub open spec fn cells_canonical(self) -> bool {
        &&& forall|c: int, r: int|
            0 <= c < self.advice@.len() && 0 <= r < self.advice@[c]@.len()
                ==> (#[trigger] self.advice@[c]@[r]).canonical()
        &&& forall|c: int, r: int|
            0 <= c < self.fixed@.len() && 0 <= r < self.fixed@[c]@.len()
                ==> (#[trigger] self.fixed@[c]@[r]).canonical()
    }
}

/// The value of expression `e` on table `t` at row `row`.
pub open spec fn eval_spec(e: Expr, t: Table, row: int) -> int
    decreases e,
{
    match e {
        Expr::Constant(c) => c.value(),
        Expr::Advice(c, r) => t.adv(c as int, rot_row(r, row)),
        Expr::Fixed(c, r) => t.fix(c as int, rot_row(r, row)),
        Expr::Selector => t.sel(row),
        Expr::Sum(a, b) => fadd(eval_spec(*a, t, row), eval_spec(*b, t, row)),
        Expr::Diff(a, b) => fsub(eval_spec(*a, t, row), eval_spec(*b, t, row)),
        Expr::Prod(a, b) => fmul(eval_spec(*a, t, row), eval_spec(*b, t, row)),
    }
}

/// Every query of `e` stays inside a table whose columns cover `rows` rows:
/// the columns it names exist and are long enough, and its constants are
/// canonical.
pub open spec fn expr_wf(e: Expr, t: Table, rows: int) -> bool
    decreases e,
{
    match e {
        Expr::Constant(c) => c.canonical(),
        Expr::Advice(c, _) => c < t.advice@.len() && rows <= t.advice@[c as int]@.len(),
        Expr::Fixed(c, _) => c < t.fixed@.len() && rows <= t.fixed@[c as int]@.len(),
        Expr::Selector => rows <= t.selector@.len(),
        Expr::Sum(a, b) => expr_wf(*a, t, rows) && expr_wf(*b, t, rows),
        Expr::Diff(a, b) => expr_wf(*a, t, rows) && expr_wf(*b, t, rows),
        Expr::Prod(a, b) => expr_wf(*a, t, rows) && expr_wf(*b, t, rows),
    }
}

/// Covering more rows is the stronger demand: an expression that stays in
/// range over `r1` rows stays in range over fewer.
pub proof fn lemma_expr_wf_mono(e: Expr, t: Table, r1: int, r2: int)
    requires
        expr_wf(e, t, r1),
        r2 <= r1,
    ensures
        expr_wf(e, t, r2),
    decreases e,
{
    match e {
        Expr::Sum(a, b) => {
            lemma_expr_wf_mono(*a, t, r1, r2);
            lemma_expr_wf_mono(*b, t, r1, r2);
        },
        Expr::Diff(a, b) => {
            lemma_expr_wf_mono(*a, t, r1, r2);
            lemma_expr_wf_mono(*b, t, r1, r2);
        },
        Expr::Prod(a, b) => {
            lemma_expr_wf_mono(*a, t, r1, r2);
            lemma_expr_wf_mono(*b, t, r1, r2);
        },
        _ => {},
    }
}

/// Evaluates `e` on `t` at row `row`; rows `row - 1` and `row` of every
/// queried column must exist.
pub fn eval(e: &Expr, t: &Table, row: usize) -> (r: Felt)
    requires
        1 <= row,
        expr_wf(*e, *t, row + 1),
        t.cells_canonical(),
    ensures
        r.value() == eval_spec(*e, *t, row as int),
        r.canonical(),
    decreases *e,
{
    match e {
        Expr::Constant(c) => *c,
        Expr::Advice(c, rot) => {
            let rr: usize = match rot {
                Rot::Prev => row - 1,
                Rot::Cur => row,
            };
            t.advice[*c][rr]
        },
        Expr::Fixed(c, rot) => {
            let rr: usize = match rot {
                Rot::Prev => row - 1,
                Rot::Cur => row,
            };
            t.fixed[*c][rr]
        },
        Expr::Selector => {
            if t.selector[row] {
                felt_one()
            } else {
                felt_zero()
            }
        },
        Expr::Sum(a, b) => {
            let va = eval(a, t, row);
            let vb = eval(b, t, row);
            felt_add(&va, &vb)
        },
        Expr::Diff(a, b) => {
            let va = eval(a, t, row);
            let vb = eval(b, t, row);
            felt_sub(&va, &vb)
        },
        Expr::Prod(a, b) => {
            let va = eval(a, t, row);
            let vb = eval(b, t, row);
            felt_mul(&va, &vb)
        },
    }
}

} // verus!
