//! Constraint declaration and witness assignment for the exponentiation
//! gadget.
//!
//! The gadget proves `y = x^n` for public `x`, `y` and the public bit
//! decomposition of `n` (least-significant bit first).  The table has one
//! row per bit: column `y` carries the running result, column `x` the
//! squared-base ladder `x^(2^row)`, column `n_bit` the bit of the exponent
//! at that row, and column `n_acc` a running reconstruction of `n` from its
//! bits against the fixed column of powers of two.  Three polynomial
//! identities relate each row to the one before it; designated cells are
//! bound by equality to slots of the public-input vector.

use vstd::prelude::*;

use crate::field::Felt;
use crate::field::fadd;
use crate::field::fsub;
use crate::field::fmul;
use crate::field::p;
use crate::field::felt_add;
use crate::field::felt_sub;
use crate::field::felt_mul;
use crate::field::felt_one;
use crate::field::felt_zero;
use crate::field::lemma_value_injective;
use crate::expr::Expr;
use crate::expr::Rot;
use crate::expr::Table;
use crate::expr::eval;
use crate::expr::eval_spec;
use crate::expr::expr_wf;

verus! {

/// A column handle, by kind and allocation order.
#[derive(Clone, Copy, Debug, PartialEq, Eq, Structural)]
pub enum Column {
    Advice(usize),
    Fixed(usize),
    Instance(usize),
}

/// The part of the backend's constraint system that the gadget shapes:
/// how many columns of each kind were allocated, which cells may be tied by
/// equality to other cells or to public inputs, which fixed columns may
/// hold constants asserted by the circuit author, and which gate
/// polynomials were registered so far.
pub struct ConstraintSystem {
    pub num_advice: usize,
    pub num_fixed: usize,
    pub num_instance: usize,
    pub num_selectors: usize,
    pub equality: Vec<Column>,
    pub constants: Vec<usize>,
    pub gates: Vec<Expr>,
}

impl ConstraintSystem {
    /// A fresh system with no columns and no gates.
    pub fn new() -> (r: Self)
        ensures
            r.num_advice == 0,
            r.num_fixed == 0,
            r.num_instance == 0,
            r.num_selectors == 0,
            r.equality@ =~= Seq::<Column>::empty(),
            r.constants@ =~= Seq::<usize>::empty(),
            r.gates@ =~= Seq::<Expr>::empty(),
    {
        ConstraintSystem {
            num_advice: 0,
            num_fixed: 0,
            num_instance: 0,
            num_selectors: 0,
            equality: Vec::new(),
            constants: Vec::new(),
            gates: Vec::new(),
        }
    }

    /// Allocates the next advice column and returns its handle.
    pub fn advice_column(&mut self) -> (r: usize)
        requires
            old(self).num_advice < usize::MAX,
        ensures
            r == old(self).num_advice,
            *final(self) == (ConstraintSystem { num_advice: (old(self).num_advice + 1) as usize, ..*old(self) }),
    {
        let c = self.num_advice;
        self.num_advice = self.num_advice + 1;
        c
    }

    /// Allocates the next fixed column and returns its handle.
    pub fn fixed_column(&mut self) -> (r: usize)
        requires
            old(self).num_fixed < usize::MAX,
        ensures
            r == old(self).num_fixed,
            *final(self) == (ConstraintSystem { num_fixed: (old(self).num_fixed + 1) as usize, ..*old(self) }),
    {
        let c = self.num_fixed;
        self.num_fixed = self.num_fixed + 1;
        c
    }

    /// Allocates the next instance (public input) column and returns its
    /// handle.
    pub fn instance_column(&mut self) -> (r: usize)
        requires
            old(self).num_instance < usize::MAX,
        ensures
            r == old(self).num_instance,
            *final(self) == (ConstraintSystem { num_instance: (old(self).num_instance + 1) as usize, ..*old(self) }),
    {
        let c = self.num_instance;
        self.num_instance = self.num_instance + 1;
        c
    }

    /// Allocates the next row-active selector and returns its handle.
    pub fn selector(&mut self) -> (r: usize)
        requires
            old(self).num_selectors < usize::MAX,
        ensures
            r == old(self).num_selectors,
            *final(self) == (ConstraintSystem { num_selectors: (old(self).num_selectors + 1) as usize, ..*old(self) }),
    {
        let c = self.num_selectors;
        self.num_selectors = self.num_selectors + 1;
        c
    }

    /// Marks a column whose cells may be tied by equality to other cells
    /// or to public-input slots.
    pub fn enable_equality(&mut self, c: Column)
        ensures
            *final(self) == (ConstraintSystem { equality: final(self).equality, ..*old(self) }),
            final(self).equality@ == old(self).equality@.push(c),
    {
        self.equality.push(c);
    }

    /// Marks a fixed column that may hold constants asserted directly by
    /// the circuit author.
    pub fn enable_constant(&mut self, c: usize)
        ensures
            *final(self) == (ConstraintSystem { constants: final(self).constants, ..*old(self) }),
            final(self).constants@ == old(self).constants@.push(c),
    {
        self.constants.push(c);
    }

    /// Registers a gate: the polynomial `e` must evaluate to zero at every
    /// row of the region.
    pub fn create_gate(&mut self, e: Expr)
        ensures
            *final(self) == (ConstraintSystem { gates: final(self).gates, ..*old(self) }),
            final(self).gates@ == old(self).gates@.push(e),
    {
        self.gates.push(e);
    }
}

/// The column handles the gadget works with.
pub struct ExponentiationConfig {
    /// Advice column of running results.
    pub col_y: usize,
    /// Advice column of the squared-base ladder `x^(2^row)`.
    pub col_x: usize,
    /// Advice column of the exponent's bits.
    pub col_n: usize,
    /// Advice column of the running bit reconstruction of the exponent.
    pub col_n_acc: usize,
    /// Fixed column of the powers of two `2^row`.
    pub const_2_power_col: usize,
    /// The row-active selector of the transition gates.
    pub selector: usize,
    /// The public-input column.
    pub instance: usize,
}

impl ExponentiationConfig {
    /// The handles as `configure` allocates them on a fresh system.
    pub open spec fn wf(self) -> bool {
        &&& self.col_y == 0
        &&& self.col_x == 1
        &&& self.col_n == 2
        &&& self.col_n_acc == 3
        &&& self.const_2_power_col == 1
        &&& self.selector == 0
        &&& self.instance == 0
    }
}

/// The conditional-multiply gate: on a selected row,
/// `n_bit_prev * (y_cur - y_prev * x_prev) + (1 - n_bit_prev) * (y_cur - y_prev)`
/// must vanish.
pub open spec fn mul_gate(cfg: ExponentiationConfig) -> Expr {
    Expr::Prod(
        Box::new(Expr::Selector),
        Box::new(Expr::Sum(
            Box::new(Expr::Prod(
                Box::new(Expr::Advice(cfg.col_n, Rot::Prev)),
                Box::new(Expr::Diff(
                    Box::new(Expr::Advice(cfg.col_y, Rot::Cur)),
                    Box::new(Expr::Prod(
                        Box::new(Expr::Advice(cfg.col_y, Rot::Prev)),
                        Box::new(Expr::Advice(cfg.col_x, Rot::Prev)),
                    )),
                )),
            )),
            Box::new(Expr::Prod(
                Box::new(Expr::Diff(
                    Box::new(Expr::Constant(Felt { l0: 1, l1: 0, l2: 0, l3: 0 })),
                    Box::new(Expr::Advice(cfg.col_n, Rot::Prev)),
                )),
                Box::new(Expr::Diff(
                    Box::new(Expr::Advice(cfg.col_y, Rot::Cur)),
                    Box::new(Expr::Advice(cfg.col_y, Rot::Prev)),
                )),
            )),
        )),
    )
}

/// The squaring gate: `x_cur - x_prev * x_prev` must vanish on every
/// adjacent row pair, with no selector guard, so the squared-base ladder is
/// enforced whatever the bits are.
pub open spec fn square_gate(cfg: ExponentiationConfig) -> Expr {
    Expr::Diff(
        Box::new(Expr::Advice(cfg.col_x, Rot::Cur)),
        Box::new(Expr::Prod(
            Box::new(Expr::Advice(cfg.col_x, Rot::Prev)),
            Box::new(Expr::Advice(cfg.col_x, Rot::Prev)),
        )),
    )
}

/// The bit-accumulation gate: on a selected row,
/// `n_acc_cur - (n_acc_prev + n_bit_prev * 2^prev)` must vanish, where
/// `2^prev` comes from the fixed column of powers of two.
pub open spec fn acc_gate(cfg: ExponentiationConfig) -> Expr {
    Expr::Prod(
        Box::new(Expr::Selector),
        Box::new(Expr::Diff(
            Box::new(Expr::Advice(cfg.col_n_acc, Rot::Cur)),
            Box::new(Expr::Sum(
                Box::new(Expr::Advice(cfg.col_n_acc, Rot::Prev)),
                Box::new(Expr::Prod(
                    Box::new(Expr::Advice(cfg.col_n, Rot::Prev)),
                    Box::new(Expr::Fixed(cfg.const_2_power_col, Rot::Prev)),
                )),
            )),
        )),
    )
}

/// The three gates `configure` registers, in order.
pub open spec fn declared_gates(cfg: ExponentiationConfig) -> Seq<Expr> {
    seq![mul_gate(cfg), square_gate(cfg), acc_gate(cfg)]
}

/// The value of the conditional-multiply gate at `row`, written over the
/// cell values directly.
pub open spec fn mul_gate_value(t: Table, cfg: ExponentiationConfig, row: int) -> int {
    fmul(
        t.sel(row),
        fadd(
            fmul(
                t.adv(cfg.col_n as int, row - 1),
                fsub(
                    t.adv(cfg.col_y as int, row),
                    fmul(t.adv(cfg.col_y as int, row - 1), t.adv(cfg.col_x as int, row - 1)),
                ),
            ),
            fmul(
                fsub(1, t.adv(cfg.col_n as int, row - 1)),
                fsub(t.adv(cfg.col_y as int, row), t.adv(cfg.col_y as int, row - 1)),
            ),
        ),
    )
}

/// The value of the squaring gate at `row`, written over the cell values
/// directly.
pub open spec fn square_gate_value(t: Table, cfg: ExponentiationConfig, row: int) -> int {
    fsub(
        t.adv(cfg.col_x as int, row),
        fmul(t.adv(cfg.col_x as int, row - 1), t.adv(cfg.col_x as int, row - 1)),
    )
}

/// The value of the bit-accumulation gate at `row`, written over the cell
/// values directly.
pub open spec fn acc_gate_value(t: Table, cfg: ExponentiationConfig, row: int) -> int {
    fmul(
        t.sel(row),
        fsub(
            t.adv(cfg.col_n_acc as int, row),
            fadd(
                t.adv(cfg.col_n_acc as int, row - 1),
                fmul(t.adv(cfg.col_n as int, row - 1), t.fix(cfg.const_2_power_col as int, row - 1)),
            ),
        ),
    )
}

/// Each declared gate evaluates to its written-out value.
pub proof fn lemma_gate_values(cfg: ExponentiationConfig, t: Table, row: int)
    ensures
        eval_spec(mul_gate(cfg), t, row) == mul_gate_value(t, cfg, row),
        eval_spec(square_gate(cfg), t, row) == square_gate_value(t, cfg, row),
        eval_spec(acc_gate(cfg), t, row) == acc_gate_value(t, cfg, row),
{
    reveal_with_fuel(eval_spec, 8);
}

/// A table whose columns cover `rows` rows keeps every query of the
/// declared gates in range.
pub proof fn lemma_gates_wf(cfg: ExponentiationConfig, t: Table, rows: int)
    requires
        cfg.wf(),
        t.advice@.len() == 4,
        forall|c: int| 0 <= c < 4 ==> rows <= (#[trigger] t.advice@[c])@.len(),
        t.fixed@.len() == 2,
        rows <= t.fixed@[1]@.len(),
        rows <= t.selector@.len(),
    ensures
        forall|i: int|
            0 <= i < declared_gates(cfg).len() ==> expr_wf(
                #[trigger] declared_gates(cfg)[i],
                t,
                rows,
            ),
{
    reveal_with_fuel(expr_wf, 8);
    assert(expr_wf(mul_gate(cfg), t, rows));
    assert(expr_wf(square_gate(cfg), t, rows));
    assert(expr_wf(acc_gate(cfg), t, rows));
    assert forall|i: int| 0 <= i < declared_gates(cfg).len() implies expr_wf(
        #[trigger] declared_gates(cfg)[i],
        t,
        rows,
    ) by {
        if i == 0 {
            assert(declared_gates(cfg)[i] == mul_gate(cfg));
        } else if i == 1 {
            assert(declared_gates(cfg)[i] == square_gate(cfg));
        } else {
            assert(declared_gates(cfg)[i] == acc_gate(cfg));
        }
    }
}

/// What witness assignment can fail with: a region with no base row, or a
/// public-input vector too short for the slots the region reads.
#[derive(Clone, Copy, Debug, PartialEq, Eq, Structural)]
pub enum Error {
    EmptyRegion,
    MissingPublicInput,
}

/// The squared-base ladder: row `i` of column `x` holds `x^(2^i)`, starting
/// from the base in public-input slot 0.
pub open spec fn spec_x(inst: Seq<Felt>, i: nat) -> int
    decreases i,
{
    if i == 0 {
        inst[0].value()
    } else {
        fmul(spec_x(inst, (i - 1) as nat), spec_x(inst, (i - 1) as nat))
    }
}

/// The exponent bit at row `i`: public-input slot `2 + i`.
pub open spec fn spec_nb(inst: Seq<Felt>, i: nat) -> int {
    inst[2 + i as int].value()
}

/// The result ladder: row `i` of column `y`, the running product of the
/// square-and-multiply walk, written as the single polynomial
/// `bit * (y * x) + (1 - bit) * y` rather than a branch on the bit.
pub open spec fn spec_y(inst: Seq<Felt>, i: nat) -> int
    decreases i,
{
    if i == 0 {
        1
    } else {
        fadd(
            fmul(
                spec_nb(inst, (i - 1) as nat),
                fmul(spec_y(inst, (i - 1) as nat), spec_x(inst, (i - 1) as nat)),
            ),
            fmul(fsub(1, spec_nb(inst, (i - 1) as nat)), spec_y(inst, (i - 1) as nat)),
        )
    }
}

/// Row `i` of the fixed column of powers of two: `2^i` as a field element.
pub open spec fn spec_pw(i: nat) -> int
    decreases i,
{
    if i == 0 {
        1
    } else {
        fadd(spec_pw((i - 1) as nat), spec_pw((i - 1) as nat))
    }
}

/// The bit-reconstruction ladder: row `i` of column `n_acc`, the running
/// sum of `bit[j] * 2^j` over the rows before `i`.
pub open spec fn spec_acc(inst: Seq<Felt>, i: nat) -> int
    decreases i,
{
    if i == 0 {
        0
    } else {
        fadd(
            spec_acc(inst, (i - 1) as nat),
            fmul(spec_nb(inst, (i - 1) as nat), spec_pw((i - 1) as nat)),
        )
    }
}

/// Every public input is a canonical field element.
pub open spec fn instance_canonical(inst: Seq<Felt>) -> bool {
    forall|i: int| 0 <= i < inst.len() ==> (#[trigger] inst[i]).canonical()
}

/// The table `assign` fills for bit-length `len` and public inputs `inst`:
/// the column layout of the config, every cell canonical, each column equal
/// to its ladder, the bit cells taken verbatim from the public inputs, and
/// the selector active on every transition row except the last one.
pub open spec fn table_assigned(t: Table, inst: Seq<Felt>, len: nat) -> bool {
    &&& t.advice@.len() == 4
    &&& (forall|c: int| 0 <= c < 4 ==> (#[trigger] t.advice@[c])@.len() == len)
    &&& t.fixed@.len() == 2
    &&& t.fixed@[0]@.len() == 0
    &&& t.fixed@[1]@.len() == len + 1
    &&& t.selector@.len() == len
    &&& t.cells_canonical()
    &&& (forall|i: int| 0 <= i < len ==> #[trigger] t.adv(0, i) == spec_y(inst, i as nat))
    &&& (forall|i: int| 0 <= i < len ==> #[trigger] t.adv(1, i) == spec_x(inst, i as nat))
    &&& (forall|i: int| 0 <= i < len ==> #[trigger] t.advice@[2]@[i] == inst[2 + i])
    &&& (forall|i: int| 0 <= i < len ==> #[trigger] t.adv(3, i) == spec_acc(inst, i as nat))
    &&& (forall|i: int| 0 <= i <= len ==> #[trigger] t.fix(1, i) == spec_pw(i as nat))
    &&& (forall|i: int| 0 <= i < len ==> (#[trigger] t.selector@[i] <==> 1 <= i < len - 1))
}

/// The chip: the column handles, ready to assign regions.
pub struct ExponentiationChip {
    pub config: ExponentiationConfig,
}

impl ExponentiationChip {
    /// Wraps already-declared columns in a chip.
    pub fn construct(config: ExponentiationConfig) -> (r: Self)
        ensures
            r.config == config,
    {
        ExponentiationChip { config }
    }

    /// Declares the gadget's columns on a fresh constraint system and
    /// registers its three gates.
    pub fn configure(meta: &mut ConstraintSystem) -> (r: ExponentiationConfig)
        requires
            old(meta).num_advice == 0,
            old(meta).num_fixed == 0,
            old(meta).num_instance == 0,
            old(meta).num_selectors == 0,
            old(meta).equality@.len() == 0,
            old(meta).constants@.len() == 0,
        ensures
            r.wf(),
            final(meta).gates@ == old(meta).gates@ + declared_gates(r),
            final(meta).equality@ =~= seq![
                Column::Instance(r.instance),
                Column::Advice(r.col_y),
                Column::Advice(r.col_x),
                Column::Advice(r.col_n),
                Column::Advice(r.col_n_acc),
            ],
            final(meta).constants@ =~= seq![0usize, r.const_2_power_col],
            final(meta).num_advice == 4,
            final(meta).num_fixed == 2,
            final(meta).num_instance == 1,
            final(meta).num_selectors == 1,
    {
        let col_y = meta.advice_column();
        let col_x = meta.advice_column();
        let col_n = meta.advice_column();
        let col_n_acc = meta.advice_column();
        let selector = meta.selector();
        let instance = meta.instance_column();
        meta.enable_equality(Column::Instance(instance));

        meta.enable_equality(Column::Advice(col_y));
        meta.enable_equality(Column::Advice(col_x));
        meta.enable_equality(Column::Advice(col_n));
        meta.enable_equality(Column::Advice(col_n_acc));

        let const_col = meta.fixed_column();
        let const_2_power_col = meta.fixed_column();

        meta.enable_constant(const_col);
        meta.enable_constant(const_2_power_col);

        let cfg = ExponentiationConfig {
            col_y,
            col_x,
            col_n,
            col_n_acc,
            const_2_power_col,
            selector,
            instance,
        };

        // if n_bit_prev == 1 then y_cur = y_prev * x_prev else y_cur = y_prev,
        // as one polynomial weighting both branches by the bit
        let g_mul = Expr::Prod(
            Box::new(Expr::Selector),
            Box::new(Expr::Sum(
                Box::new(Expr::Prod(
                    Box::new(Expr::Advice(cfg.col_n, Rot::Prev)),
                    Box::new(Expr::Diff(
                        Box::new(Expr::Advice(cfg.col_y, Rot::Cur)),
                        Box::new(Expr::Prod(
                            Box::new(Expr::Advice(cfg.col_y, Rot::Prev)),
                            Box::new(Expr::Advice(cfg.col_x, Rot::Prev)),
                        )),
                    )),
                )),
                Box::new(Expr::Prod(
                    Box::new(Expr::Diff(
                        Box::new(Expr::Constant(felt_one())),
                        Box::new(Expr::Advice(cfg.col_n, Rot::Prev)),
                    )),
                    Box::new(Expr::Diff(
                        Box::new(Expr::Advice(cfg.col_y, Rot::Cur)),
                        Box::new(Expr::Advice(cfg.col_y, Rot::Prev)),
                    )),
                )),
            )),
        );
        meta.create_gate(g_mul);

        // x_cur = x_prev^2 on every adjacent row pair, with no selector guard
        let g_square = Expr::Diff(
            Box::new(Expr::Advice(cfg.col_x, Rot::Cur)),
            Box::new(Expr::Prod(
                Box::new(Expr::Advice(cfg.col_x, Rot::Prev)),
                Box::new(Expr::Advice(cfg.col_x, Rot::Prev)),
            )),
        );
        meta.create_gate(g_square);

        // n_acc_cur = n_acc_prev + n_bit_prev * 2^prev
        let g_acc = Expr::Prod(
            Box::new(Expr::Selector),
            Box::new(Expr::Diff(
                Box::new(Expr::Advice(cfg.col_n_acc, Rot::Cur)),
                Box::new(Expr::Sum(
                    Box::new(Expr::Advice(cfg.col_n_acc, Rot::Prev)),
                    Box::new(Expr::Prod(
                        Box::new(Expr::Advice(cfg.col_n, Rot::Prev)),
                        Box::new(Expr::Fixed(cfg.const_2_power_col, Rot::Prev)),
                    )),
                )),
            )),
        );
        meta.create_gate(g_acc);

        proof {
            assert(final(meta).gates@ =~= old(meta).gates@ + declared_gates(cfg));
        }
        cfg
    }

    /// Fills one region of `len` rows from the public inputs: `y` from the
    /// multiplicative identity through the conditional-multiply ladder, `x`
    /// from slot 0 through repeated squaring, `n_bit` from slots `2 + i`,
    /// `n_acc` from zero through the bit-accumulation ladder over the fixed
    /// powers of two, and the selector on every transition but the last.
    pub fn assign(&self, instance: &Vec<Felt>, len: usize) -> (r: Result<Table, Error>)
        requires
            self.config.wf(),
            instance_canonical(instance@),
        ensures
            ((r is Ok) <==> (1 <= len && len + 2 <= instance@.len())),
            (r matches Ok(t) ==> table_assigned(t, instance@, len as nat)),
            ((r is Err) ==> (r matches Err(e) && ((e == Error::EmptyRegion) <==> len == 0))),
    {
        if len == 0 {
            return Err(Error::EmptyRegion);
        }
        if instance.len() < 2 || instance.len() - 2 < len {
            return Err(Error::MissingPublicInput);
        }

        // y starts at the multiplicative identity; x is bound to slot 0
        let mut col_y: Vec<Felt> = Vec::new();
        col_y.push(felt_one());
        let mut col_x: Vec<Felt> = Vec::new();
        col_x.push(instance[0]);

        // the squared-base ladder: x[i] = x[i-1]^2
        let mut i: usize = 1;
        while i < len
            invariant
                1 <= i <= len,
                len + 2 <= instance@.len(),
                len + 2 <= usize::MAX,
                instance_canonical(instance@),
                col_x@.len() == i,
                forall|j: int| 0 <= j < i ==> (#[trigger] col_x@[j]).canonical(),
                forall|j: int| 0 <= j < i ==> (#[trigger] col_x@[j]).value() == spec_x(
                    instance@,
                    j as nat,
                ),
            decreases len - i,
        {
            let prev = col_x[i - 1];
            col_x.push(felt_mul(&prev, &prev));
            i = i + 1;
        }

        // the exponent's bits, straight from the public inputs
        let mut col_n: Vec<Felt> = Vec::new();
        let mut i: usize = 0;
        while i < len
            invariant
                i <= len,
                len + 2 <= instance@.len(),
                len + 2 <= usize::MAX,
                col_n@.len() == i,
                forall|j: int| 0 <= j < i ==> #[trigger] col_n@[j] == instance@[2 + j],
            decreases len - i,
        {
            col_n.push(instance[2 + i]);
            i = i + 1;
        }

        // the fixed column of powers of two, by repeated doubling
        let mut pow2_col: Vec<Felt> = Vec::new();
        pow2_col.push(felt_one());
        let mut i: usize = 1;
        while i < len + 1
            invariant
                1 <= i <= len + 1,
                len + 2 <= instance@.len(),
                len + 2 <= usize::MAX,
                pow2_col@.len() == i,
                forall|j: int| 0 <= j < i ==> (#[trigger] pow2_col@[j]).canonical(),
                forall|j: int| 0 <= j < i ==> (#[trigger] pow2_col@[j]).value() == spec_pw(j as nat),
            decreases len + 1 - i,
        {
            let prev = pow2_col[i - 1];
            pow2_col.push(felt_add(&prev, &prev));
            i = i + 1;
        }

        // the result ladder, and the row-active selector on every
        // transition row but the last
        let mut sel: Vec<bool> = Vec::new();
        sel.push(false);
        let mut i: usize = 1;
        while i < len
            invariant
                1 <= i <= len,
                len + 2 <= instance@.len(),
                len + 2 <= usize::MAX,
                instance_canonical(instance@),
                col_x@.len() == len,
                forall|j: int| 0 <= j < len ==> (#[trigger] col_x@[j]).canonical(),
                forall|j: int| 0 <= j < len ==> (#[trigger] col_x@[j]).value() == spec_x(
                    instance@,
                    j as nat,
                ),
                col_n@.len() == len,
                forall|j: int| 0 <= j < len ==> #[trigger] col_n@[j] == instance@[2 + j],
                col_y@.len() == i,
                sel@.len() == i,
                forall|j: int| 0 <= j < i ==> (#[trigger] col_y@[j]).canonical(),
                forall|j: int| 0 <= j < i ==> (#[trigger] col_y@[j]).value() == spec_y(
                    instance@,
                    j as nat,
                ),
                forall|j: int| 0 <= j < i ==> (#[trigger] sel@[j] <==> 1 <= j < len - 1),
            decreases len - i,
        {
            let b = col_n[i - 1];
            let yx = felt_mul(&col_y[i - 1], &col_x[i - 1]);
            let taken = felt_mul(&b, &yx);
            let one = felt_one();
            let one_minus_b = felt_sub(&one, &b);
            let kept = felt_mul(&one_minus_b, &col_y[i - 1]);
            col_y.push(felt_add(&taken, &kept));
            sel.push(i < len - 1);
            i = i + 1;
        }

        // the bit-reconstruction ladder
        let mut col_acc: Vec<Felt> = Vec::new();
        col_acc.push(felt_zero());
        let mut i: usize = 1;
        while i < len
            invariant
                1 <= i <= len,
                len + 2 <= instance@.len(),
                len + 2 <= usize::MAX,
                instance_canonical(instance@),
                col_n@.len() == len,
                forall|j: int| 0 <= j < len ==> #[trigger] col_n@[j] == instance@[2 + j],
                pow2_col@.len() == len + 1,
                forall|j: int| 0 <= j < len + 1 ==> (#[trigger] pow2_col@[j]).canonical(),
                forall|j: int| 0 <= j < len + 1 ==> (#[trigger] pow2_col@[j]).value() == spec_pw(
                    j as nat,
                ),
                col_acc@.len() == i,
                forall|j: int| 0 <= j < i ==> (#[trigger] col_acc@[j]).canonical(),
                forall|j: int| 0 <= j < i ==> (#[trigger] col_acc@[j]).value() == spec_acc(
                    instance@,
                    j as nat,
                ),
            decreases len - i,
        {
            let b = col_n[i - 1];
            let term = felt_mul(&b, &pow2_col[i - 1]);
            let prev = col_acc[i - 1];
            col_acc.push(felt_add(&prev, &term));
            i = i + 1;
        }

        let ghost g_y = col_y@;
        let ghost g_x = col_x@;
        let ghost g_n = col_n@;
        let ghost g_acc = col_acc@;
        let ghost g_pw = pow2_col@;

        let mut advice: Vec<Vec<Felt>> = Vec::new();
        advice.push(col_y);
        advice.push(col_x);
        advice.push(col_n);
        advice.push(col_acc);
        let mut fixed: Vec<Vec<Felt>> = Vec::new();
        fixed.push(Vec::new());
        fixed.push(pow2_col);
        let t = Table { advice, fixed, selector: sel };
        proof {
            assert(t.advice@[0]@ == g_y);
            assert(t.advice@[1]@ == g_x);
            assert(t.advice@[2]@ == g_n);
            assert(t.advice@[3]@ == g_acc);
            assert(t.fixed@[1]@ == g_pw);
            assert(t.fixed@[0]@.len() == 0);
            assert forall|j: int| 0 <= j < len implies #[trigger] t.advice@[2]@[j]
                == instance@[2 + j] by {
                assert(g_n[j] == instance@[2 + j]);
            }
            assert forall|j: int| 0 <= j < len implies (#[trigger] t.advice@[2]@[j]).canonical() by {
                assert(instance@[2 + j].canonical());
            }
        }
        Ok(t)
    }

    /// Constrains a cell to equal the public-input slot at `row`: records
    /// the equality for the backend to check.
    pub fn expose_public(&self, bindings: &mut Vec<Binding>, cell: &Felt, row: usize)
        ensures
            final(bindings)@ == old(bindings)@.push(Binding { value: *cell, row }),
    {
        bindings.push(Binding { value: *cell, row });
    }
}

/// An equality binding: the recorded cell value must equal the
/// public-input slot at `row`.
#[derive(Clone, Copy, Debug, PartialEq, Eq, Structural)]
pub struct Binding {
    pub value: Felt,
    pub row: usize,
}

/// One binding holds: the slot it names, when the verifier supplies it,
/// equals the bound cell.  A slot beyond the supplied vector is backend
/// padding and constrains nothing.
pub open spec fn binding_ok(inst: Seq<Felt>, b: Binding) -> bool {
    b.row < inst.len() ==> inst[b.row as int] == b.value
}

/// All recorded bindings hold against the public inputs.
pub open spec fn bindings_ok(inst: Seq<Felt>, bs: Seq<Binding>) -> bool {
    forall|i: int| 0 <= i < bs.len() ==> binding_ok(inst, #[trigger] bs[i])
}

/// Every gate vanishes at every row of the region after the base row.
pub open spec fn gates_ok(gates: Seq<Expr>, t: Table, rows: int) -> bool {
    forall|g: int, r: int|
        0 <= g < gates.len() && 1 <= r < rows ==> #[trigger] eval_spec(gates[g], t, r) == 0
}

/// Checks every gate at every row after the base row, and every recorded
/// binding against the public inputs: the backend's satisfaction check.
pub fn is_satisfied(
    gates: &Vec<Expr>,
    t: &Table,
    rows: usize,
    instance: &Vec<Felt>,
    bindings: &Vec<Binding>,
) -> (r: bool)
    requires
        forall|g: int|
            0 <= g < gates@.len() ==> expr_wf(#[trigger] gates@[g], *t, rows as int),
        t.cells_canonical(),
    ensures
        r == (gates_ok(gates@, *t, rows as int) && bindings_ok(instance@, bindings@)),
{
    let zero = felt_zero();
    let mut gi: usize = 0;
    while gi < gates.len()
        invariant
            gi <= gates@.len(),
            forall|g: int|
                0 <= g < gates@.len() ==> expr_wf(#[trigger] gates@[g], *t, rows as int),
            t.cells_canonical(),
            zero.value() == 0,
            forall|g: int, r: int|
                0 <= g < gi && 1 <= r < rows ==> #[trigger] eval_spec(gates@[g], *t, r) == 0,
        decreases gates@.len() - gi,
    {
        let mut row: usize = 1;
        while row < rows
            invariant
                gi < gates@.len(),
                1 <= row,
                rows >= 1 ==> row <= rows,
                forall|g: int|
                    0 <= g < gates@.len() ==> expr_wf(#[trigger] gates@[g], *t, rows as int),
                t.cells_canonical(),
                zero.value() == 0,
                forall|r: int| 1 <= r < row ==> eval_spec(gates@[gi as int], *t, r) == 0,
            decreases rows - row,
        {
            proof {
                crate::expr::lemma_expr_wf_mono(gates@[gi as int], *t, rows as int, row + 1);
            }
            let v = eval(&gates[gi], t, row);
            if !(v == zero) {
                proof {
                    if v.value() == 0 {
                        lemma_value_injective(v, zero);
                    }
                    assert(eval_spec(gates@[gi as int], *t, row as int) != 0);
                    assert(!gates_ok(gates@, *t, rows as int));
                }
                return false;
            }
            row = row + 1;
        }
        gi = gi + 1;
    }
    let mut bi: usize = 0;
    while bi < bindings.len()
        invariant
            bi <= bindings@.len(),
            forall|i: int| 0 <= i < bi ==> binding_ok(instance@, #[trigger] bindings@[i]),
            gates_ok(gates@, *t, rows as int),
        decreases bindings@.len() - bi,
    {
        let b = bindings[bi];
        if b.row < instance.len() {
            if !(instance[b.row] == b.value) {
                proof {
                    assert(!binding_ok(instance@, bindings@[bi as int]));
                }
                return false;
            }
        }
        bi = bi + 1;
    }
    true
}

/// The config exactly as `configure` allocates it.
pub open spec fn fixed_config() -> ExponentiationConfig {
    ExponentiationConfig {
        col_y: 0,
        col_x: 1,
        col_n: 2,
        col_n_acc: 3,
        const_2_power_col: 1,
        selector: 0,
        instance: 0,
    }
}

/// The backend accepts a table against public inputs `inst`: the three
/// declared gates vanish at every row after the base row, and the two
/// exposed cells — the final result and the final bit reconstruction —
/// equal their public-input slots, 1 and `len + 2`.
pub open spec fn circuit_accepts(t: Table, inst: Seq<Felt>, len: nat) -> bool {
    &&& gates_ok(declared_gates(fixed_config()), t, len as int)
    &&& binding_ok(inst, Binding { value: t.advice@[3]@[len - 1], row: (len + 2) as usize })
    &&& binding_ok(inst, Binding { value: t.advice@[0]@[len - 1], row: 1 })
}

/// Declares the circuit, assigns the witness table for `len` rows from the
/// public inputs, exposes the final bit reconstruction and the final
/// result, and checks every constraint: the whole round a mock backend
/// would run.
pub fn check_circuit(len: usize, instance: &Vec<Felt>) -> (r: Result<bool, Error>)
    requires
        instance_canonical(instance@),
    ensures
        ((r is Ok) <==> (1 <= len && len + 2 <= instance@.len())),
        ((r is Err) ==> (r matches Err(e) && ((e == Error::EmptyRegion) <==> len == 0))),
        (r matches Ok(b) ==> exists|t: Table|
            table_assigned(t, instance@, len as nat) && b == circuit_accepts(
                t,
                instance@,
                len as nat,
            )),
{
    let mut meta = ConstraintSystem::new();
    let config = ExponentiationChip::configure(&mut meta);
    let chip = ExponentiationChip::construct(config);
    let table = match chip.assign(instance, len) {
        Ok(t) => t,
        Err(e) => {
            return Err(e);
        },
    };
    let ilen: usize = instance.len();
    proof {
        assert(len + 2 <= ilen);
    }
    let mut bindings: Vec<Binding> = Vec::new();
    let acc_last = table.advice[3][len - 1];
    let y_last = table.advice[0][len - 1];
    chip.expose_public(&mut bindings, &acc_last, len + 2);
    chip.expose_public(&mut bindings, &y_last, 1);
    proof {
        lemma_gates_wf(config, table, len as int);
        assert(meta.gates@ =~= declared_gates(config));
        assert(config == fixed_config());
    }
    let ok = is_satisfied(&meta.gates, &table, len, instance, &bindings);
    proof {
        let b_acc = Binding { value: table.advice@[3]@[len - 1], row: (len + 2) as usize };
        let b_y = Binding { value: table.advice@[0]@[len - 1], row: 1 };
        assert(bindings@ =~= seq![b_acc, b_y]);
        assert(bindings_ok(instance@, bindings@) <==> (binding_ok(instance@, b_acc)
            && binding_ok(instance@, b_y))) by {
            assert(bindings@[0] == b_acc);
            assert(bindings@[1] == b_y);
        }
        assert(ok == circuit_accepts(table, instance@, len as nat));
        assert(table_assigned(table, instance@, len as nat));
    }
    Ok(ok)
}

} // verus!
