//! The laws the gadget obeys: every declared gate vanishes on the table the
//! assignment fills; the squaring, conditional-multiply and
//! bit-accumulation ladders are what the gates say; and against public
//! inputs claiming `y = x^n` through boolean bits, the constraint check
//! accepts exactly the true claims.

use vstd::prelude::*;
use vstd::arithmetic::div_mod::lemma_mod_twice;
use vstd::arithmetic::div_mod::lemma_sub_mod_noop;
use vstd::arithmetic::div_mod::lemma_mul_mod_noop_general;
use vstd::arithmetic::mul::lemma_mul_is_associative;
use vstd::arithmetic::mul::lemma_mul_is_commutative;
use vstd::arithmetic::div_mod::lemma_mod_breakdown;
use vstd::arithmetic::power2::pow2;
use vstd::bits::lemma_u64_shr_is_div;

use crate::field::Felt;
use crate::field::p;
use crate::field::fadd;
use crate::field::fsub;
use crate::field::fmul;
use crate::field::lemma_reduced;
use crate::field::lemma_op_reduced;
use crate::field::lemma_fadd_congruent;
use crate::field::lemma_fsub_congruent;
use crate::field::lemma_fmul_congruent;
use crate::field::lemma_value_injective;
use crate::expr::Table;
use crate::expr::eval_spec;
use crate::circuit::Binding;
use crate::circuit::binding_ok;
use crate::circuit::gates_ok;
use crate::circuit::circuit_accepts;
use crate::circuit::declared_gates;
use crate::circuit::fixed_config;
use crate::circuit::mul_gate;
use crate::circuit::square_gate;
use crate::circuit::acc_gate;
use crate::circuit::lemma_gate_values;
use crate::circuit::mul_gate_value;
use crate::circuit::square_gate_value;
use crate::circuit::acc_gate_value;
use crate::circuit::instance_canonical;
use crate::circuit::table_assigned;
use crate::circuit::spec_x;
use crate::circuit::spec_y;
use crate::circuit::spec_nb;
use crate::circuit::spec_acc;
use crate::circuit::spec_pw;
use crate::utils::bit_of;

verus! {

/// Field exponentiation: `x^e` reduced modulo the field order.
pub open spec fn fpow(x: int, e: nat) -> int
    decreases e,
{
    if e == 0 {
        1
    } else {
        fmul(x, fpow(x, (e - 1) as nat))
    }
}

/// `2^k` as an integer.
pub open spec fn pot(k: nat) -> int
    decreases k,
{
    if k == 0 {
        1
    } else {
        2 * pot((k - 1) as nat)
    }
}

/// The integer the first `k` exponent bits encode, least-significant bit
/// first.
pub open spec fn bits_int(inst: Seq<Felt>, k: nat) -> int
    decreases k,
{
    if k == 0 {
        0
    } else {
        bits_int(inst, (k - 1) as nat) + spec_nb(inst, (k - 1) as nat) * pot((k - 1) as nat)
    }
}

/// Each of the `len` exponent bits in the public inputs is exactly zero or
/// one.
pub open spec fn bits_boolean(inst: Seq<Felt>, len: nat) -> bool {
    forall|i: int|
        0 <= i < len ==> ((#[trigger] inst[2 + i]).value() == 0 || inst[2 + i].value() == 1)
}

/// `pot` agrees with the arithmetic library's power-of-two function.
proof fn lemma_pot_is_pow2(k: nat)
    ensures
        pot(k) == pow2(k),
    decreases k,
{
    if k == 0 {
        assert(pow2(0) == 1) by {
            vstd::arithmetic::power2::lemma2_to64();
        }
    } else {
        lemma_pot_is_pow2((k - 1) as nat);
        vstd::arithmetic::power2::lemma_pow2_unfold(k);
    }
}

/// The bits `u64_to_bits_rev` supplies encode the exponent itself: the
/// integer the first `len` bits spell, least-significant bit first, is the
/// exponent reduced modulo `2^len`.
pub proof fn lemma_bits_encode(input: u64, inst: Seq<Felt>, len: nat)
    requires
        len <= 64,
        forall|i: int|
            0 <= i < len ==> (#[trigger] inst[2 + i]).value() == bit_of(input, i as u64),
    ensures
        bits_int(inst, len) == (input as int) % pot(len),
    decreases len,
{
    if len == 0 {
        assert(input as int % 1int == 0);
    } else {
        let k = (len - 1) as nat;
        lemma_bits_encode(input, inst, k);
        lemma_pot_is_pow2(k);
        lemma_pot_pos(k);
        lemma_u64_shr_is_div(input, k as u64);
        let sh = input >> (k as u64);
        assert(sh & 1 == sh % 2) by (bit_vector);
        assert(spec_nb(inst, k) == (input as int / pot(k)) % 2);
        lemma_mod_breakdown(input as int, pot(k), 2);
        assert(pot(len) == pot(k) * 2);
        lemma_mul_is_commutative(pot(k), (input as int / pot(k)) % 2);
    }
}

/// Powers of two are positive.
pub proof fn lemma_pot_pos(k: nat)
    ensures
        pot(k) >= 1,
    decreases k,
{
    if k > 0 {
        lemma_pot_pos((k - 1) as nat);
    }
}

/// With boolean bits, the encoded integer lies below `2^k`.
pub proof fn lemma_bits_int_bounds(inst: Seq<Felt>, k: nat)
    requires
        bits_boolean(inst, k),
    ensures
        0 <= bits_int(inst, k) < pot(k),
    decreases k,
{
    if k == 0 {
        lemma_pot_pos(0);
    } else {
        lemma_bits_int_bounds(inst, (k - 1) as nat);
        lemma_pot_pos((k - 1) as nat);
        assert(inst[2 + (k - 1)].value() == 0 || inst[2 + (k - 1)].value() == 1);
    }
}

/// `fpow` returns a reduced value.
pub proof fn lemma_fpow_reduced(x: int, e: nat)
    ensures
        0 <= fpow(x, e) < p(),
        fpow(x, e) % p() == fpow(x, e),
    decreases e,
{
    if e == 0 {
        lemma_reduced(1);
    } else {
        lemma_op_reduced(x, fpow(x, (e - 1) as nat));
    }
}

/// Field multiplication is associative.
pub proof fn lemma_fmul_assoc(a: int, b: int, c: int)
    ensures
        fmul(fmul(a, b), c) == fmul(a, fmul(b, c)),
{
    lemma_mul_mod_noop_general(a * b, c, p());
    lemma_mul_mod_noop_general(a, b * c, p());
    lemma_mul_is_associative(a, b, c);
}

/// Exponents add under field multiplication.
pub proof fn lemma_fpow_adds(x: int, a: nat, b: nat)
    ensures
        fmul(fpow(x, a), fpow(x, b)) == fpow(x, (a + b) as nat),
    decreases a,
{
    if a == 0 {
        lemma_fpow_reduced(x, b);
        assert(1 * fpow(x, b) == fpow(x, b));
    } else {
        let u = fpow(x, (a - 1) as nat);
        let v = fpow(x, b);
        lemma_fmul_assoc(x, u, v);
        lemma_fpow_adds(x, (a - 1) as nat, b);
        assert(fpow(x, (a + b) as nat) == fmul(x, fpow(x, (a + b - 1) as nat)));
    }
}

/// The squared-base ladder climbs the powers of the base: row `i` of the
/// `x` column is `x^(2^i)`.
pub proof fn lemma_x_ladder(inst: Seq<Felt>, i: nat)
    requires
        0 <= inst[0].value() < p(),
    ensures
        spec_x(inst, i) == fpow(inst[0].value(), pot(i) as nat),
    decreases i,
{
    let x0 = inst[0].value();
    lemma_pot_pos(i);
    if i == 0 {
        lemma_reduced(x0);
        assert(fpow(x0, 1) == fmul(x0, fpow(x0, 0)));
        assert(x0 * 1 == x0);
    } else {
        lemma_pot_pos((i - 1) as nat);
        lemma_x_ladder(inst, (i - 1) as nat);
        lemma_fpow_adds(x0, pot((i - 1) as nat) as nat, pot((i - 1) as nat) as nat);
        assert(pot(i) == 2 * pot((i - 1) as nat));
    }
}

/// The result ladder computes the exponentiation: with boolean bits, row
/// `i` of the `y` column is the base raised to the integer the first `i`
/// bits encode.
pub proof fn lemma_y_ladder(inst: Seq<Felt>, i: nat)
    requires
        0 <= inst[0].value() < p(),
        bits_boolean(inst, i),
    ensures
        spec_y(inst, i) == fpow(inst[0].value(), bits_int(inst, i) as nat),
    decreases i,
{
    let x0 = inst[0].value();
    if i != 0 {
        let k = (i - 1) as nat;
        let b = spec_nb(inst, k);
        let yp = spec_y(inst, k);
        let xp = spec_x(inst, k);
        assert(bits_boolean(inst, k));
        lemma_y_ladder(inst, k);
        lemma_x_ladder(inst, k);
        lemma_bits_int_bounds(inst, k);
        lemma_pot_pos(k);
        let e_y: nat = bits_int(inst, k) as nat;
        let e_x: nat = pot(k) as nat;
        lemma_fpow_reduced(x0, e_y);
        lemma_fpow_reduced(x0, e_x);
        assert(b == 0 || b == 1);
        if b == 1 {
            let z = fmul(yp, xp);
            lemma_op_reduced(yp, xp);
            assert(fsub(1, 1) == 0) by {
                lemma_reduced(0);
            }
            assert(fmul(0, yp) == 0) by {
                assert(0 * yp == 0);
                lemma_reduced(0);
            }
            assert(fmul(1, z) == z) by {
                assert(1 * z == z);
            }
            assert(fadd(z, 0) == z) by {
                assert(z + 0 == z);
            }
            assert(spec_y(inst, i) == z);
            lemma_fpow_adds(x0, e_y, e_x);
            assert(bits_int(inst, i) == bits_int(inst, k) + pot(k));
        } else {
            assert(fmul(0, fmul(yp, xp)) == 0) by {
                assert(0 * fmul(yp, xp) == 0);
                lemma_reduced(0);
            }
            assert(fsub(1, 0) == 1) by {
                lemma_reduced(1);
            }
            assert(fmul(1, yp) == yp) by {
                assert(1 * yp == yp);
            }
            assert(fadd(0, yp) == yp) by {
                assert(0 + yp == yp);
            }
            assert(spec_y(inst, i) == yp);
            assert(bits_int(inst, i) == bits_int(inst, k));
        }
    }
}

/// The fixed column of powers of two holds the residues of `2^i`.
pub proof fn lemma_pw_pot(i: nat)
    ensures
        spec_pw(i) == pot(i) % p(),
    decreases i,
{
    if i == 0 {
        lemma_reduced(1);
    } else {
        let k = (i - 1) as nat;
        lemma_pw_pot(k);
        lemma_mod_twice(pot(k), p());
        lemma_fadd_congruent(spec_pw(k), spec_pw(k), pot(k), pot(k));
        assert(pot(k) + pot(k) == pot(i));
    }
}

/// The bit-reconstruction ladder accumulates the residue of the integer
/// the bits encode, whatever the bit values are.
pub proof fn lemma_acc_ladder(inst: Seq<Felt>, i: nat)
    ensures
        spec_acc(inst, i) == bits_int(inst, i) % p(),
    decreases i,
{
    if i == 0 {
        lemma_reduced(0);
    } else {
        let k = (i - 1) as nat;
        lemma_acc_ladder(inst, k);
        let b = spec_nb(inst, k);
        lemma_pw_pot(k);
        lemma_mod_twice(pot(k), p());
        lemma_fmul_congruent(b, spec_pw(k), b, pot(k));
        lemma_mod_twice(b * pot(k), p());
        lemma_mod_twice(bits_int(inst, k), p());
        lemma_fadd_congruent(spec_acc(inst, k), fmul(b, spec_pw(k)), bits_int(inst, k), b * pot(k));
    }
}

/// When the current `y` cell is the branch-weighted combination the ladder
/// assigns, the conditional-multiply bracket vanishes — for every bit
/// value, boolean or not.
pub proof fn lemma_mul_bracket_zero(b: int, yp: int, xp: int, yc: int)
    requires
        yc == fadd(fmul(b, fmul(yp, xp)), fmul(fsub(1, b), yp)),
    ensures
        fadd(fmul(b, fsub(yc, fmul(yp, xp))), fmul(fsub(1, b), fsub(yc, yp))) == 0,
{
    let m = p();
    let q = yp * xp;
    let lhs_int = b * (yc - q) + (1 - b) * (yc - yp);
    let rhs_int = b * q + (1 - b) * yp;

    // the bracket is congruent to its unreduced integer form
    lemma_mod_twice(q, m);
    lemma_fsub_congruent(yc, fmul(yp, xp), yc, q);
    lemma_mod_twice(yc - q, m);
    lemma_fmul_congruent(b, fsub(yc, q), b, yc - q);
    lemma_mod_twice(yc - yp, m);
    lemma_fmul_congruent(fsub(1, b), fsub(yc, yp), fsub(1, b), yc - yp);
    lemma_mod_twice(1 - b, m);
    lemma_fmul_congruent(fsub(1, b), yc - yp, 1 - b, yc - yp);
    lemma_mod_twice(b * (yc - q), m);
    lemma_mod_twice((1 - b) * (yc - yp), m);
    lemma_fadd_congruent(
        fmul(b, fsub(yc, fmul(yp, xp))),
        fmul(fsub(1, b), fsub(yc, yp)),
        b * (yc - q),
        (1 - b) * (yc - yp),
    );
    assert(fadd(fmul(b, fsub(yc, fmul(yp, xp))), fmul(fsub(1, b), fsub(yc, yp))) == lhs_int % m);

    // the assigned cell is congruent to its unreduced integer form
    lemma_fmul_congruent(b, fmul(yp, xp), b, q);
    lemma_fmul_congruent(fsub(1, b), yp, 1 - b, yp);
    lemma_mod_twice(b * q, m);
    lemma_mod_twice((1 - b) * yp, m);
    lemma_fadd_congruent(fmul(b, fmul(yp, xp)), fmul(fsub(1, b), yp), b * q, (1 - b) * yp);
    assert(yc == rhs_int % m);

    // weighting both branches by the bit telescopes to a plain difference
    assert(lhs_int == yc - rhs_int) by (nonlinear_arith)
        requires
            lhs_int == b * (yc - q) + (1 - b) * (yc - yp),
            rhs_int == b * q + (1 - b) * yp;

    lemma_sub_mod_noop(yc, rhs_int, m);
    lemma_mod_twice(rhs_int, m);
    lemma_reduced(0);
    assert((yc - rhs_int) % m == (yc % m - rhs_int % m) % m);
    assert(yc % m == rhs_int % m);
}

/// Every gate the gadget declares vanishes, at every row after the base
/// row, on the table the assignment fills: the witness satisfies the
/// constraint system it was generated for.
pub proof fn lemma_assigned_gates_hold(t: Table, inst: Seq<Felt>, len: nat)
    requires
        table_assigned(t, inst, len),
    ensures
        gates_ok(declared_gates(fixed_config()), t, len as int),
{
    let cfg = fixed_config();
    assert forall|g: int, r: int|
        0 <= g < declared_gates(cfg).len() && 1 <= r < len implies #[trigger] eval_spec(
        declared_gates(cfg)[g],
        t,
        r,
    ) == 0 by {
        lemma_gate_values(cfg, t, r);
        lemma_reduced(0);
        let b = t.adv(2, r - 1);
        let yp = t.adv(0, r - 1);
        let yc = t.adv(0, r);
        let xp = t.adv(1, r - 1);
        let xc = t.adv(1, r);
        let ap = t.adv(3, r - 1);
        let ac = t.adv(3, r);
        let pw = t.fix(1, r - 1);
        assert(t.advice@[2]@[r - 1] == inst[2 + (r - 1)]);
        assert(b == spec_nb(inst, (r - 1) as nat));
        assert(yc == spec_y(inst, r as nat));
        assert(yp == spec_y(inst, (r - 1) as nat));
        assert(xc == spec_x(inst, r as nat));
        assert(xp == spec_x(inst, (r - 1) as nat));
        assert(ac == spec_acc(inst, r as nat));
        assert(ap == spec_acc(inst, (r - 1) as nat));
        assert(pw == spec_pw((r - 1) as nat));
        if g == 0 {
            assert(declared_gates(cfg)[g] == mul_gate(cfg));
            let bracket = fadd(fmul(b, fsub(yc, fmul(yp, xp))), fmul(fsub(1, b), fsub(yc, yp)));
            if t.selector@[r] {
                assert(yc == fadd(fmul(b, fmul(yp, xp)), fmul(fsub(1, b), yp)));
                lemma_mul_bracket_zero(b, yp, xp, yc);
                assert(t.sel(r) == 1);
                assert(1 * bracket == bracket);
                assert(mul_gate_value(t, cfg, r) == bracket % p());
            } else {
                assert(t.sel(r) == 0);
                assert(0 * bracket == 0);
                assert(mul_gate_value(t, cfg, r) == 0int % p());
            }
        } else if g == 1 {
            assert(declared_gates(cfg)[g] == square_gate(cfg));
            assert(xc == fmul(xp, xp));
            assert(square_gate_value(t, cfg, r) == fsub(xc, fmul(xp, xp)));
            assert(xc - fmul(xp, xp) == 0);
        } else {
            assert(declared_gates(cfg)[g] == acc_gate(cfg));
            let inner = fadd(ap, fmul(b, pw));
            assert(ac == inner);
            assert(ac - inner == 0);
            assert(fsub(ac, inner) == 0);
            if t.selector@[r] {
                assert(t.sel(r) == 1);
                assert(1 * fsub(ac, inner) == 0);
            } else {
                assert(t.sel(r) == 0);
                assert(0 * fsub(ac, inner) == 0);
            }
            assert(acc_gate_value(t, cfg, r) == 0int % p());
        }
    }
}

/// The branch-weighted combination collapses to the branch a boolean bit
/// picks: the multiply branch on one, the unchanged value on zero.
pub proof fn lemma_branch_formula(b: int, yp: int, xp: int)
    requires
        0 <= yp < p(),
        b == 0 || b == 1,
    ensures
        b == 1 ==> fadd(fmul(b, fmul(yp, xp)), fmul(fsub(1, b), yp)) == fmul(yp, xp),
        b == 0 ==> fadd(fmul(b, fmul(yp, xp)), fmul(fsub(1, b), yp)) == yp,
{
    lemma_reduced(0);
    lemma_reduced(1);
    lemma_reduced(yp);
    lemma_op_reduced(yp, xp);
    if b == 1 {
        let z = fmul(yp, xp);
        assert(fsub(1, 1) == 0);
        assert(fmul(0, yp) == 0) by {
            assert(0 * yp == 0);
        }
        assert(fmul(1, z) == z) by {
            assert(1 * z == z);
        }
        assert(fadd(z, 0) == z) by {
            assert(z + 0 == z);
        }
    } else {
        assert(fmul(0, fmul(yp, xp)) == 0) by {
            assert(0 * fmul(yp, xp) == 0);
        }
        assert(fsub(1, 0) == 1);
        assert(fmul(1, yp) == yp) by {
            assert(1 * yp == yp);
        }
        assert(fadd(0, yp) == yp) by {
            assert(0 + yp == yp);
        }
    }
}

/// Squaring-ladder correctness: on the assigned table, every `x` cell is
/// the square of the one above it, whatever the bit values are.
pub proof fn squaring_ladder_correct(t: Table, inst: Seq<Felt>, len: nat, i: int)
    requires
        table_assigned(t, inst, len),
        1 <= i < len,
    ensures
        t.adv(1, i) == fmul(t.adv(1, i - 1), t.adv(1, i - 1)),
{
    assert(t.adv(1, i) == spec_x(inst, i as nat));
    assert(t.adv(1, i - 1) == spec_x(inst, (i - 1) as nat));
}

/// Conditional-multiply correctness: on the assigned table, when the bit
/// above a `y` cell is one the cell is the product of the previous `y` and
/// `x` cells, and when it is zero the previous `y` cell unchanged.
pub proof fn conditional_multiply_correct(t: Table, inst: Seq<Felt>, len: nat, i: int)
    requires
        table_assigned(t, inst, len),
        1 <= i < len,
        inst[2 + (i - 1)].value() == 0 || inst[2 + (i - 1)].value() == 1,
    ensures
        inst[2 + (i - 1)].value() == 1 ==> t.adv(0, i) == fmul(t.adv(0, i - 1), t.adv(1, i - 1)),
        inst[2 + (i - 1)].value() == 0 ==> t.adv(0, i) == t.adv(0, i - 1),
{
    let b = spec_nb(inst, (i - 1) as nat);
    let yp = t.adv(0, i - 1);
    let xp = t.adv(1, i - 1);
    assert(t.advice@[0]@[i - 1].canonical());
    assert(yp == spec_y(inst, (i - 1) as nat));
    assert(xp == spec_x(inst, (i - 1) as nat));
    assert(t.adv(0, i) == spec_y(inst, i as nat));
    lemma_branch_formula(b, yp, xp);
}

/// Bit-reconstruction correctness: when the last bit is zero, the final
/// `n_acc` cell holds the residue of the integer all `len` bits encode,
/// least-significant bit first.
pub proof fn bit_reconstruction_correct(t: Table, inst: Seq<Felt>, len: nat)
    requires
        table_assigned(t, inst, len),
        1 <= len,
        spec_nb(inst, (len - 1) as nat) == 0,
    ensures
        t.adv(3, len - 1) == bits_int(inst, len) % p(),
{
    lemma_acc_ladder(inst, (len - 1) as nat);
    assert(t.adv(3, len - 1) == spec_acc(inst, (len - 1) as nat));
    assert(bits_int(inst, len) == bits_int(inst, (len - 1) as nat) + spec_nb(
        inst,
        (len - 1) as nat,
    ) * pot((len - 1) as nat));
    assert(0 * pot((len - 1) as nat) == 0);
}

/// Soundness, the accepting direction: on public inputs whose bits are
/// boolean with a zero last bit, whose claimed result is the base raised to
/// the integer the bits encode, and whose exponent slot — when supplied —
/// is the residue of that integer, the assigned table satisfies every
/// declared gate and both exposed bindings.
pub proof fn soundness_positive(t: Table, inst: Seq<Felt>, len: nat)
    requires
        table_assigned(t, inst, len),
        1 <= len,
        len + 2 <= inst.len(),
        len + 2 <= usize::MAX,
        instance_canonical(inst),
        bits_boolean(inst, len),
        spec_nb(inst, (len - 1) as nat) == 0,
        inst[1].value() == fpow(inst[0].value(), bits_int(inst, len) as nat),
        len + 2 < inst.len() ==> inst[len + 2 as int].value() == bits_int(inst, len) % p(),
    ensures
        circuit_accepts(t, inst, len),
{
    lemma_assigned_gates_hold(t, inst, len);
    let k = (len - 1) as nat;
    assert(inst[0].canonical());
    assert(bits_boolean(inst, k));
    lemma_y_ladder(inst, k);
    lemma_bits_int_bounds(inst, k);
    assert(bits_int(inst, len) == bits_int(inst, k)) by {
        assert(0 * pot(k) == 0);
    }
    let ycell = t.advice@[0]@[len - 1];
    assert(ycell.canonical());
    assert(t.adv(0, len - 1) == spec_y(inst, (len - 1) as nat));
    assert(ycell.value() == t.adv(0, len - 1));
    assert(ycell.value() == spec_y(inst, k));
    assert(inst[1].value() == ycell.value());
    assert(inst[1].canonical());
    lemma_value_injective(inst[1], ycell);
    assert(binding_ok(inst, Binding { value: ycell, row: 1 }));
    let acell = t.advice@[3]@[len - 1];
    assert(acell.canonical());
    if len + 2 < inst.len() {
        lemma_acc_ladder(inst, k);
        assert(t.adv(3, len - 1) == spec_acc(inst, (len - 1) as nat));
        assert(acell.value() == t.adv(3, len - 1));
        assert(acell.value() == bits_int(inst, k) % p());
        assert(inst[len + 2 as int].canonical());
        lemma_value_injective(inst[len + 2 as int], acell);
    }
    assert(binding_ok(inst, Binding { value: acell, row: (len + 2) as usize }));
}

/// Soundness, the rejecting direction: on the same public inputs but with
/// any claimed result other than the base raised to the encoded integer,
/// the constraint check fails — the final `y` cell cannot match its slot.
pub proof fn soundness_negative(t: Table, inst: Seq<Felt>, len: nat)
    requires
        table_assigned(t, inst, len),
        1 <= len,
        len + 2 <= inst.len(),
        len + 2 <= usize::MAX,
        instance_canonical(inst),
        bits_boolean(inst, len),
        spec_nb(inst, (len - 1) as nat) == 0,
        inst[1].value() != fpow(inst[0].value(), bits_int(inst, len) as nat),
    ensures
        !circuit_accepts(t, inst, len),
{
    let k = (len - 1) as nat;
    assert(inst[0].canonical());
    assert(bits_boolean(inst, k));
    lemma_y_ladder(inst, k);
    lemma_bits_int_bounds(inst, k);
    assert(bits_int(inst, len) == bits_int(inst, k)) by {
        assert(0 * pot(k) == 0);
    }
    let ycell = t.advice@[0]@[len - 1];
    assert(t.adv(0, len - 1) == spec_y(inst, (len - 1) as nat));
    assert(ycell.value() == t.adv(0, len - 1));
    assert(ycell.value() == spec_y(inst, k));
    assert(inst[1].value() != ycell.value());
    assert(!binding_ok(inst, Binding { value: ycell, row: 1 }));
}

/// On two tables assigned from the same public inputs, every declared gate
/// takes the same value at the same row.
proof fn lemma_row_determined(t1: Table, t2: Table, inst: Seq<Felt>, len: nat, r: int)
    requires
        table_assigned(t1, inst, len),
        table_assigned(t2, inst, len),
        1 <= r < len,
    ensures
        mul_gate_value(t1, fixed_config(), r) == mul_gate_value(t2, fixed_config(), r),
        square_gate_value(t1, fixed_config(), r) == square_gate_value(t2, fixed_config(), r),
        acc_gate_value(t1, fixed_config(), r) == acc_gate_value(t2, fixed_config(), r),
{
    assert(t1.advice@[2]@[r - 1] == inst[2 + (r - 1)]);
    assert(t2.advice@[2]@[r - 1] == inst[2 + (r - 1)]);
    assert(t1.adv(2, r - 1) == t2.adv(2, r - 1));
    assert(t1.adv(0, r) == t2.adv(0, r));
    assert(t1.adv(0, r - 1) == t2.adv(0, r - 1));
    assert(t1.adv(1, r) == t2.adv(1, r));
    assert(t1.adv(1, r - 1) == t2.adv(1, r - 1));
    assert(t1.adv(3, r) == t2.adv(3, r));
    assert(t1.adv(3, r - 1) == t2.adv(3, r - 1));
    assert(t1.fix(1, r - 1) == t2.fix(1, r - 1));
    assert(t1.sel(r) == t2.sel(r));
}

/// Soundness of the exponent cross-check: when the extended exponent slot
/// is supplied but does not hold the residue of the integer the bits
/// encode, the constraint check fails — the final `n_acc` cell cannot
/// match its slot.
pub proof fn soundness_exponent_slot(t: Table, inst: Seq<Felt>, len: nat)
    requires
        table_assigned(t, inst, len),
        1 <= len,
        len + 2 < inst.len(),
        len + 2 <= usize::MAX,
        spec_nb(inst, (len - 1) as nat) == 0,
        inst[len + 2 as int].value() != bits_int(inst, len) % p(),
    ensures
        !circuit_accepts(t, inst, len),
{
    let k = (len - 1) as nat;
    lemma_acc_ladder(inst, k);
    assert(bits_int(inst, len) == bits_int(inst, k)) by {
        assert(0 * pot(k) == 0);
    }
    let acell = t.advice@[3]@[len - 1];
    assert(t.adv(3, len - 1) == spec_acc(inst, (len - 1) as nat));
    assert(acell.value() == t.adv(3, len - 1));
    assert(acell.value() == bits_int(inst, len) % p());
    assert(!binding_ok(inst, Binding { value: acell, row: (len + 2) as usize }));
}

/// The whole statement: on public inputs with boolean bits and a zero last
/// bit, the constraint check accepts exactly when the claimed result is the
/// base raised to the integer the bits encode and the exponent slot, when
/// supplied, carries that integer's residue.
pub proof fn lemma_verdict(t: Table, inst: Seq<Felt>, len: nat)
    requires
        table_assigned(t, inst, len),
        1 <= len,
        len + 2 <= inst.len(),
        len + 2 <= usize::MAX,
        instance_canonical(inst),
        bits_boolean(inst, len),
        spec_nb(inst, (len - 1) as nat) == 0,
    ensures
        circuit_accepts(t, inst, len) <==> (inst[1].value() == fpow(
            inst[0].value(),
            bits_int(inst, len) as nat,
        ) && (len + 2 < inst.len() ==> inst[len + 2 as int].value() == bits_int(inst, len)
            % p())),
{
    if inst[1].value() != fpow(inst[0].value(), bits_int(inst, len) as nat) {
        soundness_negative(t, inst, len);
    } else if len + 2 < inst.len() && inst[len + 2 as int].value() != bits_int(inst, len) % p() {
        soundness_exponent_slot(t, inst, len);
    } else {
        soundness_positive(t, inst, len);
    }
}

/// Acceptance carries over from one assigned table to another: used in both
/// directions below.
proof fn lemma_accepts_transfers(t1: Table, t2: Table, inst: Seq<Felt>, len: nat)
    requires
        table_assigned(t1, inst, len),
        table_assigned(t2, inst, len),
        1 <= len,
        circuit_accepts(t1, inst, len),
    ensures
        circuit_accepts(t2, inst, len),
{
    let cfg = fixed_config();
    assert forall|g: int, r: int|
        0 <= g < declared_gates(cfg).len() && 1 <= r < len implies #[trigger] eval_spec(
        declared_gates(cfg)[g],
        t2,
        r,
    ) == 0 by {
        assert(eval_spec(declared_gates(cfg)[g], t1, r) == 0);
        lemma_gate_values(cfg, t1, r);
        lemma_gate_values(cfg, t2, r);
        lemma_row_determined(t1, t2, inst, len, r);
        if g == 0 {
            assert(declared_gates(cfg)[g] == mul_gate(cfg));
        } else if g == 1 {
            assert(declared_gates(cfg)[g] == square_gate(cfg));
        } else {
            assert(declared_gates(cfg)[g] == acc_gate(cfg));
        }
    }
    assert(t1.adv(0, len - 1) == t2.adv(0, len - 1));
    assert(t1.advice@[0]@[len - 1].canonical());
    assert(t2.advice@[0]@[len - 1].canonical());
    lemma_value_injective(t1.advice@[0]@[len - 1], t2.advice@[0]@[len - 1]);
    assert(t1.adv(3, len - 1) == t2.adv(3, len - 1));
    lemma_value_injective(t1.advice@[3]@[len - 1], t2.advice@[3]@[len - 1]);
}

/// Witness assignment is deterministic: any two tables assigned from the
/// same public inputs agree on every cell the circuit constrains, so the
/// backend's verdict is a function of the public inputs alone.
pub proof fn lemma_assignment_deterministic(t1: Table, t2: Table, inst: Seq<Felt>, len: nat)
    requires
        table_assigned(t1, inst, len),
        table_assigned(t2, inst, len),
        1 <= len,
    ensures
        circuit_accepts(t1, inst, len) == circuit_accepts(t2, inst, len),
{
    if circuit_accepts(t1, inst, len) {
        lemma_accepts_transfers(t1, t2, inst, len);
    }
    if circuit_accepts(t2, inst, len) {
        lemma_accepts_transfers(t2, t1, inst, len);
    }
}

} // verus!
