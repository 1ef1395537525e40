//! Field elements of the pasta base field.
//!
//! A `Felt` holds the canonical little-endian limbs of an element of the
//! prime field of order `p()`.  The arithmetic itself (reduction modulo a
//! 255-bit prime) is performed by the pasta curves implementation behind
//! three trusted wrappers; everything else about `Felt` is verified.

use vstd::prelude::*;
use vstd::arithmetic::div_mod::lemma_fundamental_div_mod_converse_div;
use vstd::arithmetic::div_mod::lemma_fundamental_div_mod_converse_mod;

use halo2_proofs::pasta::Fp;
use halo2_proofs::pasta::group::ff::PrimeField;

verus! {

/// The order of the pasta base field: a 255-bit prime.
pub open spec fn p() -> int {
    0x40000000000000000000000000000000224698fc094cf91b992d30ed00000001int
}

/// Field addition on representatives: the sum reduced modulo `p()`.
pub open spec fn fadd(a: int, b: int) -> int {
    (a + b) % p()
}

/// Field subtraction on representatives: the difference reduced modulo `p()`.
pub open spec fn fsub(a: int, b: int) -> int {
    (a - b) % p()
}

/// Field multiplication on representatives: the product reduced modulo `p()`.
pub open spec fn fmul(a: int, b: int) -> int {
    (a * b) % p()
}

/// A field element, stored as four 64-bit little-endian limbs.
#[derive(Clone, Copy, Debug, PartialEq, Eq, Structural)]
pub struct Felt {
    pub l0: u64,
    pub l1: u64,
    pub l2: u64,
    pub l3: u64,
}

impl Felt {
    /// The integer the four limbs spell in base 2^64.
    pub open spec fn value(self) -> int {
        self.l0 + self.l1 * 0x10000000000000000int
            + self.l2 * 0x100000000000000000000000000000000int
            + self.l3 * 0x1000000000000000000000000000000000000000000000000int
    }

    /// The limbs are the canonical representative: below the field order.
    pub open spec fn canonical(self) -> bool {
        self.value() < p()
    }
}

/// Two canonical elements with the same value have the same limbs: each limb
/// is a base-2^64 digit of the value, so the representation is unique.
pub proof fn lemma_value_injective(a: Felt, b: Felt)
    requires
        a.value() == b.value(),
    ensures
        a == b,
{
    lemma_limbs_unique(a.l0 as int, a.l1 as int, a.l2 as int, a.l3 as int, a.value());
    lemma_limbs_unique(b.l0 as int, b.l1 as int, b.l2 as int, b.l3 as int, b.value());
}

/// The base-2^64 digits of `v == l0 + 2^64 l1 + 2^128 l2 + 2^192 l3` are
/// recovered by repeated division, so they are functions of `v` alone.
proof fn lemma_limbs_unique(l0: int, l1: int, l2: int, l3: int, v: int)
    requires
        0 <= l0 < 0x10000000000000000int,
        0 <= l1 < 0x10000000000000000int,
        0 <= l2 < 0x10000000000000000int,
        0 <= l3 < 0x10000000000000000int,
        v == l0 + l1 * 0x10000000000000000int
            + l2 * 0x100000000000000000000000000000000int
            + l3 * 0x1000000000000000000000000000000000000000000000000int,
    ensures
        l0 == v % 0x10000000000000000int,
        l1 == (v / 0x10000000000000000int) % 0x10000000000000000int,
        l2 == ((v / 0x10000000000000000int) / 0x10000000000000000int) % 0x10000000000000000int,
        l3 == ((v / 0x10000000000000000int) / 0x10000000000000000int) / 0x10000000000000000int,
{
    let d: int = 0x10000000000000000int;
    let q1: int = l1 + l2 * d + l3 * d * d;
    let q2: int = l2 + l3 * d;
    assert(v == q1 * d + l0) by (nonlinear_arith)
        requires
            q1 == l1 + l2 * d + l3 * d * d,
            d == 0x10000000000000000int,
            v == l0 + l1 * 0x10000000000000000int
                + l2 * 0x100000000000000000000000000000000int
                + l3 * 0x1000000000000000000000000000000000000000000000000int;
    lemma_fundamental_div_mod_converse_mod(v, d, q1, l0);
    lemma_fundamental_div_mod_converse_div(v, d, q1, l0);
    assert(q1 == q2 * d + l1) by (nonlinear_arith)
        requires
            q1 == l1 + l2 * d + l3 * d * d,
            q2 == l2 + l3 * d;
    lemma_fundamental_div_mod_converse_mod(q1, d, q2, l1);
    lemma_fundamental_div_mod_converse_div(q1, d, q2, l1);
    lemma_fundamental_div_mod_converse_mod(q2, d, l3, l2);
    lemma_fundamental_div_mod_converse_div(q2, d, l3, l2);
}

/// A value already below the field order is its own residue.
pub proof fn lemma_reduced(a: int)
    requires
        0 <= a < p(),
    ensures
        a % p() == a,
{
    vstd::arithmetic::div_mod::lemma_small_mod(a as nat, p() as nat);
}

/// Reducing twice is reducing once, so every field operation returns its
/// own residue.
pub proof fn lemma_op_reduced(a: int, b: int)
    ensures
        fadd(a, b) % p() == fadd(a, b),
        fsub(a, b) % p() == fsub(a, b),
        fmul(a, b) % p() == fmul(a, b),
        0 <= fadd(a, b) < p(),
        0 <= fsub(a, b) < p(),
        0 <= fmul(a, b) < p(),
{
    vstd::arithmetic::div_mod::lemma_mod_twice(a + b, p());
    vstd::arithmetic::div_mod::lemma_mod_twice(a - b, p());
    vstd::arithmetic::div_mod::lemma_mod_twice(a * b, p());
}

/// Field addition respects congruence: operands may be replaced by any
/// integers with the same residue.
pub proof fn lemma_fadd_congruent(a: int, b: int, a2: int, b2: int)
    requires
        a % p() == a2 % p(),
        b % p() == b2 % p(),
    ensures
        fadd(a, b) == fadd(a2, b2),
{
    vstd::arithmetic::div_mod::lemma_add_mod_noop(a, b, p());
    vstd::arithmetic::div_mod::lemma_add_mod_noop(a2, b2, p());
}

/// Field subtraction respects congruence.
pub proof fn lemma_fsub_congruent(a: int, b: int, a2: int, b2: int)
    requires
        a % p() == a2 % p(),
        b % p() == b2 % p(),
    ensures
        fsub(a, b) == fsub(a2, b2),
{
    vstd::arithmetic::div_mod::lemma_sub_mod_noop(a, b, p());
    vstd::arithmetic::div_mod::lemma_sub_mod_noop(a2, b2, p());
}

/// Field multiplication respects congruence.
pub proof fn lemma_fmul_congruent(a: int, b: int, a2: int, b2: int)
    requires
        a % p() == a2 % p(),
        b % p() == b2 % p(),
    ensures
        fmul(a, b) == fmul(a2, b2),
{
    vstd::arithmetic::div_mod::lemma_mul_mod_noop_general(a, b, p());
    vstd::arithmetic::div_mod::lemma_mul_mod_noop_general(a2, b2, p());
}

/// The canonical element representing a small unsigned integer.
pub fn felt_from_u64(v: u64) -> (r: Felt)
    ensures
        r.value() == v as int,
        r.canonical(),
{
    Felt { l0: v, l1: 0, l2: 0, l3: 0 }
}

/// The multiplicative identity.
pub fn felt_one() -> (r: Felt)
    ensures
        r.value() == 1,
        r.canonical(),
{
    felt_from_u64(1)
}

/// The additive identity.
pub fn felt_zero() -> (r: Felt)
    ensures
        r.value() == 0,
        r.canonical(),
{
    felt_from_u64(0)
}

/// Relies on pasta's `Fp` addition: `Fp::from_raw` maps limbs to the field
/// element congruent to them, `+` adds in the field, and
/// `PrimeField::to_repr` returns the canonical little-endian byte
/// representation of the result, below the field order.
#[verifier::external_body]
pub fn felt_add(a: &Felt, b: &Felt) -> (r: Felt)
    ensures
        r.value() == fadd(a.value(), b.value()),
        r.canonical(),
{
    let v = Fp::from_raw([a.l0, a.l1, a.l2, a.l3]) + Fp::from_raw([b.l0, b.l1, b.l2, b.l3]);
    let rep = v.to_repr();
    Felt {
        l0: u64::from_le_bytes(rep[0..8].try_into().unwrap()),
        l1: u64::from_le_bytes(rep[8..16].try_into().unwrap()),
        l2: u64::from_le_bytes(rep[16..24].try_into().unwrap()),
        l3: u64::from_le_bytes(rep[24..32].try_into().unwrap()),
    }
}

/// Relies on pasta's `Fp` subtraction, with `Fp::from_raw` and
/// `PrimeField::to_repr` converting the operands and the result as for
/// `felt_add`.
#[verifier::external_body]
pub fn felt_sub(a: &Felt, b: &Felt) -> (r: Felt)
    ensures
        r.value() == fsub(a.value(), b.value()),
        r.canonical(),
{
    let v = Fp::from_raw([a.l0, a.l1, a.l2, a.l3]) - Fp::from_raw([b.l0, b.l1, b.l2, b.l3]);
    let rep = v.to_repr();
    Felt {
        l0: u64::from_le_bytes(rep[0..8].try_into().unwrap()),
        l1: u64::from_le_bytes(rep[8..16].try_into().unwrap()),
        l2: u64::from_le_bytes(rep[16..24].try_into().unwrap()),
        l3: u64::from_le_bytes(rep[24..32].try_into().unwrap()),
    }
}

/// Relies on pasta's `Fp` multiplication, with `Fp::from_raw` and
/// `PrimeField::to_repr` converting the operands and the result as for
/// `felt_add`.
#[verifier::external_body]
pub fn felt_mul(a: &Felt, b: &Felt) -> (r: Felt)
    ensures
        r.value() == fmul(a.value(), b.value()),
        r.canonical(),
{
    let v = Fp::from_raw([a.l0, a.l1, a.l2, a.l3]) * Fp::from_raw([b.l0, b.l1, b.l2, b.l3]);
    let rep = v.to_repr();
    Felt {
        l0: u64::from_le_bytes(rep[0..8].try_into().unwrap()),
        l1: u64::from_le_bytes(rep[8..16].try_into().unwrap()),
        l2: u64::from_le_bytes(rep[16..24].try_into().unwrap()),
        l3: u64::from_le_bytes(rep[24..32].try_into().unwrap()),
    }
}

} // verus!
