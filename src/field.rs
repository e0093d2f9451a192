//! Arithmetic of the BabyBear prime field and of its degree-four binomial
//! extension (`x^4 = 11`), on canonical `u32` representatives.
use vstd::arithmetic::div_mod::{lemma_mul_mod_noop_left, lemma_mul_mod_noop_right};
use vstd::arithmetic::mul::lemma_mul_is_associative;
use p3_field::{Field, PrimeField32};
use vstd::prelude::*;

verus! {

/// The BabyBear prime `15 * 2^27 + 1`.
pub const MODULUS: u64 = 2013265921;

/// The non-residue `W` of the extension: `x^4 = W`.
pub const EXT_W: u64 = 11;

pub open spec fn fadd(a: int, b: int) -> int {
    (a + b) % (MODULUS as int)
}

pub open spec fn fsub(a: int, b: int) -> int {
    (a - b) % (MODULUS as int)
}

pub open spec fn fmul(a: int, b: int) -> int {
    (a * b) % (MODULUS as int)
}

pub open spec fn fneg(a: int) -> int {
    (-a) % (MODULUS as int)
}

/// `b` is the multiplicative inverse of `a` in the field.
pub open spec fn is_inverse(a: int, b: int) -> bool {
    fmul(a, b) == 1
}

/// An element of the degree-four extension, as four base-field coefficients.
#[derive(Clone, Copy, Debug, PartialEq, Eq, Structural)]
pub struct Ext {
    pub c0: u32,
    pub c1: u32,
    pub c2: u32,
    pub c3: u32,
}

impl Ext {
    /// Every coefficient is a canonical field element.
    pub open spec fn wf(self) -> bool {
        self.c0 < MODULUS && self.c1 < MODULUS && self.c2 < MODULUS && self.c3 < MODULUS
    }

    /// The coefficients, lowest degree first.
    pub open spec fn coeffs(self) -> Seq<u32> {
        seq![self.c0, self.c1, self.c2, self.c3]
    }
}

pub open spec fn ext_of(c0: int, c1: int, c2: int, c3: int) -> Ext {
    Ext { c0: c0 as u32, c1: c1 as u32, c2: c2 as u32, c3: c3 as u32 }
}

pub open spec fn ext_zero() -> Ext {
    Ext { c0: 0, c1: 0, c2: 0, c3: 0 }
}

pub open spec fn ext_from_base_spec(a: u32) -> Ext {
    ext_of((a as int) % (MODULUS as int), 0, 0, 0)
}

pub open spec fn ext_add_spec(a: Ext, b: Ext) -> Ext {
    ext_of(fadd(a.c0 as int, b.c0 as int), fadd(a.c1 as int, b.c1 as int),
        fadd(a.c2 as int, b.c2 as int), fadd(a.c3 as int, b.c3 as int))
}

pub open spec fn ext_sub_spec(a: Ext, b: Ext) -> Ext {
    ext_of(fsub(a.c0 as int, b.c0 as int), fsub(a.c1 as int, b.c1 as int),
        fsub(a.c2 as int, b.c2 as int), fsub(a.c3 as int, b.c3 as int))
}

pub open spec fn ext_neg_spec(a: Ext) -> Ext {
    ext_of(fneg(a.c0 as int), fneg(a.c1 as int), fneg(a.c2 as int), fneg(a.c3 as int))
}

/// Product in `F[x] / (x^4 - W)`.
pub open spec fn ext_mul_spec(a: Ext, b: Ext) -> Ext {
    let (a0, a1, a2, a3) = (a.c0 as int, a.c1 as int, a.c2 as int, a.c3 as int);
    let (b0, b1, b2, b3) = (b.c0 as int, b.c1 as int, b.c2 as int, b.c3 as int);
    let w = EXT_W as int;
    let m = MODULUS as int;
    ext_of(
        (a0 * b0 + w * (a1 * b3 + a2 * b2 + a3 * b1)) % m,
        (a0 * b1 + a1 * b0 + w * (a2 * b3 + a3 * b2)) % m,
        (a0 * b2 + a1 * b1 + a2 * b0 + w * (a3 * b3)) % m,
        (a0 * b3 + a1 * b2 + a2 * b1 + a3 * b0) % m,
    )
}

/// Every coefficient multiplied by the base-field element `s`.
pub open spec fn ext_scale_spec(a: Ext, s: int) -> Ext {
    ext_of(fmul(a.c0 as int, s), fmul(a.c1 as int, s), fmul(a.c2 as int, s), fmul(a.c3 as int, s))
}

pub fn base_add(a: u32, b: u32) -> (r: u32)
    ensures
        r == fadd(a as int, b as int),
        r < MODULUS,
{
    ((a as u64 + b as u64) % MODULUS) as u32
}

pub fn base_sub(a: u32, b: u32) -> (r: u32)
    ensures
        r == fsub(a as int, b as int),
        r < MODULUS,
{
    let a1: u64 = a as u64 % MODULUS;
    let b1: u64 = b as u64 % MODULUS;
    let r: u64 = (a1 + MODULUS - b1) % MODULUS;
    proof {
        let m = MODULUS as int;
        let (ai, bi) = (a as int, b as int);
        assert(ai == m * (ai / m) + ai % m) by (nonlinear_arith) requires m > 0;
        assert(bi == m * (bi / m) + bi % m) by (nonlinear_arith) requires m > 0;
        lemma_mod_shift(ai - bi, a1 + m - b1, ai / m - bi / m - 1);
    }
    r as u32
}

/// `(x + k * m) % m == x % m`, written for the modulus.
proof fn lemma_mod_shift(x: int, y: int, k: int)
    requires
        y == x - k * (MODULUS as int),
    ensures
        x % (MODULUS as int) == y % (MODULUS as int),
{
    vstd::arithmetic::div_mod::lemma_mod_multiples_vanish(k, y, MODULUS as int);
    assert(k * (MODULUS as int) + y == (MODULUS as int) * k + y) by (nonlinear_arith);
}

pub fn base_neg(a: u32) -> (r: u32)
    ensures
        r == fneg(a as int),
        r < MODULUS,
{
    base_sub(0, a)
}

pub fn base_mul(a: u32, b: u32) -> (r: u32)
    ensures
        r == fmul(a as int, b as int),
        r < MODULUS,
{
    assert((a as int) * (b as int) <= 0xffff_ffffint * 0xffff_ffffint) by (nonlinear_arith)
        requires a <= 0xffff_ffffint, b <= 0xffff_ffffint, a >= 0, b >= 0;
    ((a as u64 * b as u64) % MODULUS) as u32
}

/// The inverse that the field computes for `a`.
pub uninterp spec fn field_inverse_of(a: int) -> int;

/// Relies on p3_field's `Field::inverse` for BabyBear: the multiplicative inverse of a
/// nonzero element, as a canonical value.
#[verifier::external_body]
pub(crate) fn inverse(a: u32) -> (r: u32)
    requires
        0 < a < MODULUS,
    ensures
        r < MODULUS,
        is_inverse(a as int, r as int),
        r == field_inverse_of(a as int),
{
    p3_baby_bear::BabyBear::new(a).inverse().as_canonical_u32()
}

pub fn ext_zero_value() -> (r: Ext)
    ensures
        r == ext_zero(),
{
    Ext { c0: 0, c1: 0, c2: 0, c3: 0 }
}

pub fn ext_from_base(a: u32) -> (r: Ext)
    ensures
        r == ext_from_base_spec(a),
        r.wf(),
{
    Ext { c0: (a as u64 % MODULUS) as u32, c1: 0, c2: 0, c3: 0 }
}

pub fn ext_add(a: Ext, b: Ext) -> (r: Ext)
    ensures
        r == ext_add_spec(a, b),
        r.wf(),
{
    Ext { c0: base_add(a.c0, b.c0), c1: base_add(a.c1, b.c1), c2: base_add(a.c2, b.c2), c3: base_add(a.c3, b.c3) }
}

pub fn ext_sub(a: Ext, b: Ext) -> (r: Ext)
    ensures
        r == ext_sub_spec(a, b),
        r.wf(),
{
    Ext { c0: base_sub(a.c0, b.c0), c1: base_sub(a.c1, b.c1), c2: base_sub(a.c2, b.c2), c3: base_sub(a.c3, b.c3) }
}

pub fn ext_neg(a: Ext) -> (r: Ext)
    ensures
        r == ext_neg_spec(a),
        r.wf(),
{
    Ext { c0: base_neg(a.c0), c1: base_neg(a.c1), c2: base_neg(a.c2), c3: base_neg(a.c3) }
}

pub fn ext_scale(a: Ext, s: u32) -> (r: Ext)
    ensures
        r == ext_scale_spec(a, s as int),
        r.wf(),
{
    Ext { c0: base_mul(a.c0, s), c1: base_mul(a.c1, s), c2: base_mul(a.c2, s), c3: base_mul(a.c3, s) }
}

/// Product of two `u32` values, widened.
fn wide(a: u32, b: u32) -> (r: u128)
    ensures
        r == (a as int) * (b as int),
        r < 0x1_0000_0000_0000_0000,
{
    assert((a as int) * (b as int) < 0x1_0000_0000_0000_0000int) by (nonlinear_arith)
        requires a <= 0xffff_ffffint, b <= 0xffff_ffffint, a >= 0, b >= 0;
    a as u128 * b as u128
}

pub fn ext_mul(a: Ext, b: Ext) -> (r: Ext)
    ensures
        r == ext_mul_spec(a, b),
        r.wf(),
{
    let w: u128 = EXT_W as u128;
    let m: u128 = MODULUS as u128;
    let r0 = (wide(a.c0, b.c0) + w * (wide(a.c1, b.c3) + wide(a.c2, b.c2) + wide(a.c3, b.c1))) % m;
    let r1 = (wide(a.c0, b.c1) + wide(a.c1, b.c0) + w * (wide(a.c2, b.c3) + wide(a.c3, b.c2))) % m;
    let r2 = (wide(a.c0, b.c2) + wide(a.c1, b.c1) + wide(a.c2, b.c0) + w * wide(a.c3, b.c3)) % m;
    let r3 = (wide(a.c0, b.c3) + wide(a.c1, b.c2) + wide(a.c2, b.c1) + wide(a.c3, b.c0)) % m;
    Ext { c0: r0 as u32, c1: r1 as u32, c2: r2 as u32, c3: r3 as u32 }
}

/// Multiplying by `s` and then by its inverse gives back a canonical value.
pub proof fn lemma_scale_cancel(c: int, s: int, t: int)
    requires
        0 <= c < MODULUS,
        is_inverse(s, t),
    ensures
        fmul(fmul(c, t), s) == c,
{
    let m = MODULUS as int;
    lemma_mul_mod_noop_left(c * t, s, m);
    lemma_mul_is_associative(c, t, s);
    assert(t * s == s * t) by (nonlinear_arith);
    lemma_mul_mod_noop_right(c, t * s, m);
    vstd::arithmetic::div_mod::lemma_small_mod(c as nat, m as nat);
}

} // verus!
