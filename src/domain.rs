//! Two-adic multiplicative cosets: the trace domain, the quotient domain that is
//! disjoint from it, and the split of a coset into equal sub-cosets.
use crate::field::{base_mul, base_sub, fmul, fsub, MODULUS};
use p3_field::{Field, PrimeField32, TwoAdicField};
use vstd::prelude::*;

verus! {

/// The largest `k` for which the field has a subgroup of order `2^k`.
pub const TWO_ADICITY: usize = 27;

pub open spec fn two_pow(k: nat) -> nat
    decreases k,
{
    if k == 0 {
        1
    } else {
        2 * two_pow((k - 1) as nat)
    }
}

pub open spec fn is_power_of_two(n: nat) -> bool
    decreases n,
{
    if n == 1 {
        true
    } else if n >= 2 && n % 2 == 0 {
        is_power_of_two(n / 2)
    } else {
        false
    }
}

/// `start * g^k`, the `k`-th point of the coset `start * <g>`.
pub open spec fn coset_point(start: int, g: int, k: nat) -> int
    decreases k,
{
    if k == 0 {
        start % (MODULUS as int)
    } else {
        fmul(coset_point(start, g, (k - 1) as nat), g)
    }
}

/// `x^(2^k)` by `k` squarings.
pub open spec fn square_times(x: int, k: nat) -> int
    decreases k,
{
    if k == 0 {
        x % (MODULUS as int)
    } else {
        let y = square_times(x, (k - 1) as nat);
        fmul(y, y)
    }
}

/// The generator of the subgroup of order `2^bits`, as the field defines it.
pub uninterp spec fn two_adic_generator_of(bits: nat) -> int;

/// Relies on p3_field's `TwoAdicField::two_adic_generator` for BabyBear, which panics
/// above the two-adicity: the fixed generator of the subgroup of order `2^bits`.
#[verifier::external_body]
pub(crate) fn two_adic_generator(bits: usize) -> (r: u32)
    requires
        bits <= TWO_ADICITY,
    ensures
        r < MODULUS,
        r == two_adic_generator_of(bits as nat),
{
    p3_baby_bear::BabyBear::two_adic_generator(bits).as_canonical_u32()
}

/// Relies on p3_field's `Field::GENERATOR` for BabyBear, defined there as 31: a
/// generator of the whole multiplicative group.
#[verifier::external_body]
pub(crate) fn multiplicative_generator() -> (r: u32)
    ensures
        r == 31,
{
    p3_baby_bear::BabyBear::GENERATOR.as_canonical_u32()
}

/// Relies on p3_util's `log2_strict_usize`, which panics unless `n` is a power of two:
/// the exponent `k` with `n == 2^k`.
#[verifier::external_body]
pub(crate) fn log2_strict(n: usize) -> (r: usize)
    requires
        is_power_of_two(n as nat),
    ensures
        two_pow(r as nat) == n,
{
    p3_util::log2_strict_usize(n)
}

pub proof fn lemma_two_pow_positive(k: nat)
    ensures
        two_pow(k) >= 1,
    decreases k,
{
    if k > 0 {
        lemma_two_pow_positive((k - 1) as nat);
    }
}

pub proof fn lemma_two_pow_add(a: nat, b: nat)
    ensures
        two_pow(a + b) == two_pow(a) * two_pow(b),
    decreases a,
{
    if a > 0 {
        let a1 = (a - 1) as nat;
        lemma_two_pow_add(a1, b);
        assert(a1 + b + 1 == a + b);
        assert(two_pow(a + b) == 2 * two_pow(a1 + b));
        assert(two_pow(a) == 2 * two_pow(a1));
        let (x, y) = (two_pow(a1), two_pow(b));
        assert(2 * (x * y) == (2 * x) * y) by (nonlinear_arith);
        assert(two_pow(a + b) == two_pow(a) * two_pow(b));
    } else {
        assert(two_pow(a) == 1);
        assert(a + b == b);
    }
}

pub proof fn lemma_two_pow_two_adicity()
    ensures
        two_pow(TWO_ADICITY as nat) == 134217728,
{
    reveal_with_fuel(two_pow, 28);
}

pub proof fn lemma_two_pow_is_power_of_two(k: nat)
    ensures
        is_power_of_two(two_pow(k)),
    decreases k,
{
    if k > 0 {
        lemma_two_pow_is_power_of_two((k - 1) as nat);
        lemma_two_pow_positive((k - 1) as nat);
        assert(two_pow(k) / 2 == two_pow((k - 1) as nat));
    }
}

pub proof fn lemma_two_pow_monotone(a: nat, b: nat)
    requires
        a <= b,
    ensures
        two_pow(a) <= two_pow(b),
    decreases b,
{
    if a < b {
        lemma_two_pow_monotone(a, (b - 1) as nat);
    }
}

/// The coset `shift * H` where `H` is the subgroup of order `2^log_size`.
#[derive(Clone, Copy, Debug, PartialEq, Eq, Structural)]
pub struct Coset {
    pub log_size: usize,
    pub shift: u32,
}

impl Coset {
    pub open spec fn wf(self) -> bool {
        self.log_size <= TWO_ADICITY && self.shift < MODULUS
    }

    pub open spec fn size_spec(self) -> nat {
        two_pow(self.log_size as nat)
    }

    /// The `k`-th point: `shift * g^k` with `g` the subgroup's generator.
    pub open spec fn point(self, k: nat) -> int {
        coset_point(self.shift as int, two_adic_generator_of(self.log_size as nat), k)
    }

    /// The domain of size `2^log_size` on which a trace is interpolated: the subgroup itself.
    pub fn natural_domain(log_size: usize) -> (r: Coset)
        requires
            log_size <= TWO_ADICITY,
        ensures
            r.wf(),
            r == (Coset { log_size, shift: 1 }),
    {
        Coset { log_size, shift: 1 }
    }

    pub fn size(&self) -> (r: usize)
        requires
            self.wf(),
        ensures
            r == self.size_spec(),
    {
        let mut r: usize = 1;
        let mut i: usize = 0;
        while i < self.log_size
            invariant
                i <= self.log_size <= TWO_ADICITY,
                r == two_pow(i as nat),
            decreases self.log_size - i,
        {
            proof {
                lemma_two_pow_monotone((i + 1) as nat, TWO_ADICITY as nat);
                lemma_two_pow_two_adicity();
            }
            r = r * 2;
            i = i + 1;
        }
        r
    }

    /// The coset `shift * 31 * K`, where `K` is the subgroup of order `size`: since 31
    /// generates the whole multiplicative group, no point of it lies in `self`.
    pub fn create_disjoint_domain(&self, size: usize) -> (r: Coset)
        requires
            self.wf(),
            is_power_of_two(size as nat),
            size <= two_pow(TWO_ADICITY as nat),
        ensures
            r.wf(),
            r.size_spec() == size,
            r.shift == fmul(self.shift as int, 31),
    {
        let log_size = log2_strict(size);
        proof {
            if log_size > TWO_ADICITY {
                lemma_two_pow_monotone((TWO_ADICITY + 1) as nat, log_size as nat);
                assert(two_pow((TWO_ADICITY + 1) as nat) == 2 * two_pow(TWO_ADICITY as nat));
                lemma_two_pow_positive(TWO_ADICITY as nat);
            }
        }
        let g = multiplicative_generator();
        Coset { log_size, shift: base_mul(self.shift, g) }
    }

    /// The successive points of the coset, in natural order.
    pub fn points(&self) -> (r: Vec<u32>)
        requires
            self.wf(),
        ensures
            r@.len() == self.size_spec(),
            forall|k: int| 0 <= k < r@.len() ==> r@[k] == self.point(k as nat),
    {
        let n = self.size();
        let g = two_adic_generator(self.log_size);
        let mut r: Vec<u32> = Vec::new();
        let mut x: u32 = base_mul(self.shift, 1);
        while r.len() < n
            invariant
                r@.len() <= n,
                n == self.size_spec(),
                g == two_adic_generator_of(self.log_size as nat),
                x == self.point(r@.len() as nat),
                forall|k: int| 0 <= k < r@.len() ==> r@[k] == self.point(k as nat),
            decreases n - r@.len(),
        {
            r.push(x);
            x = base_mul(x, g);
        }
        r
    }

    /// `Z(x) = (x / shift)^size - 1`, zero exactly on the coset; written here for a
    /// coset whose shift is one.
    pub fn vanishing_at(&self, x: u32) -> (r: u32)
        requires
            self.wf(),
            self.shift == 1,
        ensures
            r == vanishing_spec(self.log_size as nat, x as int),
            r < MODULUS,
    {
        let mut y: u32 = base_mul(x, 1);
        let mut i: usize = 0;
        while i < self.log_size
            invariant
                i <= self.log_size,
                y == square_times(x as int, i as nat),
            decreases self.log_size - i,
        {
            y = base_mul(y, y);
            i = i + 1;
        }
        base_sub(y, 1)
    }

    /// Splits the coset into `num_chunks` cosets of `size / num_chunks` points each:
    /// chunk `i` holds the points `i, i + num_chunks, i + 2 * num_chunks, ...`.
    pub fn split_domains(&self, num_chunks: usize) -> (r: Vec<Coset>)
        requires
            self.wf(),
            is_power_of_two(num_chunks as nat),
            num_chunks <= self.size_spec(),
        ensures
            r@.len() == num_chunks,
            forall|i: int| 0 <= i < num_chunks ==> (#[trigger] r@[i]).wf()
                && two_pow(r@[i].log_size as nat) * num_chunks == self.size_spec()
                && r@[i].shift == self.point(i as nat),
    {
        let log_chunks = log2_strict(num_chunks);
        proof {
            if log_chunks > self.log_size {
                lemma_two_pow_monotone((self.log_size + 1) as nat, log_chunks as nat);
                lemma_two_pow_positive(self.log_size as nat);
            }
            lemma_two_pow_add((self.log_size - log_chunks) as nat, log_chunks as nat);
        }
        let log_size = self.log_size - log_chunks;
        let g = two_adic_generator(self.log_size);
        let mut r: Vec<Coset> = Vec::new();
        let mut x: u32 = base_mul(self.shift, 1);
        while r.len() < num_chunks
            invariant
                r@.len() <= num_chunks,
                log_size == self.log_size - log_chunks,
                two_pow(log_size as nat) * num_chunks == self.size_spec(),
                self.wf(),
                g == two_adic_generator_of(self.log_size as nat),
                x == self.point(r@.len() as nat),
                x < MODULUS,
                forall|i: int| 0 <= i < r@.len() ==> (#[trigger] r@[i]).wf()
                    && two_pow(r@[i].log_size as nat) * num_chunks == self.size_spec()
                    && r@[i].shift == self.point(i as nat),
            decreases num_chunks - r@.len(),
        {
            r.push(Coset { log_size, shift: x });
            x = base_mul(x, g);
        }
        r
    }
}

/// The vanishing polynomial of the subgroup of order `2^log_size`, at `x`.
pub open spec fn vanishing_spec(log_size: nat, x: int) -> int {
    fsub(square_times(x, log_size), 1)
}

} // verus!
