//! The split of a quotient into chunks of the trace domain's size, each flattened to
//! a matrix of base-field coefficients, and the layout handed to the commitment.
use crate::dag::Matrix;
use crate::domain::{lemma_two_pow_is_power_of_two, log2_strict, two_pow, Coset};
use crate::evaluator::lemma_cell_in_bounds;
use crate::field::Ext;
use crate::quotient::{lemma_log2_two_pow, QuotientCommitter, QuotientData, SingleQuotientData};
use vstd::prelude::*;

verus! {

/// Number of base-field coefficients of an extension element.
pub const EXT_DEGREE: usize = 4;

/// Each extension value as a row of its four coefficients, rows one after another.
pub open spec fn flatten_to_base(rows: Seq<Ext>) -> Seq<u32> {
    Seq::new(4 * rows.len(), |k: int| rows[k / 4].coeffs()[k % 4])
}

/// The rows `i, i + num_chunks, i + 2 * num_chunks, ...` of `q`.
pub open spec fn chunk_rows(q: Seq<Ext>, num_chunks: nat, i: nat) -> Seq<Ext> {
    Seq::new(q.len() / num_chunks, |j: int| q[j * num_chunks + i])
}

/// Puts the rows of the chunks back in place: row `r` comes from chunk `r % num_chunks`.
pub open spec fn recombine(chunks: Seq<Seq<Ext>>, num_chunks: nat, len: nat) -> Seq<Ext> {
    Seq::new(len, |r: int| chunks[r % (num_chunks as int)][r / (num_chunks as int)])
}

/// Splitting a quotient into chunks and putting each chunk's rows back at the
/// positions of its coset's points gives the quotient back, and so the same matrix of
/// base-field coefficients.
pub proof fn lemma_split_recombine(q: Seq<Ext>, num_chunks: nat)
    requires
        num_chunks > 0,
        (q.len() as int) % (num_chunks as int) == 0,
    ensures
        recombine(Seq::new(num_chunks, |i: int| chunk_rows(q, num_chunks, i as nat)), num_chunks, q.len()) == q,
        flatten_to_base(
            recombine(Seq::new(num_chunks, |i: int| chunk_rows(q, num_chunks, i as nat)), num_chunks, q.len()),
        ) == flatten_to_base(q),
{
    let d = num_chunks as int;
    let n = q.len() as int;
    let chunks = Seq::new(num_chunks, |i: int| chunk_rows(q, num_chunks, i as nat));
    let back = recombine(chunks, num_chunks, q.len());
    assert forall|r: int| 0 <= r < n implies back[r] == q[r] by {
        let i = r % d;
        let j = r / d;
        let h = n / d;
        vstd::arithmetic::div_mod::lemma_fundamental_div_mod(r, d);
        vstd::arithmetic::div_mod::lemma_fundamental_div_mod(n, d);
        assert(0 <= i < d);
        assert(j < h) by {
            assert(d * j <= r) by (nonlinear_arith) requires r == d * j + i, 0 <= i;
            assert(j < h) by (nonlinear_arith) requires d * j <= r, r < n, n == d * h, d > 0;
        };
        assert(chunks[i].len() == h);
        assert(chunks[i][j] == q[j * d + i]);
        assert(j * d + i == r) by (nonlinear_arith)
            requires r == d * j + i;
    }
    assert(back =~= q);
}

/// One chunk of a quotient: a coset of the trace domain's size, and the quotient's
/// values on it as a matrix with one row per point and one column per coefficient.
#[derive(Debug)]
pub struct QuotientChunk {
    pub domain: Coset,
    pub chunk: Matrix,
}

/// `c` is chunk `i` of `s`.
pub open spec fn chunk_ok(s: SingleQuotientData, i: nat, c: QuotientChunk) -> bool {
    &&& c.domain.wf()
    &&& two_pow(c.domain.log_size as nat) * s.quotient_degree == s.quotient_domain.size_spec()
    &&& c.domain.shift == s.quotient_domain.point(i)
    &&& c.chunk.width == EXT_DEGREE
    &&& c.chunk.values@ == flatten_to_base(chunk_rows(s.quotient_values@, s.quotient_degree as nat, i))
}

impl SingleQuotientData {
    /// Splits the quotient into `quotient_degree` chunks: chunk `i` holds the points
    /// `i, i + quotient_degree, ...` of the quotient domain, which form a coset.
    pub fn split(&self) -> (r: Vec<QuotientChunk>)
        requires
            self.wf(),
        ensures
            r@.len() == self.quotient_degree,
            forall|i: int| 0 <= i < r@.len() ==> chunk_ok(*self, i as nat, #[trigger] r@[i]),
    {
        let d = self.quotient_degree;
        let domains = self.quotient_domain.split_domains(d);
        let mut r: Vec<QuotientChunk> = Vec::new();
        let mut i: usize = 0;
        while i < d
            invariant
                self.wf(),
                d == self.quotient_degree,
                domains@.len() == d,
                forall|k: int| 0 <= k < d ==> (#[trigger] domains@[k]).wf()
                    && two_pow(domains@[k].log_size as nat) * d == self.quotient_domain.size_spec()
                    && domains@[k].shift == self.quotient_domain.point(k as nat),
                i <= d,
                r@.len() == i,
                forall|k: int| 0 <= k < i ==> chunk_ok(*self, k as nat, #[trigger] r@[k]),
            decreases d - i,
        {
            let domain = domains[i];
            let h = domain.size();
            let q = &self.quotient_values;
            let qlen = q.len();
            proof {
                vstd::arithmetic::div_mod::lemma_div_multiples_vanish(h as int, d as int);
                assert(d * h == h * d) by (nonlinear_arith);
            }
            let mut vals: Vec<u32> = Vec::new();
            let mut j: usize = 0;
            while j < h
                invariant
                    h * d == q@.len(),
                    qlen == q@.len(),
                    i < d,
                    j <= h,
                    vals@.len() == 4 * j,
                    forall|k: int| 0 <= k < 4 * j ==> #[trigger] vals@[k] == q@[(k / 4) * d + i].coeffs()[k % 4],
                decreases h - j,
            {
                proof {
                    lemma_cell_in_bounds(j as nat, i as nat, d as nat, h as nat);
                }
                let e = q[j * d + i];
                vals.push(e.c0);
                vals.push(e.c1);
                vals.push(e.c2);
                vals.push(e.c3);
                j = j + 1;
            }
            assert(vals@ =~= flatten_to_base(chunk_rows(q@, d as nat, i as nat)));
            r.push(QuotientChunk { domain, chunk: Matrix { width: EXT_DEGREE, values: vals } });
            i = i + 1;
        }
        r
    }
}

/// Index of the first chunk of system `k` in the chunks of all systems.
pub open spec fn chunk_offset(inner: Seq<SingleQuotientData>, k: nat) -> nat
    decreases k,
{
    if k == 0 {
        0
    } else {
        chunk_offset(inner, (k - 1) as nat) + inner[k - 1].quotient_degree as nat
    }
}

/// Chunk `i` of system `k` in the chunks of all systems.
pub open spec fn chunk_at(r: Seq<QuotientChunk>, inner: Seq<SingleQuotientData>, k: nat, i: nat) -> QuotientChunk {
    r[chunk_offset(inner, k) + i as int]
}

proof fn lemma_chunk_offset_monotone(inner: Seq<SingleQuotientData>, a: nat, b: nat)
    requires
        a <= b,
    ensures
        chunk_offset(inner, a) <= chunk_offset(inner, b),
    decreases b,
{
    if a < b {
        lemma_chunk_offset_monotone(inner, a, (b - 1) as nat);
    }
}

impl QuotientData {
    /// The chunks of every system, system after system.
    pub fn split(self) -> (r: Vec<QuotientChunk>)
        requires
            self.wf(),
        ensures
            r@.len() == chunk_offset(self.inner@, self.inner@.len()),
            forall|t: int| 0 <= t < r@.len() ==> (#[trigger] r@[t]).domain.wf(),
            forall|k: int, i: int| 0 <= k < self.inner@.len() && 0 <= i < self.inner@[k].quotient_degree
                ==> chunk_ok(self.inner@[k], i as nat, #[trigger] chunk_at(r@, self.inner@, k as nat, i as nat)),
    {
        let inner = &self.inner;
        let mut r: Vec<QuotientChunk> = Vec::new();
        let mut k: usize = 0;
        while k < inner.len()
            invariant
                self.wf(),
                inner == &self.inner,
                k <= inner@.len(),
                r@.len() == chunk_offset(inner@, k as nat),
                forall|t: int| 0 <= t < r@.len() ==> (#[trigger] r@[t]).domain.wf(),
                forall|k2: int, i: int| 0 <= k2 < k && 0 <= i < inner@[k2].quotient_degree
                    ==> chunk_ok(inner@[k2], i as nat, #[trigger] chunk_at(r@, inner@, k2 as nat, i as nat)),
            decreases inner@.len() - k,
        {
            let mut chunks = inner[k].split();
            let ghost old_r = r@;
            let ghost chunks_before = chunks@;
            r.append(&mut chunks);
            proof {
                assert forall|t: int| 0 <= t < r@.len() implies (#[trigger] r@[t]).domain.wf() by {
                    if t >= old_r.len() {
                        assert(r@[t] == chunks_before[t - old_r.len()]);
                        assert(chunk_ok(inner@[k as int], (t - old_r.len()) as nat, chunks_before[t - old_r.len()]));
                    }
                }
                assert forall|k2: int, i: int| 0 <= k2 <= k && 0 <= i < inner@[k2].quotient_degree
                    implies chunk_ok(inner@[k2], i as nat, #[trigger] chunk_at(r@, inner@, k2 as nat, i as nat)) by {
                    if k2 < k {
                        lemma_chunk_offset_monotone(inner@, (k2 + 1) as nat, k as nat);
                        assert(chunk_at(r@, inner@, k2 as nat, i as nat) == chunk_at(old_r, inner@, k2 as nat, i as nat));
                    }
                }
            }
            k = k + 1;
        }
        r
    }
}

impl QuotientCommitter {
    /// What the commitment receives: the chunks of every system in order, and for each
    /// chunk the log2 of its size, which is its system's trace height.
    pub fn commit_layout(&self, data: QuotientData) -> (r: (Vec<u8>, Vec<QuotientChunk>))
        requires
            data.wf(),
        ensures
            r.1@.len() == chunk_offset(data.inner@, data.inner@.len()),
            forall|k: int, i: int| 0 <= k < data.inner@.len() && 0 <= i < data.inner@[k].quotient_degree
                ==> chunk_ok(data.inner@[k], i as nat, #[trigger] chunk_at(r.1@, data.inner@, k as nat, i as nat)),
            r.0@.len() == r.1@.len(),
            forall|t: int| 0 <= t < r.0@.len() ==> #[trigger] r.0@[t] == r.1@[t].domain.log_size,
    {
        let chunks = data.split();
        let mut log_trace_heights: Vec<u8> = Vec::new();
        let mut t: usize = 0;
        while t < chunks.len()
            invariant
                t <= chunks@.len(),
                forall|u: int| 0 <= u < chunks@.len() ==> (#[trigger] chunks@[u]).domain.wf(),
                log_trace_heights@.len() == t,
                forall|u: int| 0 <= u < t ==> #[trigger] log_trace_heights@[u] == chunks@[u].domain.log_size,
            decreases chunks@.len() - t,
        {
            let domain = chunks[t].domain;
            let size = domain.size();
            proof {
                lemma_two_pow_is_power_of_two(domain.log_size as nat);
            }
            let log = log2_strict(size);
            proof {
                lemma_log2_two_pow(log as nat);
                lemma_log2_two_pow(domain.log_size as nat);
            }
            log_trace_heights.push(log as u8);
            t = t + 1;
        }
        (log_trace_heights, chunks)
    }
}

} // verus!
