//! The quotient stage for several constraint systems at once: domains, evaluation,
//! and the split of each quotient into chunks of the trace domain's size.
use crate::dag::{dag_fits, has_phase_gap, ConstraintDag, TraceView};
use crate::domain::{
    is_power_of_two, lemma_two_pow_add, lemma_two_pow_monotone, lemma_two_pow_positive,
    two_pow, vanishing_spec, Coset, TWO_ADICITY,
};
use crate::evaluator::{compute_single_rap_quotient_values, quotient_matches};
use crate::field::{Ext, MODULUS};
use crate::validate::{dag_fits_view, phase_gap};
use vstd::prelude::*;

verus! {

/// Why the quotient of a set of constraint systems could not be computed.
#[derive(Clone, Copy, Debug, PartialEq, Eq, Structural)]
pub enum QuotientError {
    /// The constraint systems, trace views and quotient degrees differ in number.
    LengthMismatch,
    /// A phase without a committed matrix is followed by one with a matrix.
    PhaseGap,
    /// A constraint system refers to data that its view does not hold, or a matrix of
    /// the view does not have one row per point of the quotient domain.
    MalformedInput,
    /// The trace domain's vanishing polynomial is zero at a point of the quotient domain.
    DegenerateDomain,
}

pub open spec fn log2_spec(n: nat) -> nat
    decreases n,
{
    if n <= 1 {
        0
    } else {
        1 + log2_spec(n / 2)
    }
}

pub proof fn lemma_log2_two_pow(k: nat)
    ensures
        log2_spec(two_pow(k)) == k,
    decreases k,
{
    if k > 0 {
        lemma_log2_two_pow((k - 1) as nat);
        lemma_two_pow_positive((k - 1) as nat);
    }
}

pub proof fn lemma_two_pow_log2(n: nat)
    requires
        is_power_of_two(n),
    ensures
        two_pow(log2_spec(n)) == n,
    decreases n,
{
    if n > 1 {
        lemma_two_pow_log2(n / 2);
    }
}

/// The trace domain of a trace of height `2^log_trace_height`.
pub open spec fn trace_domain_for(log_trace_height: nat) -> Coset {
    Coset { log_size: log_trace_height as usize, shift: 1 }
}

/// The quotient domain: `quotient_degree` times the trace domain's size, shifted by the
/// field's multiplicative generator.
pub open spec fn quotient_domain_for(log_trace_height: nat, quotient_degree: nat) -> Coset {
    Coset { log_size: (log_trace_height + log2_spec(quotient_degree)) as usize, shift: 31 }
}

/// A quotient degree that the field's two-adic subgroups can hold for this trace height.
pub open spec fn degree_fits(log_trace_height: nat, quotient_degree: nat) -> bool {
    &&& is_power_of_two(quotient_degree)
    &&& two_pow(log_trace_height) * quotient_degree <= two_pow(TWO_ADICITY as nat)
}

/// The trace domain's vanishing polynomial is nonzero on the whole quotient domain.
pub open spec fn vanishes_nowhere(log_trace_height: nat, quotient_degree: nat) -> bool {
    let qd = quotient_domain_for(log_trace_height, quotient_degree);
    forall|p: nat| p < qd.size_spec() ==> #[trigger] vanishing_spec(log_trace_height, qd.point(p)) != 0
}

/// The quotient domain has `2^log_trace_height * quotient_degree` points, and is a
/// well-formed coset.
pub proof fn lemma_quotient_domain_size(log_trace_height: nat, quotient_degree: nat)
    requires
        degree_fits(log_trace_height, quotient_degree),
    ensures
        log_trace_height + log2_spec(quotient_degree) <= TWO_ADICITY,
        quotient_domain_for(log_trace_height, quotient_degree).wf(),
        quotient_domain_for(log_trace_height, quotient_degree).size_spec()
            == two_pow(log_trace_height) * quotient_degree,
{
    let (h, d) = (log_trace_height, quotient_degree);
    lemma_two_pow_log2(d);
    lemma_two_pow_add(h, log2_spec(d));
    if h + log2_spec(d) > TWO_ADICITY {
        lemma_two_pow_monotone((TWO_ADICITY + 1) as nat, h + log2_spec(d));
        lemma_two_pow_positive(TWO_ADICITY as nat);
    }
}

/// The quotient of one constraint system, evaluated on its quotient domain.
#[derive(Debug)]
pub struct SingleQuotientData {
    pub quotient_degree: usize,
    pub quotient_domain: Coset,
    /// One value per point of the quotient domain, in the domain's natural order.
    pub quotient_values: Vec<Ext>,
}

impl SingleQuotientData {
    pub open spec fn wf(self) -> bool {
        &&& self.quotient_domain.wf()
        &&& is_power_of_two(self.quotient_degree as nat)
        &&& self.quotient_degree <= self.quotient_domain.size_spec()
        &&& self.quotient_values@.len() == self.quotient_domain.size_spec()
    }
}

/// The quotients of several constraint systems, in the order of the systems.
#[derive(Debug)]
pub struct QuotientData {
    pub inner: Vec<SingleQuotientData>,
}

impl QuotientData {
    pub open spec fn wf(self) -> bool {
        forall|k: int| 0 <= k < self.inner@.len() ==> (#[trigger] self.inner@[k]).wf()
    }
}

/// The quotient data that one constraint system with its view yields.
pub open spec fn single_result_ok(
    dag: ConstraintDag,
    view: TraceView,
    quotient_degree: nat,
    alpha: Ext,
    s: SingleQuotientData,
) -> bool {
    let h = view.log_trace_height as nat;
    &&& s.wf()
    &&& s.quotient_degree == quotient_degree
    &&& s.quotient_domain == quotient_domain_for(h, quotient_degree)
    &&& quotient_matches(dag, view, alpha, trace_domain_for(h), s.quotient_domain, s.quotient_values@)
}

/// Some view has a phase gap.
pub open spec fn any_phase_gap(views: Seq<TraceView>) -> bool {
    exists|i: int| 0 <= i < views.len() && has_phase_gap((#[trigger] views[i]).per_phase@)
}

/// Every system can be evaluated against its view on its quotient domain.
pub open spec fn all_fit(dags: Seq<ConstraintDag>, views: Seq<TraceView>, degrees: Seq<u8>) -> bool {
    forall|i: int| 0 <= i < views.len() ==> dag_fits(
        #[trigger] dags[i],
        views[i],
        two_pow(views[i].log_trace_height as nat) * degrees[i] as nat,
    )
}

/// No quotient domain meets a zero of its trace domain's vanishing polynomial.
pub open spec fn all_vanish_nowhere(views: Seq<TraceView>, degrees: Seq<u8>) -> bool {
    forall|i: int| 0 <= i < views.len()
        ==> vanishes_nowhere((#[trigger] views[i]).log_trace_height as nat, degrees[i] as nat)
}

/// Computes quotients with the random challenge `alpha`, which combines the
/// constraints of a system into one value per point.
#[derive(Clone, Copy, Debug)]
pub struct QuotientCommitter {
    pub alpha: Ext,
}

impl QuotientCommitter {
    pub fn new(alpha: Ext) -> (r: Self)
        ensures
            r.alpha == alpha,
    {
        Self { alpha }
    }

    /// Builds the trace and quotient domains of one system and evaluates its quotient.
    pub fn single_rap_quotient_values(
        &self,
        constraints: &ConstraintDag,
        view: &TraceView,
        quotient_degree: u8,
    ) -> (r: Result<SingleQuotientData, QuotientError>)
        requires
            degree_fits(view.log_trace_height as nat, quotient_degree as nat),
        ensures
            ({
                let h = view.log_trace_height as nat;
                let d = quotient_degree as nat;
                let n = two_pow(h) * d;
                &&& has_phase_gap(view.per_phase@) ==> r == Err::<SingleQuotientData, QuotientError>(QuotientError::PhaseGap)
                &&& (!has_phase_gap(view.per_phase@) && !dag_fits(*constraints, *view, n))
                    ==> r == Err::<SingleQuotientData, QuotientError>(QuotientError::MalformedInput)
                &&& (!has_phase_gap(view.per_phase@) && dag_fits(*constraints, *view, n)) ==> {
                    &&& (r is Ok <==> vanishes_nowhere(h, d))
                    &&& (r is Err ==> r == Err::<SingleQuotientData, QuotientError>(QuotientError::DegenerateDomain))
                }
                &&& r matches Ok(s) ==> single_result_ok(*constraints, *view, d, self.alpha, s)
            }),
    {
        let h = view.log_trace_height;
        let d = quotient_degree as usize;
        proof {
            lemma_quotient_domain_size(h as nat, d as nat);
            lemma_two_pow_positive(d as nat);
            lemma_two_pow_monotone(h as nat, (h + log2_spec(d as nat)) as nat);
            vstd::arithmetic::mul::lemma_mul_inequality(1, d as int, two_pow(h as nat) as int);
            if h > TWO_ADICITY {
                lemma_two_pow_monotone((TWO_ADICITY + 1) as nat, h as nat);
                lemma_two_pow_positive(TWO_ADICITY as nat);
            }
            crate::domain::lemma_two_pow_two_adicity();
        }
        if phase_gap(&view.per_phase) {
            return Err(QuotientError::PhaseGap);
        }
        proof {
            let e = h + log2_spec(d as nat);
            assert(quotient_domain_for(h as nat, d as nat).wf());
            assert(e <= TWO_ADICITY);
            assert(((e as usize) as nat) == e);
            assert(two_pow(e as nat) == two_pow(h as nat) * d);
            crate::domain::lemma_two_pow_is_power_of_two(e as nat);
            lemma_two_pow_positive(h as nat);
            let t = two_pow(h as nat);
            assert(d <= t * d) by (nonlinear_arith) requires t >= 1;
        }
        let trace_domain = Coset::natural_domain(h);
        let quotient_domain = trace_domain.create_disjoint_domain(trace_domain.size() * d);
        proof {
            lemma_log2_two_pow(quotient_domain.log_size as nat);
            lemma_log2_two_pow((h + log2_spec(d as nat)) as nat);
            vstd::arithmetic::mul::lemma_mul_inequality(1, d as int, two_pow(h as nat) as int);
        }
        let n = quotient_domain.size();
        if !dag_fits_view(constraints, view, n) {
            return Err(QuotientError::MalformedInput);
        }
        match compute_single_rap_quotient_values(constraints, view, trace_domain, quotient_domain, self.alpha) {
            Some(quotient_values) => Ok(SingleQuotientData { quotient_degree: d, quotient_domain, quotient_values }),
            None => Err(QuotientError::DegenerateDomain),
        }
    }

    /// Builds the quotient domain of each system and evaluates its quotient there. The
    /// three lists describe one system per index. Nothing is evaluated unless the lists
    /// have one length, no view has a phase gap and every system fits its view.
    pub fn quotient_values(
        &self,
        constraints: &Vec<ConstraintDag>,
        extended_views: Vec<TraceView>,
        quotient_degrees: &Vec<u8>,
    ) -> (r: Result<QuotientData, QuotientError>)
        requires
            forall|i: int| 0 <= i < quotient_degrees@.len() && i < extended_views@.len()
                ==> degree_fits((#[trigger] extended_views@[i]).log_trace_height as nat, quotient_degrees@[i] as nat),
        ensures
            ({
                let c = constraints@;
                let v = extended_views@;
                let d = quotient_degrees@;
                let same_len = c.len() == v.len() && c.len() == d.len();
                &&& (!same_len ==> r == Err::<QuotientData, QuotientError>(QuotientError::LengthMismatch))
                &&& (same_len ==> r != Err::<QuotientData, QuotientError>(QuotientError::LengthMismatch))
                &&& ((same_len && any_phase_gap(v)) ==> r == Err::<QuotientData, QuotientError>(QuotientError::PhaseGap))
                &&& ((same_len && !any_phase_gap(v) && !all_fit(c, v, d))
                    ==> r == Err::<QuotientData, QuotientError>(QuotientError::MalformedInput))
                &&& ((same_len && !any_phase_gap(v) && all_fit(c, v, d)) ==> {
                    &&& (r is Ok <==> all_vanish_nowhere(v, d))
                    &&& (r is Err ==> r == Err::<QuotientData, QuotientError>(QuotientError::DegenerateDomain))
                })
                &&& (r matches Ok(data) ==> {
                    &&& data.wf()
                    &&& data.inner@.len() == v.len()
                    &&& forall|i: int| 0 <= i < v.len()
                        ==> single_result_ok(c[i], v[i], d[i] as nat, self.alpha, #[trigger] data.inner@[i])
                })
            }),
    {
        if constraints.len() != extended_views.len() || constraints.len() != quotient_degrees.len() {
            return Err(QuotientError::LengthMismatch);
        }
        let count = constraints.len();
        let mut i: usize = 0;
        while i < count
            invariant
                count == extended_views@.len(),
                count == constraints@.len(),
                count == quotient_degrees@.len(),
                i <= count,
                forall|j: int| 0 <= j < i ==> !has_phase_gap((#[trigger] extended_views@[j]).per_phase@),
            decreases count - i,
        {
            if phase_gap(&extended_views[i].per_phase) {
                assert(any_phase_gap(extended_views@)) by {
                    assert(has_phase_gap(extended_views@[i as int].per_phase@));
                };
                return Err(QuotientError::PhaseGap);
            }
            i = i + 1;
        }
        let mut i: usize = 0;
        while i < count
            invariant
                count == extended_views@.len(),
                count == constraints@.len(),
                count == quotient_degrees@.len(),
                !any_phase_gap(extended_views@),
                forall|j: int| 0 <= j < quotient_degrees@.len() && j < extended_views@.len()
                    ==> degree_fits((#[trigger] extended_views@[j]).log_trace_height as nat, quotient_degrees@[j] as nat),
                i <= count,
                forall|j: int| 0 <= j < i ==> dag_fits(
                    #[trigger] constraints@[j],
                    extended_views@[j],
                    two_pow(extended_views@[j].log_trace_height as nat) * quotient_degrees@[j] as nat,
                ),
            decreases count - i,
        {
            let view = &extended_views[i];
            let d = quotient_degrees[i] as usize;
            proof {
                lemma_quotient_domain_size(view.log_trace_height as nat, d as nat);
                crate::domain::lemma_two_pow_two_adicity();
                if view.log_trace_height > TWO_ADICITY {
                    lemma_two_pow_monotone((TWO_ADICITY + 1) as nat, view.log_trace_height as nat);
                    lemma_two_pow_positive(TWO_ADICITY as nat);
                }
                let t = two_pow(view.log_trace_height as nat);
                assert(t <= t * d) by (nonlinear_arith) requires d >= 1;
            }
            let n = Coset::natural_domain(view.log_trace_height).size() * d;
            if !dag_fits_view(&constraints[i], view, n) {
                return Err(QuotientError::MalformedInput);
            }
            i = i + 1;
        }
        let mut inner: Vec<SingleQuotientData> = Vec::new();
        let mut i: usize = 0;
        while i < count
            invariant
                count == extended_views@.len(),
                count == constraints@.len(),
                count == quotient_degrees@.len(),
                !any_phase_gap(extended_views@),
                all_fit(constraints@, extended_views@, quotient_degrees@),
                forall|j: int| 0 <= j < quotient_degrees@.len() && j < extended_views@.len()
                    ==> degree_fits((#[trigger] extended_views@[j]).log_trace_height as nat, quotient_degrees@[j] as nat),
                i <= count,
                inner@.len() == i,
                forall|j: int| 0 <= j < i ==> vanishes_nowhere(
                    (#[trigger] extended_views@[j]).log_trace_height as nat,
                    quotient_degrees@[j] as nat,
                ),
                forall|j: int| 0 <= j < i ==> single_result_ok(
                    constraints@[j],
                    extended_views@[j],
                    quotient_degrees@[j] as nat,
                    self.alpha,
                    #[trigger] inner@[j],
                ),
            decreases count - i,
        {
            assert(!has_phase_gap(extended_views@[i as int].per_phase@));
            assert(dag_fits(constraints@[i as int], extended_views@[i as int],
                two_pow(extended_views@[i as int].log_trace_height as nat) * quotient_degrees@[i as int] as nat));
            match self.single_rap_quotient_values(&constraints[i], &extended_views[i], quotient_degrees[i]) {
                Ok(s) => inner.push(s),
                Err(e) => {
                    assert(e == QuotientError::DegenerateDomain);
                    return Err(e);
                },
            }
            i = i + 1;
        }
        Ok(QuotientData { inner })
    }
}

} // verus!
