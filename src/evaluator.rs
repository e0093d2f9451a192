//! Point-wise evaluation of a constraint DAG over the quotient domain, and the
//! division of the combined value by the trace domain's vanishing polynomial.
use crate::dag::{
    combine, combined_value, dag_fits, node_value, row_of, ConstraintDag, ExtMatrix, Matrix, Node,
    TraceView,
};
use crate::domain::{vanishing_spec, Coset};
use crate::field::{
    ext_add, ext_from_base, ext_mul, ext_neg, ext_scale, ext_scale_spec, ext_sub, ext_zero,
    ext_zero_value, field_inverse_of, fmul, inverse, is_inverse, lemma_scale_cancel, Ext, MODULUS,
};
use vstd::prelude::*;

verus! {

pub proof fn lemma_cell_in_bounds(row: nat, col: nat, width: nat, n: nat)
    requires
        row < n,
        col < width,
    ensures
        row * width + col < n * width,
{
    assert(row * width + col < (row + 1) * width) by (nonlinear_arith)
        requires col < width;
    assert((row + 1) * width <= n * width) by (nonlinear_arith)
        requires row + 1 <= n;
}

fn row_index(p: usize, next: bool, n: usize) -> (r: usize)
    requires
        p < n,
    ensures
        r == row_of(p as nat, next, n as nat),
        r < n,
{
    if next {
        if p + 1 == n {
            proof {
                vstd::arithmetic::div_mod::lemma_mod_self_0(n as int);
            }
            0
        } else {
            proof {
                vstd::arithmetic::div_mod::lemma_small_mod((p + 1) as nat, n as nat);
            }
            p + 1
        }
    } else {
        p
    }
}

fn base_cell(m: &Matrix, row: usize, col: usize, Ghost(n): Ghost<nat>) -> (r: u32)
    requires
        m.has_height(n),
        row < n,
        col < m.width,
    ensures
        r == m.cell(row as nat, col as nat),
{
    let len = m.values.len();
    proof {
        lemma_cell_in_bounds(row as nat, col as nat, m.width as nat, n);
        assert(row * m.width <= row * m.width + col);
    }
    m.values[row * m.width + col]
}

fn ext_cell(m: &ExtMatrix, row: usize, col: usize, Ghost(n): Ghost<nat>) -> (r: Ext)
    requires
        m.has_height(n),
        row < n,
        col < m.width,
    ensures
        r == m.cell(row as nat, col as nat),
{
    let len = m.values.len();
    proof {
        lemma_cell_in_bounds(row as nat, col as nat, m.width as nat, n);
        assert(row * m.width <= row * m.width + col);
    }
    m.values[row * m.width + col]
}

/// The value of every node of the DAG at point `p`, each computed once, in arena order.
pub fn eval_nodes(dag: &ConstraintDag, view: &TraceView, n: usize, p: usize) -> (r: Vec<Ext>)
    requires
        dag_fits(*dag, *view, n as nat),
        p < n,
    ensures
        r@.len() == dag.nodes@.len(),
        forall|j: int| 0 <= j < r@.len() ==> r@[j] == node_value(*dag, *view, n as nat, p as nat, j as nat),
{
    let mut vals: Vec<Ext> = Vec::new();
    while vals.len() < dag.nodes.len()
        invariant
            dag_fits(*dag, *view, n as nat),
            p < n,
            vals@.len() <= dag.nodes@.len(),
            forall|j: int| 0 <= j < vals@.len() ==> vals@[j] == node_value(*dag, *view, n as nat, p as nat, j as nat),
        decreases dag.nodes@.len() - vals@.len(),
    {
        let i = vals.len();
        let node = dag.nodes[i];
        assert(crate::dag::node_fits(dag.nodes@[i as int], i as nat, *view));
        let v = match node {
            Node::Constant { value } => ext_from_base(value),
            Node::Preprocessed { column, next } => {
                let m = view.preprocessed.as_ref().unwrap();
                ext_from_base(base_cell(m, row_index(p, next, n), column, Ghost(n as nat)))
            },
            Node::Main { part, column, next } => {
                assert(view.partitioned_main@[part as int].has_height(n as nat));
                ext_from_base(base_cell(&view.partitioned_main[part], row_index(p, next, n), column, Ghost(n as nat)))
            },
            Node::Interaction { phase, column, next } => {
                assert(view.per_phase@[phase as int].matrix is Some);
                let m = view.per_phase[phase].matrix.as_ref().unwrap();
                ext_cell(m, row_index(p, next, n), column, Ghost(n as nat))
            },
            Node::Public { index } => ext_from_base(view.public_values[index]),
            Node::Challenge { phase, index } => view.per_phase[phase].challenges[index],
            Node::Exposed { phase, index } => view.per_phase[phase].exposed_values[index],
            Node::Add { left, right } => ext_add(vals[left], vals[right]),
            Node::Sub { left, right } => ext_sub(vals[left], vals[right]),
            Node::Mul { left, right } => ext_mul(vals[left], vals[right]),
            Node::Neg { child } => ext_neg(vals[child]),
        };
        vals.push(v);
    }
    vals
}

/// The combined constraint value at point `p`: `acc = acc * alpha + constraint` over
/// the constraints in their declared order.
pub fn eval_combined(dag: &ConstraintDag, view: &TraceView, alpha: Ext, n: usize, p: usize) -> (r: Ext)
    requires
        dag_fits(*dag, *view, n as nat),
        p < n,
    ensures
        r == combined_value(*dag, *view, alpha, n as nat, p as nat),
        r.wf(),
{
    let vals = eval_nodes(dag, view, n, p);
    let mut acc = ext_zero_value();
    let mut k: usize = 0;
    while k < dag.constraints.len()
        invariant
            dag_fits(*dag, *view, n as nat),
            vals@.len() == dag.nodes@.len(),
            forall|j: int| 0 <= j < vals@.len() ==> vals@[j] == node_value(*dag, *view, n as nat, p as nat, j as nat),
            k <= dag.constraints@.len(),
            acc == combine(*dag, *view, alpha, n as nat, p as nat, k as nat),
            acc.wf(),
        decreases dag.constraints@.len() - k,
    {
        let c = dag.constraints[k];
        assert(dag.constraints@[k as int] < dag.nodes@.len());
        acc = ext_add(ext_mul(acc, alpha), vals[c]);
        k = k + 1;
    }
    acc
}

/// The quotient value at every point of the quotient domain: the combined constraint
/// value divided by the trace domain's vanishing polynomial there. `None` only if that
/// polynomial vanishes at some point, which a quotient domain disjoint from the trace
/// domain rules out.
pub fn compute_single_rap_quotient_values(
    dag: &ConstraintDag,
    view: &TraceView,
    trace_domain: Coset,
    quotient_domain: Coset,
    alpha: Ext,
) -> (r: Option<Vec<Ext>>)
    requires
        trace_domain.wf(),
        trace_domain.shift == 1,
        quotient_domain.wf(),
        dag_fits(*dag, *view, quotient_domain.size_spec()),
    ensures
        r is Some <==> forall|p: nat| p < quotient_domain.size_spec()
            ==> #[trigger] vanishing_spec(trace_domain.log_size as nat, quotient_domain.point(p)) != 0,
        r matches Some(q) ==> quotient_matches(*dag, *view, alpha, trace_domain, quotient_domain, q@),
{
    let points = quotient_domain.points();
    let n = points.len();
    let mut q: Vec<Ext> = Vec::new();
    while q.len() < n
        invariant
            trace_domain.wf(),
            trace_domain.shift == 1,
            quotient_domain.wf(),
            n == quotient_domain.size_spec(),
            points@.len() == n,
            forall|k: int| 0 <= k < n ==> points@[k] == quotient_domain.point(k as nat),
            dag_fits(*dag, *view, n as nat),
            q@.len() <= n,
            forall|p: nat| p < q@.len()
                ==> #[trigger] vanishing_spec(trace_domain.log_size as nat, quotient_domain.point(p)) != 0,
            quotient_prefix_matches(*dag, *view, alpha, trace_domain, quotient_domain, q@),
        decreases n - q@.len(),
    {
        let p = q.len();
        let z = trace_domain.vanishing_at(points[p]);
        if z == 0 {
            assert(vanishing_spec(trace_domain.log_size as nat, quotient_domain.point(p as nat)) == 0);
            return None;
        }
        let zi = inverse(z);
        let c = eval_combined(dag, view, alpha, n, p);
        let v = ext_scale(c, zi);
        proof {
            lemma_scale_cancel(c.c0 as int, z as int, zi as int);
            lemma_scale_cancel(c.c1 as int, z as int, zi as int);
            lemma_scale_cancel(c.c2 as int, z as int, zi as int);
            lemma_scale_cancel(c.c3 as int, z as int, zi as int);
        }
        q.push(v);
    }
    Some(q)
}

/// For every point `p` of the quotient domain held so far, `q[p]` is the combined
/// constraint value at `p` times the inverse of the vanishing polynomial there: it is
/// canonical, and times the vanishing polynomial it gives the combined value back.
pub open spec fn quotient_prefix_matches(
    dag: ConstraintDag,
    view: TraceView,
    alpha: Ext,
    trace_domain: Coset,
    quotient_domain: Coset,
    q: Seq<Ext>,
) -> bool {
    forall|p: int| 0 <= p < q.len() ==> {
        &&& (#[trigger] q[p]).wf()
        &&& ext_scale_spec(q[p], vanishing_spec(trace_domain.log_size as nat, quotient_domain.point(p as nat)))
            == combined_value(dag, view, alpha, quotient_domain.size_spec(), p as nat)
        &&& q[p] == ext_scale_spec(
            combined_value(dag, view, alpha, quotient_domain.size_spec(), p as nat),
            field_inverse_of(vanishing_spec(trace_domain.log_size as nat, quotient_domain.point(p as nat))),
        )
    }
}

/// `q` holds one quotient value for each point of the quotient domain.
pub open spec fn quotient_matches(
    dag: ConstraintDag,
    view: TraceView,
    alpha: Ext,
    trace_domain: Coset,
    quotient_domain: Coset,
    q: Seq<Ext>,
) -> bool {
    &&& q.len() == quotient_domain.size_spec()
    &&& quotient_prefix_matches(dag, view, alpha, trace_domain, quotient_domain, q)
}

/// The quotient values are a function of the inputs: two value vectors that both meet
/// the contract of the evaluation for the same inputs are equal.
pub proof fn lemma_quotient_deterministic(
    dag: ConstraintDag,
    view: TraceView,
    alpha: Ext,
    trace_domain: Coset,
    quotient_domain: Coset,
    q1: Seq<Ext>,
    q2: Seq<Ext>,
)
    requires
        quotient_matches(dag, view, alpha, trace_domain, quotient_domain, q1),
        quotient_matches(dag, view, alpha, trace_domain, quotient_domain, q2),
    ensures
        q1 == q2,
{
    assert forall|p: int| 0 <= p < q1.len() implies q1[p] == q2[p] by {
        assert(q1[p] == ext_scale_spec(
            combined_value(dag, view, alpha, quotient_domain.size_spec(), p as nat),
            field_inverse_of(vanishing_spec(trace_domain.log_size as nat, quotient_domain.point(p as nat))),
        ));
    }
    assert(q1 =~= q2);
}

/// Multiplying each quotient value by the trace domain's vanishing polynomial at its
/// point of the quotient domain gives back the combined constraint value there.
pub proof fn lemma_quotient_times_vanishing(
    dag: ConstraintDag,
    view: TraceView,
    alpha: Ext,
    trace_domain: Coset,
    quotient_domain: Coset,
    q: Seq<Ext>,
)
    requires
        quotient_matches(dag, view, alpha, trace_domain, quotient_domain, q),
    ensures
        forall|p: nat| p < q.len() ==> #[trigger] ext_scale_spec(
            q[p as int],
            vanishing_spec(trace_domain.log_size as nat, quotient_domain.point(p)),
        ) == combined_value(dag, view, alpha, quotient_domain.size_spec(), p),
{
    assert forall|p: nat| p < q.len() implies #[trigger] ext_scale_spec(
        q[p as int],
        vanishing_spec(trace_domain.log_size as nat, quotient_domain.point(p)),
    ) == combined_value(dag, view, alpha, quotient_domain.size_spec(), p) by {
        assert((q[p as int]).wf());
    }
}

} // verus!
