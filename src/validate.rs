//! Checks on the shape of the inputs, done once before any evaluation.
use crate::dag::{dag_fits, has_phase_gap, node_fits, view_has_height, ConstraintDag, ExtMatrix, Matrix, Node, PhaseView, TraceView};
use vstd::prelude::*;

verus! {

fn matrix_has_height(m: &Matrix, n: usize) -> (r: bool)
    ensures
        r == m.has_height(n as nat),
{
    let len = m.values.len();
    if m.width == 0 {
        len == 0
    } else {
        proof { lemma_height_by_division(len as nat, m.width as nat, n as nat); }
        len % m.width == 0 && len / m.width == n
    }
}

fn ext_matrix_has_height(m: &ExtMatrix, n: usize) -> (r: bool)
    ensures
        r == m.has_height(n as nat),
{
    let len = m.values.len();
    if m.width == 0 {
        len == 0
    } else {
        proof { lemma_height_by_division(len as nat, m.width as nat, n as nat); }
        len % m.width == 0 && len / m.width == n
    }
}

proof fn lemma_height_by_division(len: nat, w: nat, n: nat)
    requires
        w > 0,
    ensures
        (len == n * w) == (len % w == 0 && len / w == n),
{
    vstd::arithmetic::div_mod::lemma_fundamental_div_mod(len as int, w as int);
    if len == n * w {
        vstd::arithmetic::div_mod::lemma_mod_multiples_basic(n as int, w as int);
        vstd::arithmetic::div_mod::lemma_div_multiples_vanish(n as int, w as int);
        assert(n * w == w * n) by (nonlinear_arith);
    }
    assert(w * (len / w) == (len / w) * w) by (nonlinear_arith);
}

/// Whether some phase lacks a committed matrix while a later phase has one.
pub fn phase_gap(phases: &Vec<PhaseView>) -> (r: bool)
    ensures
        r == has_phase_gap(phases@),
{
    let mut missing: Option<usize> = None;
    let mut k: usize = 0;
    while k < phases.len()
        invariant
            k <= phases@.len(),
            !has_phase_gap(phases@.take(k as int)),
            missing matches Some(i) ==> i < k && phases@[i as int].matrix is None,
            missing is None ==> forall|i: int| 0 <= i < k ==> (#[trigger] phases@[i]).matrix is Some,
        decreases phases@.len() - k,
    {
        if phases[k].matrix.is_some() {
            if let Some(i) = missing {
                assert(phases@[k as int].matrix is Some);
                assert(has_phase_gap(phases@)) by {
                    assert(phases@[i as int].matrix is None);
                };
                return true;
            }
        } else if missing.is_none() {
            missing = Some(k);
        }
        proof {
            let t = phases@.take(k as int + 1);
            if has_phase_gap(t) {
                let (i, j) = choose|i: int, j: int| 0 <= i < j < t.len() && (#[trigger] t[i]).matrix is None
                    && (#[trigger] t[j]).matrix is Some;
                assert(t[i] == phases@[i]);
                assert(t[j] == phases@[j]);
                if j < k {
                    assert(phases@.take(k as int)[i] == phases@[i]);
                    assert(phases@.take(k as int)[j] == phases@[j]);
                }
            }
        }
        k = k + 1;
    }
    assert(phases@.take(k as int) =~= phases@);
    false
}

fn node_fits_exec(node: Node, i: usize, view: &TraceView) -> (r: bool)
    ensures
        r == node_fits(node, i as nat, *view),
{
    match node {
        Node::Constant { .. } => true,
        Node::Preprocessed { column, .. } => match &view.preprocessed {
            Some(m) => column < m.width,
            None => false,
        },
        Node::Main { part, column, .. } => part < view.partitioned_main.len()
            && column < view.partitioned_main[part].width,
        Node::Interaction { phase, column, .. } => phase < view.per_phase.len() && match &view.per_phase[phase].matrix {
            Some(m) => column < m.width,
            None => false,
        },
        Node::Public { index } => index < view.public_values.len(),
        Node::Challenge { phase, index } => phase < view.per_phase.len()
            && index < view.per_phase[phase].challenges.len(),
        Node::Exposed { phase, index } => phase < view.per_phase.len()
            && index < view.per_phase[phase].exposed_values.len(),
        Node::Add { left, right } => left < i && right < i,
        Node::Sub { left, right } => left < i && right < i,
        Node::Mul { left, right } => left < i && right < i,
        Node::Neg { child } => child < i,
    }
}

fn view_has_height_exec(view: &TraceView, n: usize) -> (r: bool)
    ensures
        r == view_has_height(*view, n as nat),
{
    if let Some(m) = &view.preprocessed {
        if !matrix_has_height(m, n) {
            return false;
        }
    }
    let mut k: usize = 0;
    while k < view.partitioned_main.len()
        invariant
            k <= view.partitioned_main@.len(),
            forall|j: int| 0 <= j < k ==> (#[trigger] view.partitioned_main@[j]).has_height(n as nat),
        decreases view.partitioned_main@.len() - k,
    {
        if !matrix_has_height(&view.partitioned_main[k], n) {
            return false;
        }
        k = k + 1;
    }
    let mut k: usize = 0;
    while k < view.per_phase.len()
        invariant
            k <= view.per_phase@.len(),
            forall|j: int| 0 <= j < k ==> ((#[trigger] view.per_phase@[j]).matrix matches Some(m) ==> m.has_height(n as nat)),
        decreases view.per_phase@.len() - k,
    {
        if let Some(m) = &view.per_phase[k].matrix {
            if !ext_matrix_has_height(m, n) {
                assert(!view_has_height(*view, n as nat)) by {
                    assert(view.per_phase@[k as int].matrix == Some(*m));
                };
                return false;
            }
        }
        k = k + 1;
    }
    true
}

/// Whether the DAG can be evaluated against the view on a domain of `n` points.
pub fn dag_fits_view(dag: &ConstraintDag, view: &TraceView, n: usize) -> (r: bool)
    ensures
        r == dag_fits(*dag, *view, n as nat),
{
    if !view_has_height_exec(view, n) {
        return false;
    }
    let mut i: usize = 0;
    while i < dag.nodes.len()
        invariant
            i <= dag.nodes@.len(),
            forall|j: int| 0 <= j < i ==> node_fits(#[trigger] dag.nodes@[j], j as nat, *view),
        decreases dag.nodes@.len() - i,
    {
        if !node_fits_exec(dag.nodes[i], i, view) {
            return false;
        }
        i = i + 1;
    }
    let mut k: usize = 0;
    while k < dag.constraints.len()
        invariant
            k <= dag.constraints@.len(),
            forall|j: int| 0 <= j < k ==> #[trigger] dag.constraints@[j] < dag.nodes@.len(),
        decreases dag.constraints@.len() - k,
    {
        if dag.constraints[k] >= dag.nodes.len() {
            return false;
        }
        k = k + 1;
    }
    true
}

} // verus!
