//! Constraint systems as a DAG of arithmetic nodes in an arena, the trace view
//! they are evaluated against, and the value of each node at a point.
use crate::field::{ext_add_spec, ext_from_base_spec, ext_mul_spec, ext_neg_spec, ext_sub_spec, ext_zero, Ext};
use vstd::prelude::*;

verus! {

/// A row-major matrix of base-field values.
#[derive(Debug)]
pub struct Matrix {
    pub width: usize,
    pub values: Vec<u32>,
}

/// A row-major matrix of extension-field values.
#[derive(Debug)]
pub struct ExtMatrix {
    pub width: usize,
    pub values: Vec<Ext>,
}

impl Matrix {
    pub open spec fn has_height(self, n: nat) -> bool {
        self.values@.len() == n * self.width
    }

    pub open spec fn cell(self, row: nat, col: nat) -> u32 {
        self.values@[row * self.width + col]
    }
}

impl ExtMatrix {
    pub open spec fn has_height(self, n: nat) -> bool {
        self.values@.len() == n * self.width
    }

    pub open spec fn cell(self, row: nat, col: nat) -> Ext {
        self.values@[row * self.width + col]
    }
}

/// One node of a constraint DAG. Children are referred to by their index in the
/// arena, which is always smaller than the node's own index.
#[derive(Clone, Copy, Debug, PartialEq, Eq, Structural)]
pub enum Node {
    Constant { value: u32 },
    /// A preprocessed cell, on this row or the next.
    Preprocessed { column: usize, next: bool },
    /// A cell of one part of the partitioned main trace.
    Main { part: usize, column: usize, next: bool },
    /// A cell of the matrix committed in an interaction phase.
    Interaction { phase: usize, column: usize, next: bool },
    Public { index: usize },
    Challenge { phase: usize, index: usize },
    Exposed { phase: usize, index: usize },
    Add { left: usize, right: usize },
    Sub { left: usize, right: usize },
    Mul { left: usize, right: usize },
    Neg { child: usize },
}

/// A constraint system: the node arena in topological order and the indices of the
/// top-level constraints, in their declared order.
#[derive(Debug)]
pub struct ConstraintDag {
    pub nodes: Vec<Node>,
    pub constraints: Vec<usize>,
}

/// What one interaction phase contributes.
#[derive(Debug)]
pub struct PhaseView {
    /// The committed matrix of this phase, if it committed one.
    pub matrix: Option<ExtMatrix>,
    pub challenges: Vec<Ext>,
    pub exposed_values: Vec<Ext>,
}

/// The trace of one computation, extended onto its quotient domain.
#[derive(Debug)]
pub struct TraceView {
    pub log_trace_height: usize,
    pub preprocessed: Option<Matrix>,
    pub partitioned_main: Vec<Matrix>,
    pub public_values: Vec<u32>,
    pub per_phase: Vec<PhaseView>,
}

/// Some phase lacks a committed matrix while a later one has one.
pub open spec fn has_phase_gap(phases: Seq<PhaseView>) -> bool {
    exists|i: int, j: int|
        0 <= i < j < phases.len() && (#[trigger] phases[i]).matrix is None
            && (#[trigger] phases[j]).matrix is Some
}

/// Every matrix of the view has `n` rows.
pub open spec fn view_has_height(view: TraceView, n: nat) -> bool {
    &&& (view.preprocessed matches Some(m) ==> m.has_height(n))
    &&& forall|k: int| 0 <= k < view.partitioned_main@.len()
        ==> (#[trigger] view.partitioned_main@[k]).has_height(n)
    &&& forall|k: int| 0 <= k < view.per_phase@.len()
        ==> ((#[trigger] view.per_phase@[k]).matrix matches Some(m) ==> m.has_height(n))
}

/// Node `i` refers only to earlier nodes and to data that the view holds.
pub open spec fn node_fits(node: Node, i: nat, view: TraceView) -> bool {
    match node {
        Node::Constant { .. } => true,
        Node::Preprocessed { column, .. } => (view.preprocessed matches Some(m) && column < m.width),
        Node::Main { part, column, .. } => part < view.partitioned_main@.len()
            && column < view.partitioned_main@[part as int].width,
        Node::Interaction { phase, column, .. } => phase < view.per_phase@.len()
            && (view.per_phase@[phase as int].matrix matches Some(m) && column < m.width),
        Node::Public { index } => index < view.public_values@.len(),
        Node::Challenge { phase, index } => phase < view.per_phase@.len()
            && index < view.per_phase@[phase as int].challenges@.len(),
        Node::Exposed { phase, index } => phase < view.per_phase@.len()
            && index < view.per_phase@[phase as int].exposed_values@.len(),
        Node::Add { left, right } => left < i && right < i,
        Node::Sub { left, right } => left < i && right < i,
        Node::Mul { left, right } => left < i && right < i,
        Node::Neg { child } => child < i,
    }
}

/// The DAG can be evaluated against the view on a domain of `n` points.
pub open spec fn dag_fits(dag: ConstraintDag, view: TraceView, n: nat) -> bool {
    &&& view_has_height(view, n)
    &&& forall|i: int| 0 <= i < dag.nodes@.len() ==> node_fits(#[trigger] dag.nodes@[i], i as nat, view)
    &&& forall|k: int| 0 <= k < dag.constraints@.len() ==> #[trigger] dag.constraints@[k] < dag.nodes@.len()
}

/// The row read for point `p`: `p` itself, or the one after it, wrapping around.
pub open spec fn row_of(p: nat, next: bool, n: nat) -> nat {
    if next {
        (((p as int) + 1) % (n as int)) as nat
    } else {
        p
    }
}

/// The value of node `i` at point `p` of a domain of `n` points.
pub open spec fn node_value(dag: ConstraintDag, view: TraceView, n: nat, p: nat, i: nat) -> Ext
    decreases i,
{
    if i >= dag.nodes@.len() {
        ext_zero()
    } else {
        match dag.nodes@[i as int] {
            Node::Constant { value } => ext_from_base_spec(value),
            Node::Preprocessed { column, next } => match view.preprocessed {
                Some(m) => ext_from_base_spec(m.cell(row_of(p, next, n), column as nat)),
                None => ext_zero(),
            },
            Node::Main { part, column, next } => ext_from_base_spec(
                view.partitioned_main@[part as int].cell(row_of(p, next, n), column as nat),
            ),
            Node::Interaction { phase, column, next } => match view.per_phase@[phase as int].matrix {
                Some(m) => m.cell(row_of(p, next, n), column as nat),
                None => ext_zero(),
            },
            Node::Public { index } => ext_from_base_spec(view.public_values@[index as int]),
            Node::Challenge { phase, index } => view.per_phase@[phase as int].challenges@[index as int],
            Node::Exposed { phase, index } => view.per_phase@[phase as int].exposed_values@[index as int],
            Node::Add { left, right } => if left < i && right < i {
                ext_add_spec(node_value(dag, view, n, p, left as nat), node_value(dag, view, n, p, right as nat))
            } else {
                ext_zero()
            },
            Node::Sub { left, right } => if left < i && right < i {
                ext_sub_spec(node_value(dag, view, n, p, left as nat), node_value(dag, view, n, p, right as nat))
            } else {
                ext_zero()
            },
            Node::Mul { left, right } => if left < i && right < i {
                ext_mul_spec(node_value(dag, view, n, p, left as nat), node_value(dag, view, n, p, right as nat))
            } else {
                ext_zero()
            },
            Node::Neg { child } => if child < i {
                ext_neg_spec(node_value(dag, view, n, p, child as nat))
            } else {
                ext_zero()
            },
        }
    }
}

/// The first `k` constraints folded with `alpha`: `acc = acc * alpha + constraint`.
pub open spec fn combine(dag: ConstraintDag, view: TraceView, alpha: Ext, n: nat, p: nat, k: nat) -> Ext
    decreases k,
{
    if k == 0 {
        ext_zero()
    } else {
        ext_add_spec(
            ext_mul_spec(combine(dag, view, alpha, n, p, (k - 1) as nat), alpha),
            node_value(dag, view, n, p, dag.constraints@[k - 1] as nat),
        )
    }
}

/// The combined constraint value at point `p`, before division.
pub open spec fn combined_value(dag: ConstraintDag, view: TraceView, alpha: Ext, n: nat, p: nat) -> Ext {
    combine(dag, view, alpha, n, p, dag.constraints@.len())
}

} // verus!
