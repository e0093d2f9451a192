use quotient_core::dag::{ConstraintDag, ExtMatrix, Matrix, Node, PhaseView, TraceView};
use quotient_core::domain::Coset;
use quotient_core::evaluator::eval_combined;
use quotient_core::field::{ext_scale, Ext};
use quotient_core::quotient::{QuotientCommitter, QuotientError};

fn ext(c0: u32) -> Ext {
    Ext { c0, c1: 0, c2: 0, c3: 0 }
}

fn zero_column_dag() -> ConstraintDag {
    ConstraintDag {
        nodes: vec![Node::Main { part: 0, column: 0, next: false }],
        constraints: vec![0],
    }
}

fn view(log_trace_height: usize, column: Vec<u32>, per_phase: Vec<PhaseView>) -> TraceView {
    TraceView {
        log_trace_height,
        preprocessed: None,
        partitioned_main: vec![Matrix { width: 1, values: column }],
        public_values: vec![],
        per_phase,
    }
}

fn phase(matrix: Option<ExtMatrix>) -> PhaseView {
    PhaseView { matrix, challenges: vec![ext(3)], exposed_values: vec![ext(5)] }
}

#[test]
fn zero_trace_gives_zero_quotient_and_two_zero_chunks() {
    let committer = QuotientCommitter::new(ext(7));
    let data = committer
        .quotient_values(&vec![zero_column_dag()], vec![view(2, vec![0; 8], vec![])], &vec![2])
        .unwrap();
    assert_eq!(data.inner.len(), 1);
    assert_eq!(data.inner[0].quotient_degree, 2);
    assert_eq!(data.inner[0].quotient_domain.size(), 8);
    assert_eq!(data.inner[0].quotient_values, vec![ext(0); 8]);
    let (heights, chunks) = committer.commit_layout(data);
    assert_eq!(heights, vec![2, 2]);
    assert_eq!(chunks.len(), 2);
    for c in &chunks {
        assert_eq!(c.domain.size(), 4);
        assert_eq!(c.chunk.width, 4);
        assert_eq!(c.chunk.values, vec![0u32; 16]);
    }
}

#[test]
fn more_systems_than_views_is_a_length_mismatch() {
    let committer = QuotientCommitter::new(ext(7));
    let r = committer.quotient_values(
        &vec![zero_column_dag(), zero_column_dag()],
        vec![view(2, vec![0; 8], vec![])],
        &vec![2, 2],
    );
    assert_eq!(r.unwrap_err(), QuotientError::LengthMismatch);
}

#[test]
fn phase_without_matrix_before_one_with_matrix_is_a_gap() {
    let m = || Some(ExtMatrix { width: 1, values: vec![ext(0); 8] });
    let committer = QuotientCommitter::new(ext(7));
    let r = committer.quotient_values(
        &vec![zero_column_dag()],
        vec![view(2, vec![0; 8], vec![phase(m()), phase(None), phase(m())])],
        &vec![2],
    );
    assert_eq!(r.unwrap_err(), QuotientError::PhaseGap);
    let trailing = committer.quotient_values(
        &vec![zero_column_dag()],
        vec![view(2, vec![0; 8], vec![phase(m()), phase(None)])],
        &vec![2],
    );
    assert!(trailing.is_ok());
}

#[test]
fn references_outside_the_view_are_malformed() {
    let committer = QuotientCommitter::new(ext(7));
    let bad_column = ConstraintDag {
        nodes: vec![Node::Main { part: 0, column: 1, next: false }],
        constraints: vec![0],
    };
    let r = committer.quotient_values(&vec![bad_column], vec![view(2, vec![0; 8], vec![])], &vec![2]);
    assert_eq!(r.unwrap_err(), QuotientError::MalformedInput);
    let short = committer.quotient_values(&vec![zero_column_dag()], vec![view(2, vec![0; 4], vec![])], &vec![2]);
    assert_eq!(short.unwrap_err(), QuotientError::MalformedInput);
    let forward = ConstraintDag {
        nodes: vec![Node::Neg { child: 0 }],
        constraints: vec![0],
    };
    let r = committer.quotient_values(&vec![forward], vec![view(2, vec![0; 8], vec![])], &vec![2]);
    assert_eq!(r.unwrap_err(), QuotientError::MalformedInput);
}

/// `x * x - x` on column 0, and `next(x) - challenge` on the interaction column.
fn mixed_dag() -> ConstraintDag {
    ConstraintDag {
        nodes: vec![
            Node::Main { part: 0, column: 0, next: false },
            Node::Mul { left: 0, right: 0 },
            Node::Sub { left: 1, right: 0 },
            Node::Interaction { phase: 0, column: 0, next: true },
            Node::Challenge { phase: 0, index: 0 },
            Node::Sub { left: 3, right: 4 },
            Node::Exposed { phase: 0, index: 0 },
            Node::Add { left: 5, right: 6 },
        ],
        constraints: vec![2, 7],
    }
}

fn mixed_view(n: usize) -> TraceView {
    let column: Vec<u32> = (0..n as u32).map(|i| i * 3 + 1).collect();
    let inter = ExtMatrix { width: 1, values: (0..n as u32).map(|i| Ext { c0: i, c1: 1, c2: 2, c3: i * i }).collect() };
    view(2, column, vec![phase(Some(inter))])
}

#[test]
fn quotient_times_vanishing_gives_the_combined_value() {
    let alpha = Ext { c0: 9, c1: 4, c2: 0, c3: 1 };
    let committer = QuotientCommitter::new(alpha);
    let data = committer.quotient_values(&vec![mixed_dag()], vec![mixed_view(8)], &vec![2]).unwrap();
    let s = &data.inner[0];
    let trace = Coset::natural_domain(2);
    let points = s.quotient_domain.points();
    let v = mixed_view(8);
    let dag = mixed_dag();
    let mut nonzero = 0;
    for p in 0..8 {
        let z = trace.vanishing_at(points[p]);
        assert_ne!(z, 1);
        let c = eval_combined(&dag, &v, alpha, 8, p);
        assert_eq!(ext_scale(s.quotient_values[p], z), c);
        if c != ext(0) {
            nonzero += 1;
            assert_ne!(s.quotient_values[p], c);
        }
    }
    assert!(nonzero > 0);
}

#[test]
fn satisfied_constraint_is_zero_on_the_trace_domain() {
    // x * x - x vanishes on a column of zeros and ones.
    let dag = ConstraintDag {
        nodes: vec![
            Node::Main { part: 0, column: 0, next: false },
            Node::Mul { left: 0, right: 0 },
            Node::Sub { left: 1, right: 0 },
        ],
        constraints: vec![2],
    };
    let v = view(2, vec![0, 1, 1, 0], vec![]);
    for p in 0..4 {
        assert_eq!(eval_combined(&dag, &v, ext(12345), 4, p), ext(0));
    }
}

#[test]
fn constraints_fold_with_alpha_in_declared_order() {
    let dag = ConstraintDag {
        nodes: vec![Node::Constant { value: 2 }, Node::Constant { value: 5 }],
        constraints: vec![0, 1],
    };
    let v = view(0, vec![0], vec![]);
    // (0 * 10 + 2) * 10 + 5
    assert_eq!(eval_combined(&dag, &v, ext(10), 1, 0), ext(25));
    let swapped = ConstraintDag { nodes: dag.nodes.clone(), constraints: vec![1, 0] };
    assert_eq!(eval_combined(&swapped, &v, ext(10), 1, 0), ext(52));
}

#[test]
fn next_row_wraps_around() {
    let dag = ConstraintDag {
        nodes: vec![Node::Main { part: 0, column: 0, next: true }],
        constraints: vec![0],
    };
    let v = view(2, vec![10, 11, 12, 13], vec![]);
    assert_eq!(eval_combined(&dag, &v, ext(1), 4, 0), ext(11));
    assert_eq!(eval_combined(&dag, &v, ext(1), 4, 3), ext(10));
}

#[test]
fn identical_inputs_give_identical_quotients() {
    let alpha = Ext { c0: 9, c1: 4, c2: 0, c3: 1 };
    let committer = QuotientCommitter::new(alpha);
    let a = committer.quotient_values(&vec![mixed_dag()], vec![mixed_view(16)], &vec![4]).unwrap();
    let b = committer.quotient_values(&vec![mixed_dag()], vec![mixed_view(16)], &vec![4]).unwrap();
    assert_eq!(a.inner[0].quotient_values, b.inner[0].quotient_values);
    let (ha, ca) = committer.commit_layout(a);
    let (hb, cb) = committer.commit_layout(b);
    assert_eq!(ha, hb);
    for (x, y) in ca.iter().zip(cb.iter()) {
        assert_eq!(x.domain, y.domain);
        assert_eq!(x.chunk.values, y.chunk.values);
    }
}

#[test]
fn chunks_recombine_to_the_flattened_quotient() {
    let alpha = Ext { c0: 9, c1: 4, c2: 0, c3: 1 };
    let committer = QuotientCommitter::new(alpha);
    let data = committer.quotient_values(&vec![mixed_dag()], vec![mixed_view(16)], &vec![4]).unwrap();
    let q = data.inner[0].quotient_values.clone();
    let flat: Vec<u32> = q.iter().flat_map(|e| [e.c0, e.c1, e.c2, e.c3]).collect();
    let chunks = data.inner[0].split();
    assert_eq!(chunks.len(), 4);
    let mut back = vec![0u32; flat.len()];
    for (i, c) in chunks.iter().enumerate() {
        assert_eq!(c.chunk.values.len(), 16);
        for j in 0..4 {
            let r = j * 4 + i;
            back[r * 4..r * 4 + 4].copy_from_slice(&c.chunk.values[j * 4..j * 4 + 4]);
        }
    }
    assert_eq!(back, flat);
}

#[test]
fn several_systems_are_committed_together() {
    let alpha = Ext { c0: 9, c1: 4, c2: 0, c3: 1 };
    let committer = QuotientCommitter::new(alpha);
    let data = committer
        .quotient_values(
            &vec![zero_column_dag(), mixed_dag()],
            vec![view(2, vec![0; 8], vec![]), mixed_view(16)],
            &vec![2, 4],
        )
        .unwrap();
    let (heights, chunks) = committer.commit_layout(data);
    assert_eq!(heights, vec![2, 2, 2, 2, 2, 2]);
    assert_eq!(chunks.len(), 6);
    assert_eq!(chunks[0].domain.shift, 31);
    assert_eq!(chunks[2].domain.shift, 31);
    let first = Coset::natural_domain(2).create_disjoint_domain(8).points();
    assert_eq!(chunks[1].domain.shift, first[1]);
}
