//! The quotient stage of a STARK prover over the BabyBear field.
//!
//! For each constraint system, the trace view (already extended onto the quotient
//! domain) is evaluated point by point through the constraint DAG, the constraints
//! are folded with a random `alpha`, and the result is divided by the trace domain's
//! vanishing polynomial. The quotients are then split into chunks of the trace
//! domain's size, ready for one batched commitment.

pub mod dag;
pub mod domain;
pub mod evaluator;
pub mod field;
pub mod quotient;
pub mod split;
pub mod validate;
