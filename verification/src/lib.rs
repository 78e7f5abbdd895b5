//! Triage scheduling for an emergency department.
//!
//! Patients carry a severity, a waiting time and an estimated treatment
//! time. A weighted score turns these into a priority, and a single
//! max-priority queue decides who is treated next.

mod heap;
pub mod patient;
pub mod position;
pub mod queue;
pub mod sampling;
pub mod score;
