//! Formal checks of a graph: which queries to ask and what the answers mean.

pub mod report;

pub use report::{SolverOutcome, VerificationResult};
