//! The screens of the workbench.

pub mod compare;
pub mod evals;
pub mod failure_inbox;
