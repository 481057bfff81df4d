//! Draft evals, human answers, calibration, and quality checks.

pub mod calibration;
pub mod human_review;
pub mod review;
pub mod studio;
