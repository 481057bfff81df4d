//! Shared design decisions.

pub mod tokens;

pub use tokens::{Breakpoint, ControlSize, ExecutionRole, Geometry, Spacing, Theme, Typography};
