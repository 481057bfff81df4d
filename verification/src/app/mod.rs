//! Start-up decisions.

pub mod runtime_mode;

pub use runtime_mode::RuntimeMode;
