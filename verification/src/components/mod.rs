//! Reusable input and summary components.

pub mod button;
pub mod telemetry_gaps;
pub mod text_input;

pub use telemetry_gaps::telemetry_gap_summary;
pub use text_input::TextInput;
