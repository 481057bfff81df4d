//! Which backend the application runs on.

use vstd::prelude::*;

verus! {

/// The backend of a running application.
#[derive(Debug, Clone, Copy, PartialEq, Eq, Structural)]
pub enum RuntimeMode {
    Embedded,
    Fixture,
}

impl RuntimeMode {
    /// A trace file, where one is configured, is shown instead of live data.
    pub fn detect(trace_file_configured: bool) -> (mode: Self)
        ensures
            mode == (if trace_file_configured {
                RuntimeMode::Fixture
            } else {
                RuntimeMode::Embedded
            }),
    {
        if trace_file_configured {
            RuntimeMode::Fixture
        } else {
            RuntimeMode::Embedded
        }
    }
}

} // verus!
