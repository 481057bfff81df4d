//! Caching, request and subscription bookkeeping shared by the screens.

pub mod bounded_cache;
pub mod query;
pub mod subscription;

pub use bounded_cache::BoundedPageCache;
pub use query::{RequestGeneration, ScopedRequestTracker};
pub use subscription::{SequenceStatus, SequenceTracker};
