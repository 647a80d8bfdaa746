//! Embedded-engine statement dispatch and ranked search execution.
//!
//! The crate has two halves. An interception layer decides, per host
//! statement, whether the embedded engines serve it or it falls through to
//! the host executor, flushing pending writes first so that reads see them.
//! A search execution engine binds an immutable index snapshot, runs ranked
//! top-k retrieval with an external-key score override, and deduplicates the
//! ranked results by key.

pub mod statement;
pub mod interceptor;
pub mod dedup;
pub mod search;
