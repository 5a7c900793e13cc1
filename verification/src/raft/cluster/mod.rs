//! Requests that go through the replicated log.
pub mod model;
