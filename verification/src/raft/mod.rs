//! What the replicated log is asked to do.
pub mod cluster;
