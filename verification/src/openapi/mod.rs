//! The open interface of the server.
pub mod naming;
