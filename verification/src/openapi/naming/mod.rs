//! The open interface to the naming subsystem.
pub mod catalog;
