//! The administrative console: what it accepts and what it answers.
pub mod model;
pub mod v2;
