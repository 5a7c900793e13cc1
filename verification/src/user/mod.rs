//! Users of the console and what they may do.
pub mod model;
pub mod permission;
