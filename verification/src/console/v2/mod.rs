//! The second version of the console's interface.
pub mod naming_api;
