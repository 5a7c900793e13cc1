//! The shapes of the console's requests and answers.
pub mod naming_model;
