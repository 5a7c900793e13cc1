//! How naming changes travel from one node to its peers.
pub mod model;
pub mod route;
pub mod sync_sender;
