//! The naming subsystem: service keys, instances and their propagation.
pub mod api_model;
pub mod cluster;
pub mod naming_core;
pub mod naming_delay_notify;
pub mod naming_store;
pub mod naming_subscriber;
pub mod model;
