//! In-memory naming registry: service keys, the subscription index and the
//! rules that decide how naming changes travel between nodes.
pub mod common;
pub mod config;
pub mod naming;
pub mod grpc;
pub mod console;
pub mod user;
pub mod raft;
pub mod openapi;
