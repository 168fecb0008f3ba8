//! Verified decision logic of two document ingestion front ends.

pub mod batch;
pub mod checkpoint;
pub mod laws;
pub mod message;
pub mod push_api;
pub mod region;
pub mod shard_map;
pub mod source;
pub mod state;
pub mod step_laws;
pub mod strings;
