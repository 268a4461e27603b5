//! Local state, snapshot encryption and manifest signing for a zero-knowledge
//! secrets command-line tool.
pub mod sorted_map;
pub mod error;
pub mod api;
pub mod json;
pub mod codec;
pub mod primitives;
pub mod state;
pub mod crypto;
pub mod text;
pub mod workflow;
pub mod runner;
