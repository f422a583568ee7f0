//! Core of an autonomous-agent driver: a dynamic tool-dispatch layer
//! (typed capability registration, JSON-schema sanitization, name-based
//! dispatch with errors reported as data) and the agent stepping protocol
//! (request construction, multi-call fan-out, history accumulation,
//! termination signaling).

pub mod bot;
pub mod common;
pub mod config;
pub mod json;
pub mod rpc;
pub mod schema;
pub mod signal;
pub mod text;
pub mod working_memory;
