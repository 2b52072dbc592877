//! SimEngine: the verified core of a plugin-based simulation engine.
//!
//! The library holds the manifest model and its validation, the engine and
//! simulation state machine, the frame driver that decides which lifecycle
//! hook runs next, the host-side value store through which instruments flow,
//! and the framing of messages sent between engines.
pub mod manifest;
pub mod network;
pub mod plugin_api;
pub mod runtime;
pub mod search;
pub mod store;
