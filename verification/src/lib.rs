//! A log-drain bridge: verifies webhook signatures, parses log batches into
//! normalized messages, and plans their delivery to configurable sinks.

pub mod controller;
pub mod drivers;
pub mod encoding;
pub mod handlers;
pub mod json;
pub mod signature;
pub mod types;
