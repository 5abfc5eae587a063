//! The shared state of the bridge: the registry of sinks.

pub mod stormworks;

pub use stormworks::{AppState, Sink};
