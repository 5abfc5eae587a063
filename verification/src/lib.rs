//! Telemetry bridge core: takes text records from one producer and fans
//! them out to a recorder and to live viewer connections.
//!
//! * [`domain`]: what a sink is, and the header that opens every stream.
//! * [`infra`]: the two sinks. The recorder stages a recording in memory
//!   and turns it into an archive; the live sink is the state of one
//!   viewer connection and says, step by step, what to do on its stream.
//! * [`handlers`]: the registry of sinks and the fan-out.
//! * [`server`]: reading commands out of requests, and the life of a
//!   viewer connection.
//! * [`config`]: the output directory and the naming of recordings.
//!
//! Streams, files and timers stay with the caller, which performs what
//! the library asks for and reports back how it went.

pub mod config;
pub mod domain;
pub mod handlers;
pub mod infra;
pub mod server;
pub mod text;

pub use config::AppConfig;
pub use domain::{AcmiFileRepository, AcmiRepository, RealTimeTelemetryRepository};
pub use handlers::AppState;
pub use infra::{FileAcmiRepository, TcpRealTimeTelemetryRepository};
