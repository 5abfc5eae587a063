//! The two sinks: the recorder and the live connection.

pub mod acmi_file;
pub mod clock;
pub mod real_time_telemetry;

pub use acmi_file::FileAcmiRepository;
pub use real_time_telemetry::TcpRealTimeTelemetryRepository;
