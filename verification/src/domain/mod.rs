//! What every consumer of telemetry records offers, whatever it does with
//! them.

pub mod acmi;
pub mod acmi_file;
pub mod real_time_telemetry;

pub use acmi::AcmiRepository;
pub use acmi_file::AcmiFileRepository;
pub use real_time_telemetry::RealTimeTelemetryRepository;
