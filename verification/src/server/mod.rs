//! Request handling for the ingestion side and the lifecycle of a viewer
//! connection.

pub mod http;
pub mod http_simple;
pub mod tcp;
