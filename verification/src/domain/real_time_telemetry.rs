//! Sinks that stream to a viewer over a connection.

use crate::domain::acmi::{AcmiRepository, StreamFault};
use vstd::prelude::*;

verus! {

/// Why a handshake failed.
#[derive(Clone, Copy, Debug, PartialEq, Eq, Structural)]
pub enum HandshakeError {
    /// The greeting could not be sent.
    Greeting(StreamFault),
    /// The viewer's reply could not be read.
    Reply(StreamFault),
    /// The viewer closed the connection instead of replying.
    Disconnected,
    /// The header could not be sent.
    Header(StreamFault),
    /// The present time, which the header carries, could not be had.
    Clock,
}

/// A sink on a connection, which must greet its peer before it is given
/// records and which closes for good. How the sink of this crate does
/// that is stated on its own functions; the trait asks nothing of others.
pub trait RealTimeTelemetryRepository: AcmiRepository {
    /// Greets the viewer and sends the header.
    fn handshake(&mut self) -> Result<(), HandshakeError>;

    /// Whether the connection has been closed.
    fn is_closed(&self) -> bool;
}

} // verus!
