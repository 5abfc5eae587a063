//! The live sink: what a connection to a viewer has been through, and what
//! to do next at each step of its handshake and of a write. The stream
//! itself stays with the caller, which performs each step and reports how
//! it went.

use crate::domain::acmi::{
    acmi_header, bridge_name, bridge_name_text, build_acmi_header, StreamFault, WriteError,
};
use crate::domain::real_time_telemetry::HandshakeError;
use crate::infra::clock::{
    is_timestamp_text, reading_as_text, reading_text, since_epoch, spec_timestamp_text,
};
use vstd::prelude::*;
use vstd::string::StringExecFns;

verus! {

/// The greeting that opens the handshake: the two protocol lines, the
/// bridge as host, and a closing zero.
pub open spec fn greeting_text() -> Seq<char> {
    "XtraLib.Stream.0\nTacview.RealTimeTelemetry.0\nHost "@ + bridge_name() + "\n\0"@
}

/// The header sent to a viewer: the header block for `time`, closed by
/// the first time frame marker.
pub open spec fn realtime_header(time: Seq<char>) -> Seq<char> {
    acmi_header(time) + "#0.001\n"@
}

/// Builds the header sent to a viewer for the given time.
pub fn generate_realtime_header(time: &str) -> (r: String)
    ensures
        r@ == realtime_header(time@),
{
    let mut r = build_acmi_header(time);
    r.append("#0.001\n");
    r
}

/// How a connection ended, for the log.
#[derive(Clone, Copy, Debug, PartialEq, Eq, Structural)]
pub enum Disconnect {
    /// The viewer closed the connection.
    ClosedByClient,
    /// The connection failed in some other way.
    Unexpected,
}

/// How `fault` is reported: an aborted connection or a broken pipe means
/// that the viewer went away.
pub open spec fn classify(fault: StreamFault) -> Disconnect {
    match fault {
        StreamFault::ConnectionAborted | StreamFault::BrokenPipe => Disconnect::ClosedByClient,
        StreamFault::Other => Disconnect::Unexpected,
    }
}

/// How `fault` is reported.
pub fn disconnect_kind(fault: StreamFault) -> (r: Disconnect)
    ensures
        r == classify(fault),
{
    match fault {
        StreamFault::ConnectionAborted => Disconnect::ClosedByClient,
        StreamFault::BrokenPipe => Disconnect::ClosedByClient,
        StreamFault::Other => Disconnect::Unexpected,
    }
}

/// A step of the handshake.
#[derive(Clone, Copy, Debug, PartialEq, Eq, Structural)]
pub enum HandshakeStep {
    /// Send the greeting.
    SendGreeting,
    /// Read the viewer's reply.
    ReadReply,
    /// Send the header.
    SendHeader,
    /// Nothing is left to do.
    Finished,
}

/// How a step on the stream went.
#[derive(Clone, Copy, Debug, PartialEq, Eq, Structural)]
pub enum StepOutcome {
    /// It went through and moved this many bytes.
    Done(usize),
    /// It failed.
    Failed(StreamFault),
}

/// What to do on the stream.
#[derive(Debug)]
pub enum HandshakeAction {
    /// Send this text.
    Send(String),
    /// Read one frame.
    Read,
    /// The handshake is complete.
    Finish,
}

/// What follows `step` once it went as `outcome` says: the next step, or
/// the failure of the handshake. A failed step fails the handshake, and so
/// does a reply of no bytes; whatever the viewer does reply is accepted.
pub open spec fn handshake_next(step: HandshakeStep, outcome: StepOutcome) -> Result<
    HandshakeStep,
    HandshakeError,
> {
    match step {
        HandshakeStep::SendGreeting => match outcome {
            StepOutcome::Done(_) => Ok(HandshakeStep::ReadReply),
            StepOutcome::Failed(fault) => Err(HandshakeError::Greeting(fault)),
        },
        HandshakeStep::ReadReply => match outcome {
            StepOutcome::Done(n) => if n == 0 {
                Err(HandshakeError::Disconnected)
            } else {
                Ok(HandshakeStep::SendHeader)
            },
            StepOutcome::Failed(fault) => Err(HandshakeError::Reply(fault)),
        },
        HandshakeStep::SendHeader => match outcome {
            StepOutcome::Done(_) => Ok(HandshakeStep::Finished),
            StepOutcome::Failed(fault) => Err(HandshakeError::Header(fault)),
        },
        HandshakeStep::Finished => Ok(HandshakeStep::Finished),
    }
}

/// What a write has to do on the stream.
#[derive(Clone, Copy, Debug, PartialEq, Eq, Structural)]
pub enum WriteAction {
    /// Nothing: the connection is closed, and the write succeeds as it is.
    Skip,
    /// Send the record as it stands and flush.
    Send {
        /// How many records were sent before this one.
        sent_before: u64,
        /// Whether the send is worth a line in the log.
        announce: bool,
    },
}

/// How sending a record went.
#[derive(Clone, Copy, Debug, PartialEq, Eq, Structural)]
pub enum SendOutcome {
    /// The record was sent and flushed.
    Sent,
    /// Sending failed.
    SendFailed(StreamFault),
    /// Flushing failed.
    FlushFailed(StreamFault),
}

/// What to log after a record was sent.
#[derive(Clone, Copy, Debug, PartialEq, Eq, Structural)]
pub enum SentNote {
    /// Nothing.
    Silent,
    /// That the message went out.
    Delivered,
    /// That the connection is healthy.
    Healthy,
}

/// Whether sending the record after `sent_before` others is announced:
/// when verbose, the first five and then every hundredth.
pub open spec fn announces(verbose: bool, sent_before: u64) -> bool {
    verbose && (sent_before < 5 || sent_before % 100 == 0)
}

/// What is logged once the record after `sent_before` others went out:
/// when verbose, each of the first five; else a sign of life at every
/// five hundredth.
pub open spec fn sent_note(verbose: bool, sent_before: u64) -> SentNote {
    if verbose && sent_before < 5 {
        SentNote::Delivered
    } else if sent_before % 500 == 0 && sent_before > 0 {
        SentNote::Healthy
    } else {
        SentNote::Silent
    }
}

/// The result of a write whose send went as `outcome` says.
pub open spec fn write_result(outcome: SendOutcome) -> Result<(), WriteError> {
    match outcome {
        SendOutcome::Sent => Ok(()),
        SendOutcome::SendFailed(fault) => Err(WriteError::Send(fault)),
        SendOutcome::FlushFailed(fault) => Err(WriteError::Flush(fault)),
    }
}

/// What the core knows of a connection to a viewer.
pub struct LiveConnectionState {
    /// Whether the connection is closed. Once true it stays true.
    pub closed: bool,
    /// How many records were handed to the stream.
    pub message_count: u64,
}

impl LiveConnectionState {
    /// The state after a write was opened: on an open connection one
    /// record more counts as handed to the stream; the count starts over
    /// when it has run through all 64-bit numbers.
    pub open spec fn after_begin_write(self) -> LiveConnectionState {
        if self.closed {
            self
        } else {
            LiveConnectionState {
                closed: false,
                message_count: if self.message_count == u64::MAX {
                    0
                } else {
                    (self.message_count + 1) as u64
                },
            }
        }
    }

    /// The state after the send of a write went as `outcome` says: a
    /// failure closes the connection.
    pub open spec fn after_finish_write(self, outcome: SendOutcome) -> LiveConnectionState {
        LiveConnectionState {
            closed: self.closed || write_result(outcome) is Err,
            message_count: self.message_count,
        }
    }
}

/// On an open connection, a write whose send or flush fails returns that
/// failure and leaves the connection closed; every write after it is
/// skipped and succeeds without touching the stream, and the connection
/// stays closed whatever is written.
pub proof fn law_failed_send_closes_for_good(
    state: LiveConnectionState,
    failure: SendOutcome,
    later: SendOutcome,
)
    requires
        !state.closed,
        failure != SendOutcome::Sent,
    ensures
        write_result(failure) is Err,
        state.after_begin_write().after_finish_write(failure).closed,
        state.after_begin_write().after_finish_write(failure).after_begin_write()
            == state.after_begin_write().after_finish_write(failure),
        state.after_begin_write().after_finish_write(failure).after_finish_write(later).closed,
{
}

/// The live sink's side of a connection to a viewer.
pub struct TcpRealTimeTelemetryRepository {
    closed: bool,
    message_count: u64,
    verbose: bool,
}

impl View for TcpRealTimeTelemetryRepository {
    type V = LiveConnectionState;

    closed spec fn view(&self) -> LiveConnectionState {
        LiveConnectionState { closed: self.closed, message_count: self.message_count }
    }
}

impl TcpRealTimeTelemetryRepository {
    /// Whether the sink logs its first messages.
    pub closed spec fn verbose(&self) -> bool {
        self.verbose
    }

    /// The sink for a fresh connection.
    pub fn new() -> (r: Self)
        ensures
            !r@.closed,
            r@.message_count == 0,
            !r.verbose(),
    {
        TcpRealTimeTelemetryRepository { closed: false, message_count: 0, verbose: false }
    }

    /// The sink for a fresh connection, verbose or not.
    pub fn new_with_verbose(verbose: bool) -> (r: Self)
        ensures
            !r@.closed,
            r@.message_count == 0,
            r.verbose() == verbose,
    {
        TcpRealTimeTelemetryRepository { closed: false, message_count: 0, verbose }
    }

    /// Whether the connection is closed.
    pub fn is_closed(&self) -> (b: bool)
        ensures
            b == self@.closed,
    {
        self.closed
    }

    /// How many records were handed to the stream.
    pub fn message_count(&self) -> (n: u64)
        ensures
            n == self@.message_count,
    {
        self.message_count
    }

    /// The greeting that opens the handshake.
    pub fn handshake_greeting() -> (r: String)
        ensures
            r@ == greeting_text(),
    {
        let mut r = String::from_str("XtraLib.Stream.0\nTacview.RealTimeTelemetry.0\nHost ");
        r.append(bridge_name_text());
        r.append("\n\0");
        r
    }

    /// Records that the stream failed: the connection is closed from now
    /// on. Says how to report the failure.
    pub fn handle_connection_error(&mut self, fault: StreamFault) -> (r: Disconnect)
        ensures
            r == classify(fault),
            final(self)@.closed,
            final(self)@.message_count == old(self)@.message_count,
            final(self).verbose() == old(self).verbose(),
    {
        self.closed = true;
        disconnect_kind(fault)
    }

    /// What to do on the stream at `step`, when the clock was read as
    /// `reading`. The header carries the instant that was read, as
    /// reference time and as recording time. When there is no reading, or
    /// the instant has no text form, the header cannot be made: the
    /// handshake fails and the connection is closed.
    pub fn handshake_action_at(&mut self, step: HandshakeStep, reading: Option<(u64, u32)>) -> (r:
        Result<HandshakeAction, HandshakeError>)
        ensures
            final(self)@.message_count == old(self)@.message_count,
            final(self).verbose() == old(self).verbose(),
            final(self)@.closed == (old(self)@.closed || r is Err),
            match step {
                HandshakeStep::SendGreeting => r matches Ok(HandshakeAction::Send(text)) && text@
                    == greeting_text(),
                HandshakeStep::ReadReply => r matches Ok(HandshakeAction::Read),
                HandshakeStep::SendHeader => match reading_text(reading) {
                    Some(time) => r matches Ok(HandshakeAction::Send(text)) && text@
                        == realtime_header(time),
                    None => r == Err::<HandshakeAction, HandshakeError>(HandshakeError::Clock),
                },
                HandshakeStep::Finished => r matches Ok(HandshakeAction::Finish),
            },
    {
        match step {
            HandshakeStep::SendGreeting => Ok(HandshakeAction::Send(Self::handshake_greeting())),
            HandshakeStep::ReadReply => Ok(HandshakeAction::Read),
            HandshakeStep::SendHeader => match reading_as_text(reading) {
                Some(time) => Ok(HandshakeAction::Send(generate_realtime_header(time.as_str()))),
                None => {
                    self.closed = true;
                    Err(HandshakeError::Clock)
                },
            },
            HandshakeStep::Finished => Ok(HandshakeAction::Finish),
        }
    }

    /// What to do on the stream at `step`. The header carries the present
    /// instant, as the clock reads it, as reference time and as recording
    /// time; when that cannot be had the handshake fails and the
    /// connection is closed.
    pub fn handshake_action(&mut self, step: HandshakeStep) -> (r: Result<
        HandshakeAction,
        HandshakeError,
    >)
        ensures
            final(self)@.message_count == old(self)@.message_count,
            final(self).verbose() == old(self).verbose(),
            final(self)@.closed == (old(self)@.closed || r is Err),
            match step {
                HandshakeStep::SendGreeting => r matches Ok(HandshakeAction::Send(text)) && text@
                    == greeting_text(),
                HandshakeStep::ReadReply => r matches Ok(HandshakeAction::Read),
                HandshakeStep::SendHeader => match r {
                    Ok(HandshakeAction::Send(text)) => exists|time: Seq<char>|
                        is_timestamp_text(time) && text@ == #[trigger] realtime_header(time),
                    Ok(_) => false,
                    Err(e) => e == HandshakeError::Clock,
                },
                HandshakeStep::Finished => r matches Ok(HandshakeAction::Finish),
            },
    {
        let reading = since_epoch();
        let r = self.handshake_action_at(step, reading);
        proof {
            if step == HandshakeStep::SendHeader && r is Ok {
                let (secs, nanos) = reading->0;
                let time = reading_text(reading)->0;
                assert(spec_timestamp_text(secs, nanos) == Some(time));
                assert(is_timestamp_text(time));
            }
        }
        r
    }

    /// Takes note of how `step` went and says what follows. Any failure
    /// closes the connection.
    pub fn handshake_advance(&mut self, step: HandshakeStep, outcome: StepOutcome) -> (r: Result<
        HandshakeStep,
        HandshakeError,
    >)
        ensures
            r == handshake_next(step, outcome),
            final(self)@.closed == (old(self)@.closed || r is Err),
            final(self)@.message_count == old(self)@.message_count,
            final(self).verbose() == old(self).verbose(),
    {
        match step {
            HandshakeStep::SendGreeting => match outcome {
                StepOutcome::Done(_) => Ok(HandshakeStep::ReadReply),
                StepOutcome::Failed(fault) => {
                    self.handle_connection_error(fault);
                    Err(HandshakeError::Greeting(fault))
                },
            },
            HandshakeStep::ReadReply => match outcome {
                StepOutcome::Done(n) => if n == 0 {
                    self.closed = true;
                    Err(HandshakeError::Disconnected)
                } else {
                    Ok(HandshakeStep::SendHeader)
                },
                StepOutcome::Failed(fault) => {
                    self.handle_connection_error(fault);
                    Err(HandshakeError::Reply(fault))
                },
            },
            HandshakeStep::SendHeader => match outcome {
                StepOutcome::Done(_) => Ok(HandshakeStep::Finished),
                StepOutcome::Failed(fault) => {
                    self.handle_connection_error(fault);
                    Err(HandshakeError::Header(fault))
                },
            },
            HandshakeStep::Finished => Ok(HandshakeStep::Finished),
        }
    }

    /// Opens a write: on a closed connection there is nothing to do and
    /// the write has succeeded; otherwise the record is to be sent as it
    /// stands, and counts as handed to the stream.
    pub fn begin_write(&mut self) -> (r: WriteAction)
        ensures
            final(self)@ == old(self)@.after_begin_write(),
            final(self)@.closed == old(self)@.closed,
            final(self).verbose() == old(self).verbose(),
            old(self)@.closed ==> r == WriteAction::Skip && final(self)@.message_count == old(self)@.message_count,
            !old(self)@.closed ==> r == (WriteAction::Send {
                sent_before: old(self)@.message_count,
                announce: announces(old(self).verbose(), old(self)@.message_count),
            }) && final(self)@.message_count == if old(self)@.message_count == u64::MAX {
                0
            } else {
                old(self)@.message_count + 1
            },
    {
        if self.closed {
            return WriteAction::Skip;
        }
        let sent_before = self.message_count;
        self.message_count = if sent_before == u64::MAX {
            0
        } else {
            sent_before + 1
        };
        WriteAction::Send {
            sent_before,
            announce: self.verbose && (sent_before < 5 || sent_before % 100 == 0),
        }
    }

    /// Closes a write that was sent: a failure closes the connection and
    /// is the result of the write.
    pub fn finish_write(&mut self, outcome: SendOutcome) -> (r: Result<(), WriteError>)
        ensures
            final(self)@ == old(self)@.after_finish_write(outcome),
            r == write_result(outcome),
            final(self)@.closed == (old(self)@.closed || r is Err),
            final(self)@.message_count == old(self)@.message_count,
            final(self).verbose() == old(self).verbose(),
    {
        match outcome {
            SendOutcome::Sent => Ok(()),
            SendOutcome::SendFailed(fault) => {
                self.handle_connection_error(fault);
                Err(WriteError::Send(fault))
            },
            SendOutcome::FlushFailed(fault) => {
                self.handle_connection_error(fault);
                Err(WriteError::Flush(fault))
            },
        }
    }

    /// What to log once the record after `sent_before` others went out.
    pub fn note_after_send(&self, sent_before: u64) -> (r: SentNote)
        ensures
            r == sent_note(self.verbose(), sent_before),
    {
        if self.verbose && sent_before < 5 {
            SentNote::Delivered
        } else if sent_before % 500 == 0 && sent_before > 0 {
            SentNote::Healthy
        } else {
            SentNote::Silent
        }
    }
}

} // verus!
