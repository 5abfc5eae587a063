//! The life of a viewer connection: handshake, registration, the wait for
//! its closure, deregistration. The caller owns the connection and does
//! what each step asks for.

use crate::domain::acmi::AcmiRepository;
use crate::domain::real_time_telemetry::HandshakeError;
use crate::handlers::stormworks::{without_id, AppState, Sink};
use vstd::prelude::*;

verus! {

/// How long to wait between two looks at a connection, in milliseconds.
pub const POLL_INTERVAL_MS: u64 = 100;

/// Where a connection stands.
#[derive(Clone, Copy, Debug, PartialEq, Eq, Structural)]
pub enum ConnectionPhase {
    /// Accepted; the handshake is still to be made.
    Accepted,
    /// The handshake is under way.
    Handshaking,
    /// The handshake went through; the sink is still to be registered.
    Greeted,
    /// Registered under this number, and watched for its closure.
    Registered(u64),
    /// Over: refused, or closed and deregistered.
    Finished,
}

/// What happened on a connection.
#[derive(Clone, Copy, Debug, PartialEq, Eq, Structural)]
pub enum ConnectionEvent {
    /// The connection was accepted.
    Opened,
    /// The handshake went through.
    HandshakeSucceeded,
    /// The handshake failed.
    HandshakeFailed(HandshakeError),
    /// The sink was registered under this number.
    Registered(u64),
    /// The sink could not be registered.
    RegistryFull,
    /// The sink was looked at and found closed or not.
    Polled {
        /// Whether it was found closed.
        closed: bool,
    },
}

/// What to do next on a connection.
#[derive(Clone, Copy, Debug, PartialEq, Eq, Structural)]
pub enum ConnectionAction {
    /// Run the handshake.
    Handshake,
    /// Register the sink.
    Register,
    /// Wait this many milliseconds, then look whether the sink is closed.
    PollAfter(u64),
    /// Deregister the sink registered under this number.
    Deregister(u64),
    /// Let go of the connection; it was never registered.
    Drop,
    /// Nothing: the event does not belong to the phase.
    Ignore,
}

/// The phase after `event` in `phase`, and what to do then. A connection
/// is registered only after its handshake went through. It is looked at
/// at once, and then again after every interval until it is found closed;
/// then it is deregistered under the number it was registered under.
pub open spec fn connection_next(phase: ConnectionPhase, event: ConnectionEvent) -> (
    ConnectionPhase,
    ConnectionAction,
) {
    match (phase, event) {
        (ConnectionPhase::Accepted, ConnectionEvent::Opened) => (
            ConnectionPhase::Handshaking,
            ConnectionAction::Handshake,
        ),
        (ConnectionPhase::Handshaking, ConnectionEvent::HandshakeSucceeded) => (
            ConnectionPhase::Greeted,
            ConnectionAction::Register,
        ),
        (ConnectionPhase::Handshaking, ConnectionEvent::HandshakeFailed(_)) => (
            ConnectionPhase::Finished,
            ConnectionAction::Drop,
        ),
        (ConnectionPhase::Greeted, ConnectionEvent::Registered(id)) => (
            ConnectionPhase::Registered(id),
            ConnectionAction::PollAfter(0),
        ),
        (ConnectionPhase::Greeted, ConnectionEvent::RegistryFull) => (
            ConnectionPhase::Finished,
            ConnectionAction::Drop,
        ),
        (ConnectionPhase::Registered(id), ConnectionEvent::Polled { closed }) => if closed {
            (ConnectionPhase::Finished, ConnectionAction::Deregister(id))
        } else {
            (ConnectionPhase::Registered(id), ConnectionAction::PollAfter(POLL_INTERVAL_MS))
        },
        _ => (phase, ConnectionAction::Ignore),
    }
}

/// Moves a connection on by one event.
pub fn handle_connection(phase: ConnectionPhase, event: ConnectionEvent) -> (r: (
    ConnectionPhase,
    ConnectionAction,
))
    ensures
        r == connection_next(phase, event),
{
    match phase {
        ConnectionPhase::Accepted => match event {
            ConnectionEvent::Opened => (ConnectionPhase::Handshaking, ConnectionAction::Handshake),
            _ => (phase, ConnectionAction::Ignore),
        },
        ConnectionPhase::Handshaking => match event {
            ConnectionEvent::HandshakeSucceeded => (
                ConnectionPhase::Greeted,
                ConnectionAction::Register,
            ),
            ConnectionEvent::HandshakeFailed(_) => (
                ConnectionPhase::Finished,
                ConnectionAction::Drop,
            ),
            _ => (phase, ConnectionAction::Ignore),
        },
        ConnectionPhase::Greeted => match event {
            ConnectionEvent::Registered(id) => (
                ConnectionPhase::Registered(id),
                ConnectionAction::PollAfter(0),
            ),
            ConnectionEvent::RegistryFull => (ConnectionPhase::Finished, ConnectionAction::Drop),
            _ => (phase, ConnectionAction::Ignore),
        },
        ConnectionPhase::Registered(id) => match event {
            ConnectionEvent::Polled { closed } => if closed {
                (ConnectionPhase::Finished, ConnectionAction::Deregister(id))
            } else {
                (ConnectionPhase::Registered(id), ConnectionAction::PollAfter(POLL_INTERVAL_MS))
            },
            _ => (phase, ConnectionAction::Ignore),
        },
        ConnectionPhase::Finished => (phase, ConnectionAction::Ignore),
    }
}

/// Carries out `ConnectionAction::Register`: puts the live sink behind the
/// others and says what happened.
pub fn register_connection<L: AcmiRepository>(state: &mut AppState<L>, sink: L) -> (r:
    ConnectionEvent)
    requires
        old(state).wf(),
    ensures
        final(state).wf(),
        final(state).verbose() == old(state).verbose(),
        match r {
            ConnectionEvent::Registered(id) => {
                &&& id == old(state).next_id()
                &&& final(state).ids() == old(state).ids().push(id)
                &&& final(state).sinks() == old(state).sinks().push(Sink::Live(sink))
            },
            ConnectionEvent::RegistryFull => {
                &&& old(state).next_id() == u64::MAX
                &&& final(state).ids() == old(state).ids()
                &&& final(state).sinks() == old(state).sinks()
            },
            _ => false,
        },
{
    match state.register(Sink::Live(sink)) {
        Ok(id) => ConnectionEvent::Registered(id),
        Err(_) => ConnectionEvent::RegistryFull,
    }
}

/// Carries out `ConnectionAction::Deregister`: takes the sink registered
/// under `id` out of the registry and lets go of it; the other sinks stay
/// as they are and in their order. Says how many sinks were registered
/// before and how many are after.
pub fn deregister_connection<L: AcmiRepository>(state: &mut AppState<L>, id: u64) -> (r: (
    usize,
    usize,
))
    requires
        old(state).wf(),
    ensures
        final(state).wf(),
        final(state).verbose() == old(state).verbose(),
        final(state).next_id() == old(state).next_id(),
        final(state).ids() == without_id(old(state).ids(), id),
        !final(state).ids().contains(id),
        if old(state).ids().contains(id) {
            exists|at: int|
                0 <= at < old(state).ids().len() && old(state).ids()[at] == id && final(state).sinks() == old(state).sinks().remove(at)
        } else {
            final(state).sinks() == old(state).sinks()
        },
        r.0 == old(state).sinks().len(),
        r.1 == final(state).sinks().len(),
        r.1 == if old(state).ids().contains(id) {
            r.0 - 1
        } else {
            r.0 as int
        },
{
    let before = state.list_len();
    state.deregister(id);
    (before, state.list_len())
}

/// What the acceptor does after an attempt to accept a connection.
#[derive(Clone, Copy, Debug, PartialEq, Eq, Structural)]
pub enum AcceptorAction {
    /// Hand the connection to a task of its own and accept the next.
    Serve,
    /// End the acceptor: the listener failed.
    Exit,
}

/// The acceptor goes on for as long as the listener yields connections,
/// and ends when the listener fails.
pub fn after_accept(accepted: bool) -> (r: AcceptorAction)
    ensures
        r == if accepted {
            AcceptorAction::Serve
        } else {
            AcceptorAction::Exit
        },
{
    if accepted {
        AcceptorAction::Serve
    } else {
        AcceptorAction::Exit
    }
}

} // verus!
