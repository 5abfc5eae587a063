use stormworks_tacview::domain::acmi::{
    bridge_name_text, build_acmi_header, AcmiRepository, StreamFault, WriteError,
};
use stormworks_tacview::domain::real_time_telemetry::HandshakeError;
use stormworks_tacview::handlers::{AppState, Sink};
use stormworks_tacview::infra::clock::{
    current_time_text, reading_as_text, since_epoch, timestamp_text,
};
use stormworks_tacview::infra::real_time_telemetry::{
    generate_realtime_header, Disconnect, HandshakeAction, HandshakeStep, SendOutcome, SentNote,
    StepOutcome, WriteAction,
};
use stormworks_tacview::server::tcp::{
    after_accept, deregister_connection, handle_connection, register_connection, AcceptorAction,
    ConnectionAction, ConnectionEvent, ConnectionPhase, POLL_INTERVAL_MS,
};
use stormworks_tacview::TcpRealTimeTelemetryRepository;

/// A live sink over a stream that works until it is cut.
struct Wire {
    core: TcpRealTimeTelemetryRepository,
    cut: bool,
    received: Vec<String>,
}

impl Wire {
    fn new() -> Self {
        Wire { core: TcpRealTimeTelemetryRepository::new(), cut: false, received: Vec::new() }
    }
}

impl AcmiRepository for Wire {
    fn write(&mut self, acmi: &str) -> Result<(), WriteError> {
        match self.core.begin_write() {
            WriteAction::Skip => Ok(()),
            WriteAction::Send { .. } => {
                if self.cut {
                    self.core.finish_write(SendOutcome::SendFailed(StreamFault::BrokenPipe))
                } else {
                    self.received.push(acmi.to_string());
                    self.core.finish_write(SendOutcome::Sent)
                }
            }
        }
    }

    fn step(&self) {}
}

fn wire(state: &mut AppState<Wire>, id: u64) -> &Wire {
    match state.get(id) {
        Some(Sink::Live(w)) => w,
        _ => panic!("no live sink under {}", id),
    }
}

#[test]
fn greeting_and_header_texts() {
    assert_eq!(
        TcpRealTimeTelemetryRepository::handshake_greeting(),
        "XtraLib.Stream.0\nTacview.RealTimeTelemetry.0\nHost stormworks-tacview-rust\n\0"
    );
    assert_eq!(
        generate_realtime_header("2024-03-01T12:00:00.000Z"),
        "FileType=text/acmi/tacview\n\
         FileVersion=2.2\n\
         0,ReferenceTime=2024-03-01T12:00:00.000Z\n\
         0,RecordingTime=2024-03-01T12:00:00.000Z\n\
         0,Title=StormworksACMI\n\
         0,DataRecorder=StormworksACMI 0.1.0\n\
         0,DataSource=Stormworks\n\
         0,Author=stormworks-tacview-rust\n\
         0,ReferenceLongitude=180\n\
         0,ReferenceLatitude=0\n\
         40000003,T=0|0|2000|0|0,Type=Navaid+Static+Bullseye,Color=Blue,Coalition=Allies\n\
         #0.001\n"
    );
    assert_eq!(
        generate_realtime_header("T"),
        format!("{}#0.001\n", build_acmi_header("T"))
    );
}

#[test]
fn instants_as_text() {
    assert_eq!(timestamp_text(0, 0), Some(String::from("1970-01-01T00:00:00.000Z")));
    assert_eq!(
        timestamp_text(1_709_294_400, 123_456_789),
        Some(String::from("2024-03-01T12:00:00.123Z"))
    );
    assert_eq!(timestamp_text(1, 999_999_999), Some(String::from("1970-01-01T00:00:01.999Z")));
    assert_eq!(timestamp_text(u64::MAX, 0), None);
    assert_eq!(timestamp_text(i64::MAX as u64, 0), None);
    assert_eq!(timestamp_text(0, 2_000_000_000), None);
    let (secs, nanos) = since_epoch().unwrap();
    assert!(secs > 1_600_000_000);
    assert!(nanos < 1_000_000_000);
    let now = current_time_text().unwrap();
    assert_eq!(now.len(), 24);
    assert!(now.ends_with('Z'));
    assert!(now.as_str() > "2020");
}

#[test]
fn handshake_runs_its_three_steps() {
    let mut repo = TcpRealTimeTelemetryRepository::new();
    let mut step = HandshakeStep::SendGreeting;
    match repo.handshake_action(step).unwrap() {
        HandshakeAction::Send(text) => {
            assert_eq!(text, TcpRealTimeTelemetryRepository::handshake_greeting())
        }
        other => panic!("unexpected {:?}", other),
    }
    step = repo.handshake_advance(step, StepOutcome::Done(64)).unwrap();
    assert_eq!(step, HandshakeStep::ReadReply);
    assert!(matches!(repo.handshake_action(step).unwrap(), HandshakeAction::Read));
    step = repo.handshake_advance(step, StepOutcome::Done(17)).unwrap();
    assert_eq!(step, HandshakeStep::SendHeader);
    match repo.handshake_action(step).unwrap() {
        HandshakeAction::Send(text) => {
            assert!(text.starts_with("FileType=text/acmi/tacview\nFileVersion=2.2\n0,ReferenceTime=2"));
            assert!(text.ends_with("Coalition=Allies\n#0.001\n"));
            let reference = text.lines().nth(2).unwrap().strip_prefix("0,ReferenceTime=").unwrap();
            let recording = text.lines().nth(3).unwrap().strip_prefix("0,RecordingTime=").unwrap();
            assert_eq!(reference, recording);
            assert_eq!(text, generate_realtime_header(reference));
        }
        other => panic!("unexpected {:?}", other),
    }
    step = repo.handshake_advance(step, StepOutcome::Done(400)).unwrap();
    assert_eq!(step, HandshakeStep::Finished);
    assert!(matches!(repo.handshake_action(step).unwrap(), HandshakeAction::Finish));
    assert_eq!(repo.handshake_advance(step, StepOutcome::Done(0)), Ok(HandshakeStep::Finished));
    assert!(!repo.is_closed());
    assert_eq!(repo.message_count(), 0);
}

#[test]
fn greeting_and_header_name_the_same_bridge() {
    let mut repo = TcpRealTimeTelemetryRepository::new();
    let greeting = match repo.handshake_action_at(HandshakeStep::SendGreeting, None).unwrap() {
        HandshakeAction::Send(text) => text,
        other => panic!("unexpected {:?}", other),
    };
    let header = match repo
        .handshake_action_at(HandshakeStep::SendHeader, Some((1_709_294_400, 123_456_789)))
        .unwrap()
    {
        HandshakeAction::Send(text) => text,
        other => panic!("unexpected {:?}", other),
    };
    let host = greeting.lines().nth(2).unwrap().strip_prefix("Host ").unwrap();
    let author = header
        .lines()
        .find_map(|line| line.strip_prefix("0,Author="))
        .unwrap();
    assert_eq!(host, author);
    assert_eq!(host, bridge_name_text());
    assert_eq!(header.lines().nth(2).unwrap(), "0,ReferenceTime=2024-03-01T12:00:00.123Z");
    assert_eq!(header.lines().nth(3).unwrap(), "0,RecordingTime=2024-03-01T12:00:00.123Z");
    assert_eq!(header, generate_realtime_header("2024-03-01T12:00:00.123Z"));
    assert!(!repo.is_closed());
}

#[test]
fn a_handshake_without_a_clock_reading_fails() {
    let mut repo = TcpRealTimeTelemetryRepository::new();
    assert!(matches!(
        repo.handshake_action_at(HandshakeStep::ReadReply, None),
        Ok(HandshakeAction::Read)
    ));
    assert!(!repo.is_closed());
    assert!(matches!(
        repo.handshake_action_at(HandshakeStep::SendHeader, None),
        Err(HandshakeError::Clock)
    ));
    assert!(repo.is_closed());

    let mut other = TcpRealTimeTelemetryRepository::new();
    assert!(matches!(
        other.handshake_action_at(HandshakeStep::SendHeader, Some((u64::MAX, 0))),
        Err(HandshakeError::Clock)
    ));
    assert!(other.is_closed());
    assert_eq!(reading_as_text(None), None);
    assert_eq!(reading_as_text(Some((0, 0))), Some(String::from("1970-01-01T00:00:00.000Z")));
}

#[test]
fn handshake_failures_close_the_connection() {
    let mut repo = TcpRealTimeTelemetryRepository::new();
    assert_eq!(
        repo.handshake_advance(
            HandshakeStep::SendGreeting,
            StepOutcome::Failed(StreamFault::BrokenPipe)
        ),
        Err(HandshakeError::Greeting(StreamFault::BrokenPipe))
    );
    assert!(repo.is_closed());

    let mut repo = TcpRealTimeTelemetryRepository::new();
    assert_eq!(
        repo.handshake_advance(HandshakeStep::ReadReply, StepOutcome::Done(0)),
        Err(HandshakeError::Disconnected)
    );
    assert!(repo.is_closed());

    let mut repo = TcpRealTimeTelemetryRepository::new();
    assert_eq!(
        repo.handshake_advance(HandshakeStep::ReadReply, StepOutcome::Failed(StreamFault::Other)),
        Err(HandshakeError::Reply(StreamFault::Other))
    );
    assert!(repo.is_closed());

    let mut repo = TcpRealTimeTelemetryRepository::new();
    assert_eq!(
        repo.handshake_advance(
            HandshakeStep::SendHeader,
            StepOutcome::Failed(StreamFault::ConnectionAborted)
        ),
        Err(HandshakeError::Header(StreamFault::ConnectionAborted))
    );
    assert!(repo.is_closed());
    assert_eq!(
        repo.handshake_advance(HandshakeStep::SendGreeting, StepOutcome::Done(1)),
        Ok(HandshakeStep::ReadReply)
    );
    assert!(repo.is_closed());
}

#[test]
fn connection_errors_are_classified() {
    let mut repo = TcpRealTimeTelemetryRepository::new();
    assert_eq!(repo.handle_connection_error(StreamFault::Other), Disconnect::Unexpected);
    assert!(repo.is_closed());
    assert_eq!(
        repo.handle_connection_error(StreamFault::BrokenPipe),
        Disconnect::ClosedByClient
    );
    assert_eq!(
        repo.handle_connection_error(StreamFault::ConnectionAborted),
        Disconnect::ClosedByClient
    );
    assert!(repo.is_closed());
}

#[test]
fn writes_count_and_announce() {
    let mut quiet = TcpRealTimeTelemetryRepository::new();
    assert_eq!(quiet.begin_write(), WriteAction::Send { sent_before: 0, announce: false });
    assert_eq!(quiet.finish_write(SendOutcome::Sent), Ok(()));
    assert_eq!(quiet.message_count(), 1);
    assert_eq!(quiet.note_after_send(0), SentNote::Silent);
    assert_eq!(quiet.note_after_send(500), SentNote::Healthy);
    assert_eq!(quiet.note_after_send(499), SentNote::Silent);
    assert_eq!(quiet.note_after_send(1000), SentNote::Healthy);

    let mut loud = TcpRealTimeTelemetryRepository::new_with_verbose(true);
    for n in 0..205u64 {
        let expected = n < 5 || n == 100 || n == 200;
        assert_eq!(loud.begin_write(), WriteAction::Send { sent_before: n, announce: expected });
        assert_eq!(loud.finish_write(SendOutcome::Sent), Ok(()));
    }
    assert_eq!(loud.message_count(), 205);
    assert_eq!(loud.note_after_send(0), SentNote::Delivered);
    assert_eq!(loud.note_after_send(4), SentNote::Delivered);
    assert_eq!(loud.note_after_send(5), SentNote::Silent);
    assert_eq!(loud.note_after_send(500), SentNote::Healthy);
}

#[test]
fn a_failed_write_closes_and_later_writes_are_skipped() {
    let mut repo = TcpRealTimeTelemetryRepository::new();
    repo.begin_write();
    assert_eq!(
        repo.finish_write(SendOutcome::FlushFailed(StreamFault::Other)),
        Err(WriteError::Flush(StreamFault::Other))
    );
    assert!(repo.is_closed());
    assert_eq!(repo.message_count(), 1);
    assert_eq!(repo.begin_write(), WriteAction::Skip);
    assert_eq!(repo.message_count(), 1);
    assert_eq!(repo.finish_write(SendOutcome::Sent), Ok(()));
    assert!(repo.is_closed());

    let mut other = TcpRealTimeTelemetryRepository::new();
    other.begin_write();
    assert_eq!(
        other.finish_write(SendOutcome::SendFailed(StreamFault::ConnectionAborted)),
        Err(WriteError::Send(StreamFault::ConnectionAborted))
    );
    assert!(other.is_closed());
}

#[test]
fn a_cut_stream_fails_its_sink_and_spares_the_healthy_one() {
    let mut state: AppState<Wire> = AppState::new();
    let doomed = state.register(Sink::Live(Wire::new())).ok().unwrap();
    let healthy = state.register(Sink::Live(Wire::new())).ok().unwrap();

    assert_eq!(state.broadcast("first\n"), vec![Ok(()), Ok(())]);

    // The stream of the first sink is closed under it.
    let mut taken_out = match state.deregister(doomed) {
        Some(Sink::Live(w)) => w,
        _ => panic!("sink not found"),
    };
    taken_out.cut = true;
    let mut rebuilt: AppState<Wire> = AppState::new();
    let doomed = rebuilt.register(Sink::Live(taken_out)).ok().unwrap();
    let healthy_sink = match state.deregister(healthy) {
        Some(sink) => sink,
        None => panic!("sink not found"),
    };
    let healthy = rebuilt.register(healthy_sink).ok().unwrap();
    let mut state = rebuilt;

    let results = state.broadcast("second\n");
    assert_eq!(results, vec![Err(WriteError::Send(StreamFault::BrokenPipe)), Ok(())]);
    assert!(wire(&mut state, doomed).core.is_closed());
    assert!(!wire(&mut state, healthy).core.is_closed());
    assert_eq!(
        wire(&mut state, healthy).received,
        vec![String::from("first\n"), String::from("second\n")]
    );
    assert_eq!(wire(&mut state, doomed).received, vec![String::from("first\n")]);

    // The failed sink stays registered until it is deregistered, and its writes now succeed
    // without doing anything.
    assert_eq!(state.list_len(), 2);
    assert_eq!(state.broadcast("third\n"), vec![Ok(()), Ok(())]);
    assert_eq!(wire(&mut state, doomed).received.len(), 1);
    assert_eq!(wire(&mut state, healthy).received.len(), 3);
}

#[test]
fn a_connection_from_accept_to_deregistration() {
    let mut state: AppState<Wire> = AppState::new();
    let mut phase = ConnectionPhase::Accepted;

    let (next, action) = handle_connection(phase, ConnectionEvent::Opened);
    assert_eq!((next, action), (ConnectionPhase::Handshaking, ConnectionAction::Handshake));
    phase = next;

    let (next, action) = handle_connection(phase, ConnectionEvent::HandshakeSucceeded);
    assert_eq!((next, action), (ConnectionPhase::Greeted, ConnectionAction::Register));
    phase = next;

    let event = register_connection(&mut state, Wire::new());
    assert_eq!(event, ConnectionEvent::Registered(0));
    assert_eq!(state.list_len(), 1);
    let (next, action) = handle_connection(phase, event);
    assert_eq!((next, action), (ConnectionPhase::Registered(0), ConnectionAction::PollAfter(0)));
    assert_eq!(POLL_INTERVAL_MS, 100);
    phase = next;

    let (next, action) = handle_connection(phase, ConnectionEvent::Polled { closed: false });
    assert_eq!(
        (next, action),
        (ConnectionPhase::Registered(0), ConnectionAction::PollAfter(100))
    );
    let (next, action) = handle_connection(next, ConnectionEvent::Polled { closed: true });
    assert_eq!((next, action), (ConnectionPhase::Finished, ConnectionAction::Deregister(0)));

    assert_eq!(deregister_connection(&mut state, 0), (1, 0));
    assert_eq!(deregister_connection(&mut state, 0), (0, 0));
    assert_eq!(
        handle_connection(next, ConnectionEvent::Polled { closed: true }),
        (ConnectionPhase::Finished, ConnectionAction::Ignore)
    );
}

#[test]
fn a_failed_handshake_is_never_registered() {
    let (phase, action) = handle_connection(
        ConnectionPhase::Handshaking,
        ConnectionEvent::HandshakeFailed(HandshakeError::Disconnected),
    );
    assert_eq!((phase, action), (ConnectionPhase::Finished, ConnectionAction::Drop));
    assert_eq!(
        handle_connection(phase, ConnectionEvent::Registered(3)),
        (ConnectionPhase::Finished, ConnectionAction::Ignore)
    );
    assert_eq!(
        handle_connection(ConnectionPhase::Accepted, ConnectionEvent::HandshakeSucceeded),
        (ConnectionPhase::Accepted, ConnectionAction::Ignore)
    );
    assert_eq!(
        handle_connection(ConnectionPhase::Greeted, ConnectionEvent::RegistryFull),
        (ConnectionPhase::Finished, ConnectionAction::Drop)
    );
}

#[test]
fn the_acceptor_ends_with_its_listener() {
    assert_eq!(after_accept(true), AcceptorAction::Serve);
    assert_eq!(after_accept(false), AcceptorAction::Exit);
}
