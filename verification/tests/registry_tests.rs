use stormworks_tacview::domain::acmi::{AcmiRepository, StreamFault, WriteError};
use stormworks_tacview::handlers::stormworks::init_app_state;
use stormworks_tacview::handlers::{AppState, Sink};
use stormworks_tacview::{AppConfig, FileAcmiRepository};

/// A sink that notes every write in a log shared with the other sinks.
struct Noting {
    name: u32,
    fail: bool,
    log: std::rc::Rc<std::cell::RefCell<Vec<(u32, String)>>>,
}

impl AcmiRepository for Noting {
    fn write(&mut self, acmi: &str) -> Result<(), WriteError> {
        self.log.borrow_mut().push((self.name, acmi.to_string()));
        if self.fail {
            Err(WriteError::Send(StreamFault::Other))
        } else {
            Ok(())
        }
    }

    fn step(&self) {}
}

#[test]
fn broadcast_writes_once_to_each_sink_in_registration_order() {
    let log = std::rc::Rc::new(std::cell::RefCell::new(Vec::new()));
    let mut state: AppState<Noting> = AppState::new();
    for name in 0..5u32 {
        let sink = Noting { name, fail: name == 1 || name == 3, log: log.clone() };
        assert_eq!(state.register(Sink::Live(sink)).ok(), Some(name as u64));
    }
    let results = state.broadcast("r\n");
    assert_eq!(
        results,
        vec![
            Ok(()),
            Err(WriteError::Send(StreamFault::Other)),
            Ok(()),
            Err(WriteError::Send(StreamFault::Other)),
            Ok(()),
        ]
    );
    let expected: Vec<(u32, String)> = (0..5u32).map(|n| (n, String::from("r\n"))).collect();
    assert_eq!(*log.borrow(), expected);
    assert_eq!(state.list_len(), 5);
}

#[test]
fn broadcast_to_no_sink() {
    let mut state: AppState<Noting> = AppState::new();
    assert!(!state.is_verbose());
    assert_eq!(state.list_len(), 0);
    assert!(state.broadcast("r\n").is_empty());
}

#[test]
fn deregistering_takes_out_one_sink_and_keeps_the_order() {
    let log = std::rc::Rc::new(std::cell::RefCell::new(Vec::new()));
    let mut state: AppState<Noting> = AppState::new_with_verbose(true);
    assert!(state.is_verbose());
    for name in 0..4u32 {
        state.register(Sink::Live(Noting { name, fail: false, log: log.clone() })).ok().unwrap();
    }
    assert!(state.is_registered(2));
    match state.deregister(2) {
        Some(Sink::Live(sink)) => assert_eq!(sink.name, 2),
        _ => panic!("sink 2 was registered"),
    }
    assert!(!state.is_registered(2));
    assert!(state.get(2).is_none());
    assert!(state.deregister(2).is_none());
    assert!(state.deregister(99).is_none());
    assert_eq!(state.list_len(), 3);

    state.broadcast("x\n");
    let names: Vec<u32> = log.borrow().iter().map(|(n, _)| *n).collect();
    assert_eq!(names, vec![0, 1, 3]);

    // A number is not given out twice.
    let id = state
        .register(Sink::Live(Noting { name: 9, fail: false, log: log.clone() }))
        .ok()
        .unwrap();
    assert_eq!(id, 4);
    log.borrow_mut().clear();
    state.broadcast("y\n");
    let names: Vec<u32> = log.borrow().iter().map(|(n, _)| *n).collect();
    assert_eq!(names, vec![0, 1, 3, 9]);
}

#[test]
fn churn_keeps_every_registration_that_was_not_taken_back() {
    let log = std::rc::Rc::new(std::cell::RefCell::new(Vec::new()));
    let mut state: AppState<Noting> = AppState::new();
    let mut live: Vec<u64> = Vec::new();
    for round in 0..200u32 {
        let id = state
            .register(Sink::Live(Noting { name: round, fail: round % 7 == 0, log: log.clone() }))
            .ok()
            .unwrap();
        live.push(id);
        if round % 3 == 2 {
            let gone = live.remove((round as usize * 5) % live.len());
            assert!(state.deregister(gone).is_some());
            assert!(state.deregister(gone).is_none());
        }
        log.borrow_mut().clear();
        let results = state.broadcast("r\n");
        assert_eq!(results.len(), live.len());
        assert_eq!(state.list_len(), live.len());
        let names: Vec<u64> = log.borrow().iter().map(|(n, _)| *n as u64).collect();
        assert_eq!(names, live);
    }
}

#[test]
fn the_bridge_starts_with_its_recorder() {
    let state: AppState<Noting> =
        init_app_state(true, AppConfig { output_dir: String::from("/srv/acmi") });
    assert!(state.is_verbose());
    assert_eq!(state.list_len(), 1);
    match state.get(0) {
        Some(Sink::File(recorder)) => assert_eq!(recorder.output_dir(), "/srv/acmi"),
        _ => panic!("the recorder is registered first"),
    }
}

#[test]
fn a_sink_of_either_kind_takes_writes() {
    let log = std::rc::Rc::new(std::cell::RefCell::new(Vec::new()));
    let mut file: Sink<Noting> =
        Sink::File(FileAcmiRepository::new_with_config(AppConfig { output_dir: String::new() }));
    assert_eq!(file.write("a\n"), Ok(()));
    file.step();
    let mut live = Sink::Live(Noting { name: 1, fail: true, log: log.clone() });
    assert_eq!(live.write("b\n"), Err(WriteError::Send(StreamFault::Other)));
    live.step();
    assert_eq!(*log.borrow(), vec![(1, String::from("b\n"))]);
}
