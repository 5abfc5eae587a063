use stormworks_tacview::domain::acmi::{AcmiRepository, StreamFault, WriteError};
use stormworks_tacview::handlers::stormworks::init_app_state;
use stormworks_tacview::handlers::{AppState, Sink};
use stormworks_tacview::server::http::{
    handle_acmi_data, handle_request, record_from_decoded, ApiCommand,
};
use stormworks_tacview::server::http_simple::{
    decode_base64_simple, extract_acmi_data, handle_acmi, handle_start, handle_stop,
    is_whitespace, route_request, serve_request, Command, Response,
};
use stormworks_tacview::AppConfig;

struct Probe {
    seen: Vec<String>,
    fail: bool,
}

impl Probe {
    fn new(fail: bool) -> Self {
        Probe { seen: Vec::new(), fail }
    }
}

impl AcmiRepository for Probe {
    fn write(&mut self, acmi: &str) -> Result<(), WriteError> {
        self.seen.push(acmi.to_string());
        if self.fail {
            Err(WriteError::Flush(StreamFault::Other))
        } else {
            Ok(())
        }
    }

    fn step(&self) {}
}

fn config() -> AppConfig {
    AppConfig { output_dir: String::from("out") }
}

fn seen(state: &AppState<Probe>, id: u64) -> Vec<String> {
    match state.get(id) {
        Some(Sink::Live(probe)) => probe.seen.clone(),
        _ => panic!("no live sink under {}", id),
    }
}

#[test]
fn extracts_the_payload_of_the_request_line() {
    assert_eq!(
        extract_acmi_data("GET /acmi/SGVsbG8= HTTP/1.1\r\nHost: x\r\n\r\n"),
        Some(String::from("SGVsbG8="))
    );
    assert_eq!(extract_acmi_data("GET /acmi/a/b/c HTTP/1.1"), Some(String::from("a/b/c")));
    assert_eq!(extract_acmi_data("GET /acmi// HTTP/1.1"), Some(String::from("/")));
    assert_eq!(extract_acmi_data("  GET \t /acmi/x"), Some(String::from("x")));
    assert_eq!(extract_acmi_data("GET x/acmi/y z"), Some(String::from("y")));
    assert_eq!(extract_acmi_data("GET\u{3000}/acmi/w\u{a0}rest"), Some(String::from("w")));
}

#[test]
fn rejects_requests_without_a_payload() {
    assert_eq!(extract_acmi_data(""), None);
    assert_eq!(extract_acmi_data("GET"), None);
    assert_eq!(extract_acmi_data("GET /acmi/ HTTP/1.1"), None);
    assert_eq!(extract_acmi_data("GET /acmi HTTP/1.1"), None);
    assert_eq!(extract_acmi_data("GET /other/abc HTTP/1.1"), None);
    assert_eq!(extract_acmi_data("GET /x/acmi/abc HTTP/1.1"), None);
    assert_eq!(extract_acmi_data("GET acmi/abc HTTP/1.1"), None);
    assert_eq!(extract_acmi_data("GET\n/acmi/abc HTTP/1.1"), None);
    assert_eq!(extract_acmi_data("\nGET /acmi/abc HTTP/1.1"), None);
}

#[test]
fn whitespace_is_the_unicode_set() {
    for c in [' ', '\t', '\n', '\r', '\u{b}', '\u{c}', '\u{85}', '\u{a0}', '\u{1680}', '\u{2000}',
        '\u{200a}', '\u{2028}', '\u{2029}', '\u{202f}', '\u{205f}', '\u{3000}']
    {
        assert!(is_whitespace(c));
        assert!(c.is_whitespace());
    }
    for c in ['a', '/', '\u{8}', '\u{e}', '\u{200b}', '\u{2060}', '\u{feff}', '\u{180e}'] {
        assert!(!is_whitespace(c));
        assert!(!c.is_whitespace());
    }
}

#[test]
fn decodes_base64() {
    assert_eq!(decode_base64_simple("SGVsbG8="), Ok(String::from("Hello")));
    assert_eq!(decode_base64_simple("SGVsbG8"), Ok(String::from("Hello")));
    assert_eq!(decode_base64_simple("SGVsbG8h"), Ok(String::from("Hello!")));
    assert_eq!(decode_base64_simple("TQ=="), Ok(String::from("M")));
    assert_eq!(decode_base64_simple("TWE="), Ok(String::from("Ma")));
    assert_eq!(decode_base64_simple("TWFu"), Ok(String::from("Man")));
    assert_eq!(decode_base64_simple(""), Ok(String::new()));
    assert_eq!(decode_base64_simple("===="), Ok(String::new()));
    assert_eq!(decode_base64_simple("w6k="), Ok(String::from("é")));
    assert_eq!(
        decode_base64_simple("MSxUPTF8MnwzLE5hbWU9Rm9v"),
        Ok(String::from("1,T=1|2|3,Name=Foo"))
    );
    assert_eq!(decode_base64_simple("Pz8/"), Ok(String::from("???")));
    assert_eq!(decode_base64_simple("fn5+"), Ok(String::from("~~~")));
}

#[test]
fn a_lone_character_gives_one_byte() {
    assert_eq!(decode_base64_simple("Q"), Ok(String::from("@")));
    assert_eq!(decode_base64_simple("TWFuQ"), Ok(String::from("Man@")));
}

#[test]
fn rejects_what_is_not_base64_text() {
    assert_eq!(decode_base64_simple("SGVs bG8="), Err(()));
    assert_eq!(decode_base64_simple("SGVs-G8="), Err(()));
    assert_eq!(decode_base64_simple("SG=VsbG8"), Err(()));
    assert_eq!(decode_base64_simple("é"), Err(()));
    assert_eq!(decode_base64_simple("/w=="), Err(()));
    assert_eq!(decode_base64_simple("gA=="), Err(()));
}

#[test]
fn routes_by_what_the_request_holds() {
    assert!(matches!(route_request("GET /start HTTP/1.1\r\n\r\n"), Command::Start));
    assert!(matches!(route_request("GET /stop HTTP/1.1\r\n\r\n"), Command::Stop));
    assert!(matches!(route_request("GET /startled"), Command::Start));
    assert!(matches!(route_request("POST /x\r\nReferer: GET /stop"), Command::Stop));
    assert!(matches!(route_request("GET /stop and GET /start"), Command::Start));
    assert!(matches!(route_request("GET /acmi/QQ== HTTP/1.1 GET /stop"), Command::Stop));
    match route_request("GET /acmi/QQ== HTTP/1.1\r\n") {
        Command::Acmi(data) => assert_eq!(data, "QQ=="),
        other => panic!("unexpected {:?}", other),
    }
    assert!(matches!(route_request("GET /acmi/ HTTP/1.1"), Command::Malformed));
    assert!(matches!(route_request("x\nGET /acmi/QQ=="), Command::Malformed));
    assert!(matches!(route_request("GET / HTTP/1.1"), Command::Unknown));
    assert!(matches!(route_request("get /start"), Command::Unknown));
    assert!(matches!(route_request(""), Command::Unknown));
}

#[test]
fn responses_on_the_wire() {
    assert_eq!(Response::Success.text(), "HTTP/1.1 200 OK\r\n\r\nOK");
    assert_eq!(Response::BadRequest.text(), "HTTP/1.1 400 Bad Request\r\n\r\nBad Request");
    assert_eq!(Response::NotFound.text(), "HTTP/1.1 404 Not Found\r\n\r\nNot Found");
    assert_eq!(
        Response::InternalServerError.text(),
        "HTTP/1.1 500 Internal Server Error\r\n\r\nInternal Server Error"
    );
    assert_eq!(Response::Success.status_code(), 200);
    assert_eq!(Response::BadRequest.status_code(), 400);
    assert_eq!(Response::NotFound.status_code(), 404);
    assert_eq!(Response::InternalServerError.status_code(), 500);
}

#[test]
fn telemetry_reaches_every_sink_with_a_line_feed() {
    let mut state: AppState<Probe> = init_app_state(false, config());
    let a = state.register(Sink::Live(Probe::new(false))).ok().unwrap();
    let b = state.register(Sink::Live(Probe::new(true))).ok().unwrap();
    let c = state.register(Sink::Live(Probe::new(false))).ok().unwrap();

    let delivered = handle_acmi(&mut state, "SGVsbG8=");
    assert_eq!(delivered.response, Response::Success);
    assert_eq!(
        delivered.results,
        vec![Ok(()), Ok(()), Err(WriteError::Flush(StreamFault::Other)), Ok(())]
    );
    for id in [a, b, c] {
        assert_eq!(seen(&state, id), vec![String::from("Hello\n")]);
    }

    let refused = handle_acmi(&mut state, "not base64!");
    assert_eq!(refused.response, Response::BadRequest);
    assert!(refused.results.is_empty());
    for id in [a, b, c] {
        assert_eq!(seen(&state, id).len(), 1);
    }
    assert_eq!(state.list_len(), 4);
}

#[test]
fn start_telemetry_stop_through_requests() {
    let mut state: AppState<Probe> = init_app_state(true, config());
    assert!(state.is_verbose());
    let live = state.register(Sink::Live(Probe::new(false))).ok().unwrap();
    let taken: Vec<String> = Vec::new();

    let early = serve_request(&mut state, "GET /acmi/ZWFybHk= HTTP/1.1\r\n\r\n", &taken);
    assert_eq!(early.response, Response::Success);

    let started = serve_request(&mut state, "GET /start HTTP/1.1\r\n\r\n", &taken);
    assert_eq!(started.response, Response::Success);
    assert!(started.archives.is_empty());
    assert!(started.results.is_empty());

    let first = serve_request(&mut state, "GET /acmi/QQ== HTTP/1.1\r\n\r\n", &taken);
    assert_eq!(first.response, Response::Success);
    assert_eq!(first.results, vec![Ok(()), Ok(())]);
    serve_request(&mut state, "GET /acmi/Qg== HTTP/1.1\r\n\r\n", &taken);

    let bad = serve_request(&mut state, "GET /acmi/ HTTP/1.1\r\n\r\n", &taken);
    assert_eq!(bad.response, Response::BadRequest);
    let undecodable = serve_request(&mut state, "GET /acmi/%%% HTTP/1.1\r\n\r\n", &taken);
    assert_eq!(undecodable.response, Response::BadRequest);
    let unknown = serve_request(&mut state, "GET /favicon.ico HTTP/1.1\r\n\r\n", &taken);
    assert_eq!(unknown.response, Response::NotFound);

    let stopped = serve_request(&mut state, "GET /stop HTTP/1.1\r\n\r\n", &taken);
    assert_eq!(stopped.response, Response::Success);
    assert_eq!(stopped.archives.len(), 1);
    assert!(stopped.archives[0].content.ends_with("Coalition=Allies\nA\nB\n"));
    assert!(stopped.archives[0].content.starts_with("FileType=text/acmi/tacview\n"));
    assert!(!stopped.archives[0].content.contains("early"));

    let again = serve_request(&mut state, "GET /stop HTTP/1.1\r\n\r\n", &taken);
    assert_eq!(again.response, Response::Success);
    assert!(again.archives.is_empty());

    assert_eq!(
        seen(&state, live),
        vec![String::from("early\n"), String::from("A\n"), String::from("B\n")]
    );
}

#[test]
fn start_and_stop_act_on_every_recorder() {
    let mut state: AppState<Probe> = init_app_state(false, config());
    state.register(Sink::Live(Probe::new(false))).ok().unwrap();
    let second = state
        .register(Sink::File(stormworks_tacview::FileAcmiRepository::new_with_config(config())))
        .ok()
        .unwrap();
    assert_eq!(handle_start(&mut state, &Vec::new()), Response::Success);
    for id in [0, second] {
        match state.get(id) {
            Some(Sink::File(recorder)) => {
                assert!(stormworks_tacview::AcmiFileRepository::is_recording(recorder))
            }
            _ => panic!("no recorder under {}", id),
        }
    }
    handle_acmi(&mut state, "eA==");
    let stopped = handle_stop(&mut state);
    assert_eq!(stopped.response, Response::Success);
    assert_eq!(stopped.archives.len(), 2);
    for archive in &stopped.archives {
        assert!(archive.content.ends_with("Coalition=Allies\nx\n"));
    }
    let idle = handle_stop(&mut state);
    assert_eq!(idle.response, Response::Success);
    assert!(idle.archives.is_empty());
}

#[test]
fn starting_without_a_recorder_succeeds() {
    let mut state: AppState<Probe> = AppState::new();
    let live = state.register(Sink::Live(Probe::new(false))).ok().unwrap();
    assert_eq!(handle_start(&mut state, &Vec::new()), Response::Success);
    assert_eq!(state.start_recorders(&Vec::new()), Ok(()));
    assert_eq!(state.list_len(), 1);
    assert!(seen(&state, live).is_empty());

    let mut empty: AppState<Probe> = AppState::new();
    assert_eq!(handle_start(&mut empty, &Vec::new()), Response::Success);
    assert_eq!(empty.list_len(), 0);
}

#[test]
fn commands_by_method_and_path() {
    assert!(matches!(handle_request(true, "/api/stormworks/start"), ApiCommand::Start));
    assert!(matches!(handle_request(true, "/api/stormworks/start?x=1"), ApiCommand::Start));
    assert!(matches!(handle_request(true, "/api/stormworks/stop"), ApiCommand::Stop));
    assert!(matches!(handle_request(false, "/api/stormworks/start"), ApiCommand::Unknown));
    assert!(matches!(handle_request(true, "/api/stormworks/acmi"), ApiCommand::Unknown));
    assert!(matches!(handle_request(true, "/start"), ApiCommand::Unknown));
    assert!(matches!(handle_request(true, ""), ApiCommand::Unknown));
    match handle_request(true, "/api/stormworks/acmi/SGVsbG8=") {
        ApiCommand::Acmi(data) => assert_eq!(data, "SGVsbG8="),
        other => panic!("unexpected {:?}", other),
    }
    match handle_request(true, "/api/stormworks/acmi/") {
        ApiCommand::Acmi(data) => assert_eq!(data, ""),
        other => panic!("unexpected {:?}", other),
    }
    match handle_request(true, "/api/stormworks/acmi//api/stormworks/acmi/QQ==") {
        ApiCommand::Acmi(data) => assert_eq!(data, "QQ=="),
        other => panic!("unexpected {:?}", other),
    }
}

#[test]
fn standard_base64_reaches_the_sinks() {
    let mut state: AppState<Probe> = AppState::new();
    let id = state.register(Sink::Live(Probe::new(false))).ok().unwrap();
    let delivered = handle_acmi_data(&mut state, "SGVsbG8=");
    assert_eq!(delivered.response, Response::Success);
    assert_eq!(delivered.results, vec![Ok(())]);
    assert_eq!(seen(&state, id), vec![String::from("Hello\n")]);

    let lossy = handle_acmi_data(&mut state, "/w==");
    assert_eq!(lossy.response, Response::Success);
    assert_eq!(seen(&state, id)[1], "\u{fffd}\n");

    let unpadded = handle_acmi_data(&mut state, "SGVsbG8");
    assert_eq!(unpadded.response, Response::BadRequest);
    assert!(unpadded.results.is_empty());
    assert_eq!(seen(&state, id).len(), 2);
}

#[test]
fn records_from_decoded_bytes() {
    assert_eq!(record_from_decoded(&b"1,T=0|0|0".to_vec()), "1,T=0|0|0\n");
    assert_eq!(record_from_decoded(&vec![0x48, 0xff, 0x49]), "H\u{fffd}I\n");
    assert_eq!(record_from_decoded(&Vec::new()), "\n");
}
