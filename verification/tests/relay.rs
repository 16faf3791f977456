use compile_relay::assembler::AssembleError;
use compile_relay::config::{parse_port, port_or_default, Config, ConfigError, DEFAULT_PORT};
use compile_relay::job::{respond, JobError, FAILURE_STATUS};
use compile_relay::relay::{endpoint, is_success, step, Action, Event, Phase, RelayError};
use compile_relay::response::{hello, BackendResponse};

const BASE: &str = "http://backend:8080";

fn sample_output() -> BackendResponse {
    BackendResponse::Output {
        index_html: String::new(),
        script: String::from("function f(){} export default f;"),
        module: vec![1, 2, 3],
    }
}

#[test]
fn backend_error_status_scenario() {
    let (phase, action) = step(BASE, Phase::Ready, Event::Submitted(String::from("fn main() {}")));
    assert_eq!(phase, Phase::AwaitingStatus);
    assert_eq!(
        action,
        Action::Send {
            url: String::from("http://backend:8080/run"),
            body: String::from("fn main() {}"),
        }
    );
    let (phase, action) = step(BASE, phase, Event::StatusReceived(500));
    assert_eq!(phase, Phase::AwaitingErrorText);
    assert_eq!(action, Action::ReadText);
    let (phase, action) =
        step(BASE, phase, Event::TextReceived(String::from("internal compiler error")));
    assert_eq!(phase, Phase::Done);
    assert_eq!(
        action,
        Action::Fail(RelayError::Backend(String::from("internal compiler error")))
    );
}

#[test]
fn successful_exchange_delivers_the_response() {
    let (phase, _) = step(BASE, Phase::Ready, Event::Submitted(String::from("code")));
    let (phase, action) = step(BASE, phase, Event::StatusReceived(200));
    assert_eq!((phase, action), (Phase::AwaitingBody, Action::ReadBody));
    let (phase, action) = step(BASE, phase, Event::BodyReceived(vec![9, 8, 7]));
    assert_eq!((phase, action), (Phase::AwaitingDecode, Action::Decode(vec![9, 8, 7])));
    let (phase, action) = step(BASE, phase, Event::Decoded(sample_output()));
    assert_eq!((phase, action), (Phase::Done, Action::Deliver(sample_output())));
}

#[test]
fn decode_failure_is_its_own_error() {
    let (phase, action) =
        step(BASE, Phase::AwaitingDecode, Event::DecodeFailed(String::from("truncated")));
    assert_eq!(phase, Phase::Done);
    assert_eq!(action, Action::Fail(RelayError::Decode(String::from("truncated"))));
}

#[test]
fn transport_failure_ends_the_exchange() {
    for phase in [Phase::AwaitingStatus, Phase::AwaitingErrorText, Phase::AwaitingBody] {
        let (next, action) =
            step(BASE, phase, Event::TransportFailed(String::from("connection refused")));
        assert_eq!(next, Phase::Done);
        assert_eq!(action, Action::Fail(RelayError::Network(String::from("connection refused"))));
    }
}

#[test]
fn status_decides_how_the_body_is_read() {
    for status in [200u16, 201, 204, 299] {
        assert_eq!(
            step(BASE, Phase::AwaitingStatus, Event::StatusReceived(status)),
            (Phase::AwaitingBody, Action::ReadBody)
        );
    }
    for status in [0u16, 100, 199, 300, 301, 400, 404, 500, 503, 999, 65535] {
        assert_eq!(
            step(BASE, Phase::AwaitingStatus, Event::StatusReceived(status)),
            (Phase::AwaitingErrorText, Action::ReadText)
        );
    }
}

#[test]
fn events_out_of_turn_change_nothing() {
    assert_eq!(
        step(BASE, Phase::Ready, Event::StatusReceived(200)),
        (Phase::Ready, Action::Nothing)
    );
    assert_eq!(
        step(BASE, Phase::Ready, Event::TransportFailed(String::from("x"))),
        (Phase::Ready, Action::Nothing)
    );
    assert_eq!(
        step(BASE, Phase::AwaitingStatus, Event::Submitted(String::from("again"))),
        (Phase::AwaitingStatus, Action::Nothing)
    );
    assert_eq!(
        step(BASE, Phase::AwaitingBody, Event::TextReceived(String::from("t"))),
        (Phase::AwaitingBody, Action::Nothing)
    );
    assert_eq!(
        step(BASE, Phase::AwaitingErrorText, Event::BodyReceived(vec![1])),
        (Phase::AwaitingErrorText, Action::Nothing)
    );
    assert_eq!(
        step(BASE, Phase::AwaitingDecode, Event::TransportFailed(String::from("late"))),
        (Phase::AwaitingDecode, Action::Nothing)
    );
}

#[test]
fn a_finished_exchange_does_nothing_more() {
    let events = [
        Event::Submitted(String::from("code")),
        Event::TransportFailed(String::from("x")),
        Event::StatusReceived(200),
        Event::TextReceived(String::from("t")),
        Event::BodyReceived(vec![1]),
        Event::Decoded(sample_output()),
        Event::DecodeFailed(String::from("d")),
    ];
    for event in events {
        assert_eq!(step(BASE, Phase::Done, event), (Phase::Done, Action::Nothing));
    }
}

#[test]
fn only_a_new_job_sends() {
    let phases = [
        Phase::Ready,
        Phase::AwaitingStatus,
        Phase::AwaitingErrorText,
        Phase::AwaitingBody,
        Phase::AwaitingDecode,
        Phase::Done,
    ];
    for phase in phases {
        let (_, action) = step(BASE, phase, Event::Submitted(String::from("code")));
        assert_eq!(matches!(action, Action::Send { .. }), phase == Phase::Ready);
    }
}

#[test]
fn endpoint_appends_the_run_path() {
    assert_eq!(endpoint("http://localhost:4000"), "http://localhost:4000/run");
    assert_eq!(endpoint(""), "/run");
    assert_eq!(endpoint("http://h/"), "http://h//run");
}

#[test]
fn success_is_200_to_299() {
    for status in 0..=u16::MAX {
        assert_eq!(is_success(status), (200..300).contains(&status));
    }
}

#[test]
fn success_agrees_with_the_transport_crate() {
    for status in 100..=999u16 {
        let known = reqwest::StatusCode::from_u16(status).unwrap();
        assert_eq!(is_success(status), known.is_success(), "{}", status);
    }
}

#[test]
fn no_sequence_of_events_sends_twice() {
    let events = [
        Event::Submitted(String::from("code")),
        Event::Submitted(String::from("again")),
        Event::StatusReceived(503),
        Event::Submitted(String::from("retry")),
        Event::TextReceived(String::from("busy")),
        Event::Submitted(String::from("once more")),
    ];
    let mut phase = Phase::Ready;
    let mut sent = 0;
    for event in events {
        let (next, action) = step(BASE, phase, event);
        if matches!(action, Action::Send { .. }) {
            sent += 1;
        }
        phase = next;
    }
    assert_eq!(sent, 1);
    assert_eq!(phase, Phase::Done);
}

#[test]
fn respond_assembles_a_delivered_output() {
    let html = respond(Ok(sample_output())).unwrap();
    assert!(html.contains("function f(){} export default f;"));
    assert!(html.contains("f((new Int8Array([1, 2, 3])).buffer)"));
}

#[test]
fn respond_gives_a_compile_error_as_the_page() {
    let delivered = Ok(BackendResponse::CompileError(String::from("syntax error on line 3")));
    assert_eq!(respond(delivered), Ok(String::from("syntax error on line 3")));
}

#[test]
fn respond_passes_errors_on() {
    let error = RelayError::Backend(String::from("internal compiler error"));
    assert_eq!(respond(Err(error.clone())), Err(JobError::Relay(error)));
    let malformed = BackendResponse::Output {
        index_html: String::new(),
        script: String::from("function f(){}"),
        module: vec![],
    };
    assert_eq!(respond(Ok(malformed)), Err(JobError::Assemble(AssembleError::MalformedScript)));
}

#[test]
fn failure_messages() {
    assert_eq!(FAILURE_STATUS, 500);
    assert_eq!(
        JobError::Relay(RelayError::Backend(String::from("internal compiler error"))).message(),
        "Compiler service returned an error: internal compiler error"
    );
    assert_eq!(
        JobError::Relay(RelayError::Network(String::from("dns failure"))).message(),
        "failed to reach the compiler service"
    );
    assert_eq!(
        JobError::Relay(RelayError::Decode(String::from("unexpected end"))).message(),
        "failed to decode the compiler response"
    );
    assert_eq!(
        JobError::Assemble(AssembleError::MalformedScript).message(),
        "no default-exported entry point found"
    );
}

#[test]
fn sample_payload() {
    let sample = hello();
    assert_eq!(sample.index_html, "index_html");
    assert_eq!(sample.script, "js");
    assert_eq!(sample.module, "wasm".as_bytes().to_vec());
}

#[test]
fn port_examples() {
    assert_eq!(parse_port("3000"), Some(3000));
    assert_eq!(parse_port("0"), Some(0));
    assert_eq!(parse_port("65535"), Some(65535));
    assert_eq!(parse_port("65536"), None);
    assert_eq!(parse_port("+8080"), Some(8080));
    assert_eq!(parse_port("0008080"), Some(8080));
    assert_eq!(parse_port(""), None);
    assert_eq!(parse_port("+"), None);
    assert_eq!(parse_port("-1"), None);
    assert_eq!(parse_port(" 80"), None);
    assert_eq!(parse_port("80 "), None);
    assert_eq!(parse_port("8_0"), None);
    assert_eq!(parse_port("++80"), None);
    assert_eq!(parse_port("99999999999999999999999"), None);
    assert_eq!(parse_port("\u{664}\u{662}"), None);
}

#[test]
fn port_agrees_with_the_standard_library() {
    let texts = [
        "", "+", "-", "0", "+0", "-0", "00", "1", "80", "080", "65535", "+65535", "65536", "65540",
        "70000", "655350", "000000000000000000065535", "4294967296", "12a", "a12", "1 2", "1.0",
        "0x50", "\u{ff11}", "6553\u{e9}",
    ];
    for text in texts {
        assert_eq!(parse_port(text), text.parse::<u16>().ok(), "{:?}", text);
    }
    for value in 0..=u16::MAX {
        assert_eq!(parse_port(&value.to_string()), Some(value));
    }
}

#[test]
fn port_falls_back_to_the_default() {
    assert_eq!(DEFAULT_PORT, 3000);
    assert_eq!(port_or_default(None), 3000);
    assert_eq!(port_or_default(Some("not a port")), 3000);
    assert_eq!(port_or_default(Some("70000")), 3000);
    assert_eq!(port_or_default(Some("8081")), 8081);
}

#[test]
fn config_needs_the_backend_address() {
    assert_eq!(Config::from_values(Some("8081"), None), Err(ConfigError::MissingBackendUrl));
    assert_eq!(Config::from_values(None, None), Err(ConfigError::MissingBackendUrl));
    assert_eq!(
        Config::from_values(None, Some(String::from("http://c:1"))),
        Ok(Config { port: 3000, backend_url: String::from("http://c:1") })
    );
    assert_eq!(
        Config::from_values(Some("9000"), Some(String::from("http://c:1"))),
        Ok(Config { port: 9000, backend_url: String::from("http://c:1") })
    );
}
