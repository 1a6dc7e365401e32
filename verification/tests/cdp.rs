use rove_plugins::cdp::{extract_string_value, ready_state_value, CdpBackend, CdpConfig, CdpMode};
use rove_plugins::chrome::Platform;
use rove_plugins::connect::{
    enable_call, read_new_page, ConnectAnswer, ConnectStep, Domain, Fetched,
};
use rove_plugins::json::{json_to_text, parse_json, Json};
use rove_plugins::session::CdpSession;
use rove_plugins::step::Dialect;

fn config(mode: CdpMode, cdp_url: Option<&str>) -> CdpConfig {
    CdpConfig {
        mode,
        cdp_url: cdp_url.map(|url| url.to_string()),
        browser: None,
        user_data_dir: None,
        startup_url: None,
    }
}

fn first_step(mode: CdpMode, cdp_url: Option<&str>) -> ConnectStep {
    CdpBackend::new(config(mode, cdp_url)).ensure_connected(Platform::Other, "/tmp/default")
}

fn go(step: ConnectStep, answer: ConnectAnswer) -> ConnectStep {
    step.resume(answer).expect("the answer fits the step")
}

fn failure(step: ConnectStep) -> String {
    match step {
        ConnectStep::Done { outcome: Err(message) } => message,
        other => panic!("not a failure: {:?}", other),
    }
}

fn socket(step: ConnectStep) -> String {
    match step {
        ConnectStep::Open { dialect, ws_url } => {
            assert_eq!(dialect, Dialect::Backend);
            ws_url
        }
        other => panic!("not a socket: {:?}", other),
    }
}

#[test]
fn cdp_backend_constructs_without_panic() {
    let config = CdpConfig {
        mode: CdpMode::AttachExisting,
        cdp_url: Some("http://127.0.0.1:9222".to_string()),
        browser: None,
        user_data_dir: None,
        startup_url: None,
    };
    let backend = CdpBackend::new(config);
    assert!(!backend.is_connected());
    assert_eq!(backend.backend_name(), "Chrome CDP");
}

#[test]
fn extract_string_value_parses_evaluate_response() {
    let res = parse_json(r#"{"result": {"type": "string", "value": "complete"}}"#).unwrap();
    assert_eq!(extract_string_value(&res), Some("complete"));
    assert_eq!(ready_state_value(&res), Some("complete"));
}

#[test]
fn extract_string_value_returns_none_for_non_string() {
    let res = parse_json(r#"{"result": {"type": "number", "value": 42}}"#).unwrap();
    assert!(extract_string_value(&res).is_none());
}

#[test]
fn a_bare_value_is_extracted() {
    let res = parse_json(r#"{"type": "string", "value": "complete"}"#).unwrap();
    assert_eq!(
        rove_plugins::tools::utils::extract_string_value(&res),
        Some("complete")
    );
    assert!(extract_string_value(&res).is_none());
    assert!(rove_plugins::tools::utils::extract_string_value(&Json::Null).is_none());
}

#[test]
fn attached_backend_has_nothing_left_to_do() {
    let mut backend = CdpBackend::new(config(CdpMode::RemoteCdp, None));
    backend.attach(CdpSession::new());
    assert!(backend.is_connected());
    match backend.ensure_connected(Platform::Linux, "/tmp/default") {
        ConnectStep::Done { outcome } => assert_eq!(outcome, Ok(())),
        other => panic!("{:?}", other),
    }
}

#[test]
fn remote_mode_needs_an_address() {
    assert_eq!(
        failure(first_step(CdpMode::RemoteCdp, None)),
        "RemoteCdp mode requires a cdp_url"
    );
}

#[test]
fn socket_endpoints_are_opened_directly() {
    for url in ["ws://host/devtools/page/1", "wss://host/x"] {
        assert_eq!(socket(first_step(CdpMode::RemoteCdp, Some(url))), url);
        assert_eq!(socket(first_step(CdpMode::AttachExisting, Some(url))), url);
    }
}

#[test]
fn attach_mode_asks_the_usual_port_for_its_targets() {
    match first_step(CdpMode::AttachExisting, None) {
        ConnectStep::ListTargets { url, endpoint } => {
            assert_eq!(url, "http://127.0.0.1:9222/json/list");
            assert_eq!(endpoint, "http://127.0.0.1:9222");
        }
        other => panic!("{:?}", other),
    }
}

#[test]
fn slashes_at_the_end_of_an_endpoint_are_dropped() {
    match first_step(CdpMode::RemoteCdp, Some("http://host:1//?x=wss://y//")) {
        ConnectStep::ListTargets { url, .. } => {
            assert_eq!(url, "http://host:1//?x=https://y/json/list");
        }
        other => panic!("{:?}", other),
    }
}

#[test]
fn managed_mode_without_a_browser_fails() {
    assert_eq!(
        failure(first_step(CdpMode::ManagedLocal, None)),
        "Chrome/Chromium not found. Install Google Chrome or set the browser path in config."
    );
}

#[test]
fn managed_mode_starts_the_configured_browser() {
    let mut config = config(CdpMode::ManagedLocal, None);
    config.browser = Some("/".to_string());
    config.startup_url = Some("https://example.com".to_string());
    let backend = CdpBackend::new(config);
    match backend.ensure_connected(Platform::Other, "/tmp/default") {
        ConnectStep::Spawn { binary, args } => {
            assert_eq!(binary, "/");
            assert_eq!(
                args,
                vec![
                    "--remote-debugging-port=9222",
                    "--headless=new",
                    "--no-sandbox",
                    "--disable-gpu",
                    "--disable-dev-shm-usage",
                    "--user-data-dir=/tmp/default",
                    "https://example.com",
                ]
            );
        }
        other => panic!("{:?}", other),
    }
}

#[test]
fn a_browser_that_does_not_start_is_reported() {
    let spawn = ConnectStep::Spawn {
        binary: "/usr/bin/chromium".to_string(),
        args: Vec::new(),
    };
    assert_eq!(
        failure(go(spawn, ConnectAnswer::Spawned(false))),
        "Failed to spawn Chrome at /usr/bin/chromium"
    );
}

#[test]
fn a_browser_that_stays_silent_is_given_up_after_five_seconds() {
    let spawn = ConnectStep::Spawn {
        binary: "/usr/bin/chromium".to_string(),
        args: Vec::new(),
    };
    let mut step = go(spawn, ConnectAnswer::Spawned(true));
    let mut waited = 0;
    let mut asked = 0;
    loop {
        step = match step {
            ConnectStep::Pause { millis, .. } => {
                waited += millis;
                go(step, ConnectAnswer::Rested)
            }
            ConnectStep::Probe { ref url, .. } => {
                assert_eq!(url, "http://127.0.0.1:9222/json/version");
                asked += 1;
                go(step, ConnectAnswer::Probed(false))
            }
            other => {
                assert_eq!(
                    failure(other),
                    "Chrome did not respond on port 9222 within 5 seconds"
                );
                break;
            }
        };
    }
    assert_eq!(waited, 5000);
    assert_eq!(asked, 25);
}

#[test]
fn a_browser_that_answers_is_asked_for_its_targets() {
    let probe = ConnectStep::Probe {
        url: String::new(),
        probes: 3,
    };
    match go(probe, ConnectAnswer::Probed(true)) {
        ConnectStep::ListTargets { url, endpoint } => {
            assert_eq!(url, "http://127.0.0.1:9222/json/list");
            assert_eq!(endpoint, "http://127.0.0.1:9222");
        }
        other => panic!("{:?}", other),
    }
}

fn list(text: Fetched) -> ConnectStep {
    let step = first_step(CdpMode::RemoteCdp, Some("http://host/"));
    go(step, ConnectAnswer::Fetched(text))
}

#[test]
fn the_first_page_with_a_socket_is_taken() {
    let targets = r#"[
        {"type": "iframe", "webSocketDebuggerUrl": "ws://a"},
        {"type": "page"},
        {"type": "page", "webSocketDebuggerUrl": "ws://b"},
        {"type": "page", "webSocketDebuggerUrl": "ws://c"}
    ]"#;
    assert_eq!(socket(list(Fetched::Text(targets.to_string()))), "ws://b");
}

#[test]
fn without_a_page_a_new_one_is_asked_for() {
    for text in [
        Fetched::Unreachable,
        Fetched::Unreadable,
        Fetched::Text("no json".to_string()),
        Fetched::Text("{}".to_string()),
        Fetched::Text("[]".to_string()),
    ] {
        match list(text) {
            ConnectStep::NewTarget { url, endpoint } => {
                assert_eq!(url, "http://host/json/new");
                assert_eq!(endpoint, "http://host/");
            }
            other => panic!("{:?}", other),
        }
    }
}

#[test]
fn a_new_page_is_opened_or_its_lack_reported() {
    let document = Fetched::Text(r#"{"webSocketDebuggerUrl":"ws://new"}"#.to_string());
    assert_eq!(
        socket(go(list(Fetched::Unreachable), ConnectAnswer::Fetched(document))),
        "ws://new"
    );
    for text in [Fetched::Unreachable, Fetched::Text("{}".to_string())] {
        assert_eq!(
            failure(go(list(Fetched::Unreachable), ConnectAnswer::Fetched(text))),
            "Failed to get page WebSocket URL from http://host/"
        );
    }
}

#[test]
fn the_reason_why_there_is_no_new_page_is_told() {
    let url = "http://host/json/new";
    assert_eq!(
        read_new_page(url, Fetched::Unreachable),
        Err("GET http://host/json/new failed — is Chrome running?".to_string())
    );
    assert_eq!(
        read_new_page(url, Fetched::Unreadable),
        Err("Invalid /json/new response".to_string())
    );
    assert_eq!(
        read_new_page(url, Fetched::Text("<html>".to_string())),
        Err("Invalid /json/new response".to_string())
    );
    assert_eq!(
        read_new_page(url, Fetched::Text("[]".to_string())),
        Err("webSocketDebuggerUrl missing in /json/new response".to_string())
    );
}

fn open(dialect: Dialect) -> ConnectStep {
    ConnectStep::Open {
        dialect,
        ws_url: "ws://x".to_string(),
    }
}

#[test]
fn both_domains_are_switched_on() {
    let step = go(open(Dialect::Backend), ConnectAnswer::Opened(true));
    match step {
        ConnectStep::Enable { domain, .. } => assert_eq!(domain, Domain::Page),
        ref other => panic!("{:?}", other),
    }
    let step = go(step, ConnectAnswer::Called(Ok(())));
    match step {
        ConnectStep::Enable { domain, .. } => assert_eq!(domain, Domain::Runtime),
        ref other => panic!("{:?}", other),
    }
    match go(step, ConnectAnswer::Called(Ok(()))) {
        ConnectStep::Done { outcome } => assert_eq!(outcome, Ok(())),
        other => panic!("{:?}", other),
    }
    let call = enable_call(Domain::Runtime);
    assert_eq!(call.method, "Runtime.enable");
    assert_eq!(json_to_text(call.params), "{}");
}

#[test]
fn a_socket_that_does_not_open_is_reported() {
    assert_eq!(
        failure(go(open(Dialect::Backend), ConnectAnswer::Opened(false))),
        "Failed to connect CDP WebSocket at ws://x"
    );
    assert_eq!(
        failure(go(CdpSession::connect("ws://y"), ConnectAnswer::Opened(false))),
        "Failed to connect CDP WebSocket at ws://y"
    );
}

#[test]
fn a_domain_that_cannot_be_switched_on_is_reported() {
    let refusal = || ConnectAnswer::Called(Err("refused".to_string()));
    let backend = go(open(Dialect::Backend), ConnectAnswer::Opened(true));
    assert_eq!(failure(go(backend, refusal())), "Page.enable failed");
    let backend = go(open(Dialect::Backend), ConnectAnswer::Opened(true));
    let backend = go(backend, ConnectAnswer::Called(Ok(())));
    assert_eq!(failure(go(backend, refusal())), "Runtime.enable failed");
    let session = go(CdpSession::connect("ws://y"), ConnectAnswer::Opened(true));
    assert_eq!(failure(go(session, refusal())), "refused");
}

#[test]
fn an_answer_that_does_not_fit_is_not_taken() {
    assert!(open(Dialect::Session).resume(ConnectAnswer::Rested).is_none());
}

#[test]
fn a_backend_is_connected_once_connecting_ended_well() {
    let mut backend = CdpBackend::new(config(CdpMode::AttachExisting, None));
    backend.conclude(&Err("Page.enable failed".to_string()), CdpSession::new());
    assert!(!backend.is_connected());
    let mut session = CdpSession::new();
    session.next_id = 3;
    backend.conclude(&Ok(()), session);
    assert!(backend.is_connected());
    backend.conclude(&Err("closed".to_string()), CdpSession::new());
    assert!(backend.is_connected());
    backend.conclude(&Ok(()), CdpSession::new());
    assert_eq!(backend.session.unwrap().next_id, 3);
}
