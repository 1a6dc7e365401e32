use rove_plugins::json::{parse_json, Json};
use rove_plugins::session::{CallProgress, CdpSession, PendingCall, SocketEvent};

fn pending() -> PendingCall {
    let mut session = CdpSession::new();
    session.call("Page.enable", parse_json("{}").unwrap())
}

fn on_text(text: &str) -> CallProgress {
    pending().on_event(SocketEvent::Text(text.to_string()))
}

fn finished(progress: CallProgress) -> Result<Json, String> {
    match progress {
        CallProgress::Finished(outcome) => outcome,
        CallProgress::Waiting => panic!("still waiting"),
    }
}

#[test]
fn calls_are_numbered_from_one() {
    let mut session = CdpSession::new();
    let first = session.call("Page.enable", parse_json("{}").unwrap());
    let second = session.call("Page.navigate", parse_json(r#"{"url": "a\"b"}"#).unwrap());
    assert_eq!(first.id, 1);
    assert_eq!(first.text, r#"{"id":1,"method":"Page.enable","params":{}}"#);
    assert_eq!(second.id, 2);
    assert_eq!(
        second.text,
        r#"{"id":2,"method":"Page.navigate","params":{"url":"a\"b"}}"#
    );
    assert_eq!(session.next_id, 3);
}

#[test]
fn a_reply_with_the_own_number_ends_the_call() {
    assert_eq!(
        finished(on_text(r#"{"id":1,"result":{"x":7}}"#)),
        Ok(parse_json(r#"{"x":7}"#).unwrap())
    );
    assert_eq!(finished(on_text(r#"{"id":1}"#)), Ok(Json::Null));
}

#[test]
fn everything_else_leaves_the_call_waiting() {
    for text in [
        r#"{"id":2,"result":{}}"#,
        r#"{"method":"Page.loadEventFired","params":{}}"#,
        r#"{"id":"1","result":{}}"#,
        r#"{"id":-1}"#,
        r#"{"id":1.0}"#,
        "[1]",
    ] {
        assert!(matches!(on_text(text), CallProgress::Waiting), "{}", text);
    }
    assert!(matches!(
        pending().on_event(SocketEvent::Other),
        CallProgress::Waiting
    ));
}

#[test]
fn an_error_in_the_reply_is_passed_on_as_text() {
    assert_eq!(
        finished(on_text(
            r#"{"id":1,"error":{"message":"no","code":-32000},"result":{}}"#
        )),
        Err(r#"CDP error for Page.enable: {"code":-32000,"message":"no"}"#.to_string())
    );
}

#[test]
fn troubles_of_the_connection_end_the_call() {
    assert_eq!(
        finished(on_text("{")),
        Err("CDP response is not valid JSON".to_string())
    );
    assert_eq!(
        finished(pending().on_event(SocketEvent::Failed("reset".to_string()))),
        Err("CDP WebSocket error: reset".to_string())
    );
    assert_eq!(
        finished(pending().on_event(SocketEvent::Closed)),
        Err("CDP WebSocket closed unexpectedly".to_string())
    );
    assert_eq!(
        finished(pending().on_event(SocketEvent::TimedOut)),
        Err("CDP command 'Page.enable' timed out after 15 seconds".to_string())
    );
    assert_eq!(pending().send_failed(), "Failed to send CDP command");
}
