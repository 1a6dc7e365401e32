use rove_plugins::command::BrowserCmd;
use rove_plugins::json::parse_json;
use rove_plugins::step::Step;

/// Waits on a simulated network. Every look takes a hundred milliseconds, and
/// `busy` says whether a request is pending at the given millisecond.
fn wait(timeout_ms: u64, busy: impl Fn(u128) -> bool) -> (u128, Result<String, String>) {
    let mut now: u128 = 1_000_000_000;
    let begun = now;
    let mut step = BrowserCmd::WaitForNetworkIdle { timeout_ms }
        .begin()
        .unwrap();
    loop {
        step = match step {
            Step::Clock { next } => next.resume(now),
            Step::Sleep { millis, next } => {
                assert_eq!(millis, 100);
                now += millis as u128 * 1_000_000;
                next.resume()
            }
            Step::Call { next, .. } => {
                let count = if busy((now - begun) / 1_000_000) { "2" } else { "0" };
                let reply = parse_json(&format!(r#"{{"result":{{"type":"number","value":{}}}}}"#, count)).unwrap();
                next.resume(Ok(reply))
            }
            Step::Done { outcome } => return ((now - begun) / 1_000_000, outcome),
            other => panic!("{:?}", other),
        };
    }
}

#[test]
fn a_silent_network_is_idle_after_more_than_half_a_second() {
    assert_eq!(wait(10000, |_| false), (600, Ok("idle".to_string())));
}

#[test]
fn a_busy_network_runs_into_the_timeout() {
    assert_eq!(wait(1000, |_| true), (1100, Ok("timeout".to_string())));
}

#[test]
fn silence_counts_from_the_last_request() {
    assert_eq!(wait(10000, |ms| ms <= 300), (900, Ok("idle".to_string())));
}

#[test]
fn the_timeout_wins_over_silence() {
    assert_eq!(wait(500, |_| false), (600, Ok("timeout".to_string())));
}

#[test]
fn a_failed_look_ends_the_wait() {
    let step = BrowserCmd::WaitForNetworkIdle { timeout_ms: 10 }
        .begin()
        .unwrap();
    let mut step = step;
    let mut now = 5;
    while let Step::Clock { next } = step {
        step = next.resume(now);
        now += 1;
    }
    assert_eq!(now, 9);
    let step = match step {
        Step::Sleep { next, .. } => next.resume(),
        other => panic!("{:?}", other),
    };
    match step {
        Step::Call { next, .. } => match next.resume(Err("closed".to_string())) {
            Step::Done { outcome } => assert_eq!(outcome, Err("closed".to_string())),
            other => panic!("{:?}", other),
        },
        other => panic!("{:?}", other),
    }
}

#[test]
fn a_bare_count_is_read_too() {
    let wait = rove_plugins::step::IdleWait {
        timeout_ms: 10,
        started: 0,
        active: 0,
    };
    for (text, pending) in [
        (r#"{"value":1}"#, true),
        (r#"{"value":0}"#, false),
        (r#"{"result":{"value":3},"value":0}"#, true),
        ("{}", false),
    ] {
        let step = rove_plugins::idle::counted(wait, Ok(parse_json(text).unwrap()));
        match step {
            Step::Clock { next } => assert_eq!(
                matches!(next, rove_plugins::step::AfterClock::Marked { .. }),
                pending,
                "{}",
                text
            ),
            other => panic!("{:?}", other),
        }
    }
}
