use rove_plugins::command::BrowserCmd;
use rove_plugins::json::{json_to_text, parse_json, Json};
use rove_plugins::reply::{execute_js, script_value};
use rove_plugins::step::Step;
use rove_plugins::tools::{basic, smart};

/// Runs an operation against prepared replies and notes what it asked for.
fn drive(step: Step, replies: &[Result<&str, &str>]) -> (Vec<String>, Result<String, String>) {
    let mut log = Vec::new();
    let mut left = replies.iter();
    let mut step = step;
    loop {
        step = match step {
            Step::Call {
                method,
                params,
                next,
            } => {
                log.push(format!("{} {}", method, json_to_text(params)));
                let reply = match left.next().expect("a reply") {
                    Ok(text) => Ok(parse_json(text).unwrap()),
                    Err(message) => Err(message.to_string()),
                };
                next.resume(reply)
            }
            Step::Sleep { millis, next } => {
                log.push(format!("sleep {}", millis));
                next.resume()
            }
            Step::Fill {
                selector,
                value,
                next,
            } => {
                log.push(format!("fill {} {}", selector, value));
                next.resume(left.next().expect("a reply").is_ok())
            }
            Step::Clock { .. } => panic!("no clock here"),
            Step::Done { outcome } => {
                assert!(left.next().is_none(), "replies left over");
                return (log, outcome);
            }
        };
    }
}

fn begin(cmd: BrowserCmd) -> Step {
    cmd.begin().expect("an operation")
}

/// The script of the first call.
fn script(step: &Step) -> String {
    match step {
        Step::Call { method, params, .. } => {
            assert_eq!(method, "Runtime.evaluate");
            assert_eq!(params.get("returnByValue"), Some(&Json::Bool(true)));
            params.get_str("expression").unwrap().to_string()
        }
        other => panic!("{:?}", other),
    }
}

fn navigate_to(url: &str) -> Step {
    begin(BrowserCmd::Navigate {
        url: url.to_string(),
    })
}

#[test]
fn navigation_waits_until_the_page_is_complete() {
    let (log, outcome) = drive(
        navigate_to("https://a"),
        &[
            Ok("{}"),
            Ok(r#"{"result":{"value":"loading"}}"#),
            Err("lost"),
            Ok(r#"{"result":{"value":"complete"}}"#),
            Ok(r#"{"result":{"value":"A page"}}"#),
        ],
    );
    assert_eq!(
        outcome,
        Ok("Navigated to: https://a\nTitle: A page".to_string())
    );
    assert_eq!(log.len(), 8);
    assert_eq!(log[0], r#"Page.navigate {"url":"https://a"}"#);
    assert_eq!(log[1], "sleep 200");
    assert_eq!(
        log[2],
        r#"Runtime.evaluate {"expression":"document.readyState","returnByValue":true}"#
    );
    assert_eq!(
        log[7],
        r#"Runtime.evaluate {"expression":"document.title","returnByValue":true}"#
    );
}

#[test]
fn navigation_gives_up_waiting_after_twenty_looks() {
    let mut replies = vec![Ok("{}")];
    for _ in 0..20 {
        replies.push(Ok(r#"{"result":{"value":"loading"}}"#));
    }
    replies.push(Err("no title"));
    let (log, outcome) = drive(navigate_to("u"), &replies);
    assert_eq!(
        outcome,
        Ok("Navigated to: u\nTitle: (no title)".to_string())
    );
    assert_eq!(log.iter().filter(|entry| *entry == "sleep 200").count(), 20);
}

#[test]
fn navigation_fails_where_the_browser_refuses() {
    let (_, outcome) = drive(navigate_to("u"), &[Err("CDP error")]);
    assert_eq!(outcome, Err("Page.navigate failed for u".to_string()));
    let (_, outcome) = drive(basic::navigate("u"), &[Err("CDP error")]);
    assert_eq!(outcome, Err("CDP error".to_string()));
}

#[test]
fn session_navigation_reports_the_title() {
    let (log, outcome) = drive(
        basic::navigate("https://a.test/"),
        &[
            Ok("{}"),
            Ok(r#"{"result":{"type":"string","value":"complete"}}"#),
            Ok(r#"{"result":{"type":"string","value":"Home"}}"#),
        ],
    );
    assert_eq!(
        outcome,
        Ok("Navigated to: https://a.test/\nTitle: Home".to_string())
    );
    assert_eq!(log.len(), 4);
}

#[test]
fn a_bare_value_is_read_on_a_session_too() {
    let (log, outcome) = drive(
        basic::navigate("u"),
        &[
            Ok("{}"),
            Ok(r#"{"value":"complete"}"#),
            Ok(r#"{"value":"T"}"#),
        ],
    );
    assert_eq!(outcome, Ok("Navigated to: u\nTitle: T".to_string()));
    assert_eq!(log.len(), 4);
}

fn read(text: &str) -> Result<String, String> {
    let reply = json_to_text(Json::Str(text.to_string()));
    let reply = format!(r#"{{"result":{{"value":{}}}}}"#, reply);
    drive(begin(BrowserCmd::PageText), &[Ok(reply.as_str())]).1
}

#[test]
fn page_text_is_passed_on_up_to_its_limit() {
    assert_eq!(read("hello"), Ok("hello".to_string()));
    assert_eq!(
        read(""),
        Ok("Page has no visible text content.".to_string())
    );
    let just = "a".repeat(8000);
    assert_eq!(read(&just), Ok(just.clone()));
    let long = "é".repeat(5000);
    assert_eq!(
        read(&long),
        Ok(format!(
            "{}\n[truncated — 10000 chars total]",
            "é".repeat(4000)
        ))
    );
    let (_, outcome) = drive(begin(BrowserCmd::PageText), &[Ok("{}")]);
    assert_eq!(
        outcome,
        Ok("Page has no visible text content.".to_string())
    );
    let (_, outcome) = drive(basic::page_text(), &[Ok(r#"{"result":{"value":"t"}}"#)]);
    assert_eq!(outcome, Ok("t".to_string()));
    let (_, outcome) = drive(basic::page_text(), &[Ok(r#"{"value":"t"}"#)]);
    assert_eq!(outcome, Ok("t".to_string()));
    let (_, outcome) = drive(basic::page_text(), &[Err("gone")]);
    assert_eq!(outcome, Err("gone".to_string()));
}

#[test]
fn a_text_is_cut_before_a_character_that_does_not_fit() {
    assert_eq!(
        read(&format!("a{}", "é".repeat(4000))),
        Ok(format!(
            "a{}\n[truncated — 8001 chars total]",
            "é".repeat(3999)
        ))
    );
    assert_eq!(
        read(&format!("{}😀b", "a".repeat(7997))),
        Ok(format!(
            "{}\n[truncated — 8002 chars total]",
            "a".repeat(7997)
        ))
    );
}

#[test]
fn clicks_carry_their_selector_as_a_literal() {
    let step = begin(BrowserCmd::Click {
        selector: "a[href=\"x\"]".to_string(),
    });
    let text = script(&step);
    assert!(text.starts_with("(function(){\n                const sel = \"a[href=\\\"x\\\"]\";\n"));
    assert!(text.ends_with("return 'Clicked: ' + label;\n            })()"));
    let (_, outcome) = drive(step, &[Ok(r#"{"result":{"value":"Clicked: Go"}}"#)]);
    assert_eq!(outcome, Ok("Clicked: Go".to_string()));
    let (_, outcome) = drive(
        begin(BrowserCmd::Click {
            selector: "a".to_string(),
        }),
        &[Ok("{}")],
    );
    assert_eq!(outcome, Ok("Click executed".to_string()));
    assert!(script(&basic::click("a")).starts_with("(function(){\n            const sel = \"a\";\n"));
    let (_, outcome) = drive(basic::click("a"), &[Ok(r#"{"value":"x"}"#)]);
    assert_eq!(outcome, Ok("x".to_string()));
}

#[test]
fn fills_carry_selector_and_value_as_literals() {
    let step = begin(BrowserCmd::Fill {
        selector: "#a".to_string(),
        value: "line\n\"two\"".to_string(),
    });
    let text = script(&step);
    assert!(text.starts_with(
        "(function(){\n                const sel = \"#a\";\n                const val = \"line\\n\\\"two\\\"\";\n"
    ));
    assert!(text.contains("el.dispatchEvent(new Event('input', {bubbles: true}));"));
    let (_, outcome) = drive(step, &[Ok("{}")]);
    assert_eq!(outcome, Ok("Field filled".to_string()));
    assert!(script(&basic::fill_field("#a", "v")).contains("            const val = \"v\";\n"));
}

#[test]
fn queries_fall_back_to_their_empty_answer() {
    let cases = vec![
        (begin(BrowserCmd::InspectForm), "[]"),
        (begin(BrowserCmd::GetPageStructure), "{}"),
        (begin(BrowserCmd::GetInteractiveElements), "[]"),
        (begin(BrowserCmd::CheckBlockers), "{}"),
        (begin(BrowserCmd::GetInterceptedResponses), "{}"),
        (begin(BrowserCmd::ClickById { id: 7 }), "Click executed"),
        (
            begin(BrowserCmd::GetElementDiff {
                selector: "li".to_string(),
            }),
            "{}",
        ),
        (
            begin(BrowserCmd::ExtractTableToJson { selector: None }),
            "{}",
        ),
        (
            begin(BrowserCmd::ExtractSemanticData { keys: Vec::new() }),
            "{}",
        ),
        (smart::inspect_form(), "[]"),
        (smart::get_page_structure(), "{}"),
        (smart::extract_semantic_data(Vec::new()), "{}"),
    ];
    for (step, fallback) in cases {
        let (_, outcome) = drive(step, &[Ok("{}")]);
        assert_eq!(outcome, Ok(fallback.to_string()));
    }
}

#[test]
fn queries_fail_with_their_call() {
    let (_, outcome) = drive(begin(BrowserCmd::CheckBlockers), &[Err("closed")]);
    assert_eq!(outcome, Err("closed".to_string()));
}

#[test]
fn scripts_hold_what_they_are_about() {
    let text = script(&begin(BrowserCmd::ClickById { id: 42 }));
    assert!(text.contains("document.querySelector('[data-rove-id=\"42\"]');"));
    assert!(text.contains("return 'ERROR: no element with id 42';"));
    let text = script(&begin(BrowserCmd::GetElementDiff {
        selector: "li.x".to_string(),
    }));
    assert!(text.contains("const sel = 'li.x';"));
    assert!(text.contains("const snapshot = elements.map(el => ({"));
    let text = script(&begin(BrowserCmd::ExtractTableToJson { selector: None }));
    assert!(text.contains("document.querySelector('table');"));
    assert!(text.contains("`col_${i}`"));
    let text = script(&begin(BrowserCmd::ExtractTableToJson {
        selector: Some("#t".to_string()),
    }));
    assert!(text.contains("document.querySelector('#t');"));
    let text = script(&begin(BrowserCmd::GetElementDiff {
        selector: "[name='q']".to_string(),
    }));
    assert!(text.contains("const sel = '[name=\\'q\\']';"));
    let text = script(&begin(BrowserCmd::ExtractTableToJson {
        selector: Some("td[title='a\\b']".to_string()),
    }));
    assert!(text.contains("document.querySelector('td[title=\\'a\\\\b\\']');"));
    let keys = vec!["price".to_string(), "a\"b".to_string()];
    let text = script(&begin(BrowserCmd::ExtractSemanticData { keys: keys.clone() }));
    assert!(text.contains("            const keys = [\"price\",\"a\\\"b\"];\n"));
    assert!(text.contains("`[class*=\"${key}\" i]`"));
    let text = script(&smart::extract_semantic_data(keys));
    assert!(text.starts_with("(function(){\n        const keys = [\"price\",\"a\\\"b\"];\n"));
}

#[test]
fn interception_switches_the_network_events_on_first() {
    let step = begin(BrowserCmd::InterceptApiResponse {
        url_pattern: "/api".to_string(),
    });
    let (log, outcome) = drive(
        step,
        &[Ok("{}"), Ok(r#"{"result":{"value":"{\"intercepting\":\"/api\"}"}}"#)],
    );
    assert_eq!(outcome, Ok(r#"{"intercepting":"/api"}"#.to_string()));
    assert_eq!(log[0], "Network.enable {}");
    assert!(log[1].contains("const pattern = '/api';"));
    assert!(log[1].contains("window.fetch = function(...args)"));
    assert!(log[1].contains("XMLHttpRequest.prototype.open = function(method, url, ...rest)"));
    assert!(log[1].contains("XMLHttpRequest.prototype.send = function(...args)"));
    let step = begin(BrowserCmd::InterceptApiResponse {
        url_pattern: "/api".to_string(),
    });
    let (log, outcome) = drive(step, &[Err("no network")]);
    assert_eq!(outcome, Err("no network".to_string()));
    assert_eq!(log.len(), 1);
}

#[test]
fn scripts_come_to_a_value_or_an_exception() {
    let call = execute_js("1 + 1");
    assert_eq!(call.method, "Runtime.evaluate");
    assert_eq!(
        json_to_text(call.params),
        r#"{"expression":"1 + 1","returnByValue":true}"#
    );
    let value = |text: &str| script_value(Ok(parse_json(text).unwrap()));
    assert_eq!(
        value(r#"{"result":{"type":"number","value":42}}"#),
        Ok(Json::PosInt(42))
    );
    assert_eq!(value(r#"{"value":2}"#), Ok(Json::PosInt(2)));
    assert_eq!(
        value(r#"{"result":{"type":"undefined"}}"#),
        Ok(Json::Null)
    );
    assert_eq!(value("{}"), Ok(Json::Null));
    assert_eq!(
        value(r#"{"value":2,"exceptionDetails":{"text":"Uncaught"}}"#),
        Err(r#"JavaScript error: {"text":"Uncaught"}"#.to_string())
    );
    assert_eq!(
        script_value(Err("gone".to_string())),
        Err("gone".to_string())
    );
}

fn fill_form(data: &str, submit: bool) -> Step {
    begin(BrowserCmd::FillFormSmart {
        data: parse_json(data).unwrap(),
        submit,
    })
}

fn forms(text: &str) -> String {
    format!(
        r#"{{"result":{{"value":{}}}}}"#,
        json_to_text(Json::Str(text.to_string()))
    )
}

const FORM: &str = r#"[{"fields":[
    {"name":"Email","label":"","id":"mail","tagName":"input"},
    {"name":"","label":"Your e-mail address","id":"","tagName":"input"},
    {"name":"","label":"First Name","id":"first","tagName":"input"},
    {"name":"name2","label":"Last name","id":"","tagName":"input"}
]},{"fields":[]}]"#;

#[test]
fn fields_are_matched_by_name_label_or_id() {
    let listed = forms(FORM);
    let (log, outcome) = drive(
        fill_form(r#"{"email":"a@b","MAIL":1,"name":"N","zip":"0"}"#, false),
        &[Ok(listed.as_str()), Ok("{}"), Ok("{}"), Ok("{}")],
    );
    assert_eq!(
        outcome,
        Ok(r#"{"filled":["MAIL","email","name"],"skipped":["zip"],"submitted":false}"#.to_string())
    );
    assert!(log[0].contains("id: field.id || ''"));
    // The keys come in their order: MAIL by its id, email by its name, name by
    // a label that holds it.
    assert!(log[1].contains(r#"const sel = \"input[name='Email']\";"#));
    assert!(log[1].contains(r#"const val = \"1\";"#));
    assert!(log[2].contains(r#"const sel = \"input[name='Email']\";"#));
    assert!(log[3].contains(r##"const sel = \"#first\";"##));
}

#[test]
fn the_next_field_is_tried_where_filling_fails() {
    let listed = forms(FORM);
    let (log, outcome) = drive(
        fill_form(r#"{"name":"N"}"#, false),
        &[Ok(listed.as_str()), Err("lost"), Ok("{}")],
    );
    assert_eq!(
        outcome,
        Ok(r#"{"filled":["name"],"skipped":[],"submitted":false}"#.to_string())
    );
    assert!(log[1].contains("#first"));
    assert!(log[2].contains("input[name='name2']"));
    let (_, outcome) = drive(
        fill_form(r#"{"name":"N"}"#, false),
        &[Ok(listed.as_str()), Err("lost"), Err("lost")],
    );
    assert_eq!(
        outcome,
        Ok(r#"{"filled":[],"skipped":["name"],"submitted":false}"#.to_string())
    );
}

#[test]
fn a_form_is_submitted_on_demand() {
    let listed = forms(FORM);
    let (log, outcome) = drive(fill_form("{}", true), &[Ok(listed.as_str()), Ok("{}")]);
    assert_eq!(
        outcome,
        Ok(r#"{"filled":[],"skipped":[],"submitted":true}"#.to_string())
    );
    assert!(log[1].contains("btn.click(); return 'submitted';"));
    assert_eq!(log[2], "sleep 500");
    let (log, outcome) = drive(fill_form("{}", true), &[Ok(listed.as_str()), Err("lost")]);
    assert_eq!(
        outcome,
        Ok(r#"{"filled":[],"skipped":[],"submitted":false}"#.to_string())
    );
    assert_eq!(log.len(), 2);
}

#[test]
fn pages_without_a_usable_form_are_told() {
    let outcome = |listed: &str, data: &str| {
        let listed = forms(listed);
        drive(fill_form(data, true), &[Ok(listed.as_str())]).1
    };
    assert_eq!(
        outcome("[]", "1"),
        Ok(r#"{"filled":[],"skipped":[],"submitted":false}"#.to_string())
    );
    assert_eq!(outcome("{}", "{}"), Err("No forms found".to_string()));
    assert_eq!(
        outcome("[{}]", "{}"),
        Err("Invalid form structure".to_string())
    );
    assert_eq!(
        outcome(r#"[{"fields":[]}]"#, "[]"),
        Err("Data must be an object".to_string())
    );
    assert_eq!(
        outcome("oops", "{}"),
        Err("expected value at line 1 column 1".to_string())
    );
    let (_, none) = drive(fill_form("{}", true), &[Ok("{}")]);
    assert_eq!(
        none,
        Ok(r#"{"filled":[],"skipped":[],"submitted":false}"#.to_string())
    );
    let (_, lost) = drive(fill_form("{}", true), &[Err("lost")]);
    assert_eq!(lost, Err("lost".to_string()));
}

#[test]
fn on_a_session_the_caller_fills_the_fields() {
    let listed = forms(FORM);
    let data = parse_json(r#"{"email":true,"name":"N"}"#).unwrap();
    let (log, outcome) = drive(
        smart::fill_form_smart(data, true),
        &[
            Ok(listed.as_str()),
            Ok("{}"),
            Err("lost"),
            Ok("{}"),
            Ok("{}"),
        ],
    );
    assert_eq!(
        outcome,
        Ok(r#"{"filled":["email","name"],"skipped":[],"submitted":true}"#.to_string())
    );
    assert_eq!(
        log[1],
        "fill input[name='Email'], textarea[name='Email'], select[name='Email'] true"
    );
    assert_eq!(log[2], "fill #first N");
    assert_eq!(
        log[3],
        "fill input[name='name2'], textarea[name='name2'], select[name='name2'] N"
    );
    assert_eq!(log[5], "sleep 500");
}

fn save(cookies: &str, storage: &str) -> Result<String, String> {
    let storage = forms(storage);
    drive(
        begin(BrowserCmd::SaveSessionState),
        &[Ok(cookies), Ok(storage.as_str())],
    )
    .1
}

fn restore(state: &str, calls: usize) -> (Vec<String>, Result<String, String>) {
    let step = begin(BrowserCmd::RestoreSessionState {
        state: state.to_string(),
    });
    drive(step, &vec![Err("ignored"); calls])
}

#[test]
fn a_saved_state_is_restored() {
    let saved = save(
        r#"{"cookies":[{"name":"a","value":"1"},{"name":"b"}]}"#,
        r#"{"it's":"so","n":1}"#,
    )
    .unwrap();
    assert_eq!(
        saved,
        r#"{"cookies":[{"name":"a","value":"1"},{"name":"b"}],"localStorage":{"it's":"so","n":1}}"#
    );
    let (log, outcome) = restore(&saved, 4);
    assert_eq!(outcome, Ok(r#"{"restored": true}"#.to_string()));
    assert_eq!(
        log,
        vec![
            r#"Network.setCookie {"name":"a","value":"1"}"#,
            r#"Network.setCookie {"name":"b"}"#,
            r#"Runtime.evaluate {"expression":"localStorage.setItem('it\\'s', 'so')"}"#,
            r#"Runtime.evaluate {"expression":"localStorage.setItem('n', '')"}"#,
        ]
    );
}

#[test]
fn what_the_page_does_not_give_is_saved_as_null() {
    assert_eq!(
        save("{}", "oops").unwrap(),
        r#"{"cookies":null,"localStorage":null}"#
    );
    let (log, outcome) = restore(r#"{"cookies":null,"localStorage":[1]}"#, 0);
    assert!(log.is_empty());
    assert_eq!(outcome, Ok(r#"{"restored": true}"#.to_string()));
}

#[test]
fn saving_fails_with_its_calls() {
    let (log, outcome) = drive(begin(BrowserCmd::SaveSessionState), &[Err("no cookies")]);
    assert_eq!(outcome, Err("no cookies".to_string()));
    assert_eq!(log, vec!["Network.getAllCookies {}"]);
    let (_, outcome) = drive(
        begin(BrowserCmd::SaveSessionState),
        &[Ok("{}"), Err("no storage")],
    );
    assert_eq!(outcome, Err("no storage".to_string()));
}

#[test]
fn a_state_that_is_no_json_is_refused() {
    let (_, outcome) = restore("x", 0);
    assert_eq!(
        outcome,
        Err("Invalid state JSON: expected value at line 1 column 1".to_string())
    );
}

#[test]
fn a_cookie_keeps_the_time_of_its_end() {
    let saved = save(
        r#"{"cookies":[{"expires":1735689600.5,"name":"a","size":7}]}"#,
        r#"{"k":"1735689600.123456789"}"#,
    )
    .unwrap();
    let (log, _) = restore(&saved, 2);
    assert_eq!(
        log,
        vec![
            r#"Network.setCookie {"expires":1735689600.5,"name":"a","size":7}"#,
            r#"Runtime.evaluate {"expression":"localStorage.setItem('k', '1735689600.123456789')"}"#,
        ]
    );
}

#[test]
fn stored_values_come_back_exactly() {
    let saved = save("{}", r#"{"a\\":"\\","b":"one\ntwo\r'\u2028\u2029\""}"#).unwrap();
    let (log, outcome) = restore(&saved, 2);
    assert_eq!(outcome, Ok(r#"{"restored": true}"#.to_string()));
    let scripts: Vec<String> = log
        .iter()
        .map(|entry| {
            let params = entry.strip_prefix("Runtime.evaluate ").unwrap();
            let params = parse_json(params).unwrap();
            params.get_str("expression").unwrap().to_string()
        })
        .collect();
    assert_eq!(
        scripts,
        vec![
            r"localStorage.setItem('a\\', '\\')".to_string(),
            r#"localStorage.setItem('b', 'one\ntwo\r\'\u2028\u2029"')"#.to_string(),
        ]
    );
}
