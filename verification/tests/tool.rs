use rove_plugins::cdp::{CdpConfig, CdpMode};
use rove_plugins::command::BrowserCmd;
use rove_plugins::json::{parse_json, Json};
use rove_plugins::tool::{dispatched, BrowserCdpTool, DriverAnswer, EngineError, ToolInput};

fn request(method: &str, params: &str) -> Result<BrowserCmd, String> {
    let mut input = ToolInput::new(method);
    input.params = parse_json(params).unwrap();
    BrowserCdpTool::new_for_test()
        .handle(input)
        .map_err(|e| e.message().to_string())
}

fn asked(method: &str, lookups: &[(&str, Result<&str, &str>)]) -> Result<BrowserCmd, String> {
    let mut input = ToolInput::new(method);
    for (name, answer) in lookups {
        let answer = match answer {
            Ok(text) => Ok(text.to_string()),
            Err(message) => Err(message.to_string()),
        };
        input.lookups.push((name.to_string(), answer));
    }
    BrowserCdpTool::new_for_test()
        .handle(input)
        .map_err(|e| e.message().to_string())
}

fn complaint(outcome: Result<BrowserCmd, String>) -> String {
    match outcome {
        Err(message) => message,
        Ok(cmd) => panic!("accepted: {:?}", cmd),
    }
}

#[test]
fn unknown_method_returns_error() {
    let tool = BrowserCdpTool::new_for_test();
    let input = ToolInput::new("nonexistent_method");
    let err = tool.handle(input).unwrap_err();
    assert!(err.message().contains("unknown method"));
    assert_eq!(
        err.message(),
        "browser-cdp: unknown method 'nonexistent_method'"
    );
}

#[test]
fn browse_url_requires_url_param() {
    let tool = BrowserCdpTool::new_for_test();
    let input = ToolInput::new("browse_url"); // no "url" param
    let err = tool.handle(input).unwrap_err();
    assert!(err.message().contains("url") || err.message().contains("Missing"));
}

#[test]
fn the_tool_has_its_name_and_its_configuration() {
    let tool = BrowserCdpTool::new_for_test();
    assert_eq!(tool.name(), "browser-cdp");
    assert!(matches!(tool.config.mode, CdpMode::ManagedLocal));
    let tool = BrowserCdpTool::new_with_config(CdpConfig {
        mode: CdpMode::RemoteCdp,
        cdp_url: Some("ws://x".to_string()),
        browser: None,
        user_data_dir: None,
        startup_url: None,
    });
    assert_eq!(tool.config.cdp_url.as_deref(), Some("ws://x"));
}

#[test]
fn parameters_looked_up_by_the_engine_are_used() {
    match asked("browse_url", &[("url", Ok("https://a"))]).unwrap() {
        BrowserCmd::Navigate { url } => assert_eq!(url, "https://a"),
        other => panic!("{:?}", other),
    }
    match asked("click_element", &[("x", Ok("y")), ("selector", Ok("#a"))]).unwrap() {
        BrowserCmd::Click { selector } => assert_eq!(selector, "#a"),
        other => panic!("{:?}", other),
    }
    match asked(
        "fill_form_field",
        &[("selector", Ok("#a")), ("value", Ok("v"))],
    )
    .unwrap()
    {
        BrowserCmd::Fill { selector, value } => {
            assert_eq!(selector, "#a");
            assert_eq!(value, "v");
        }
        other => panic!("{:?}", other),
    }
}

#[test]
fn complaints_of_the_engine_are_passed_on() {
    assert_eq!(
        complaint(asked("browse_url", &[("url", Err("url must be text"))])),
        "url must be text"
    );
    assert_eq!(
        complaint(asked("fill_form_field", &[("selector", Ok("#a"))])),
        "Missing parameter: value"
    );
    assert_eq!(
        complaint(asked("click_element", &[])),
        "Missing parameter: selector"
    );
}

#[test]
fn methods_without_parameters_are_always_accepted() {
    for method in [
        "read_page_text",
        "inspect_form",
        "get_page_structure",
        "get_interactive_elements",
        "check_blockers",
        "save_session_state",
        "get_intercepted_responses",
        "wait_for_network_idle",
        "extract_table_to_json",
    ] {
        assert!(request(method, "{}").is_ok(), "{}", method);
    }
}

#[test]
fn defaults_stand_in_for_missing_parameters() {
    match request("wait_for_network_idle", "{}").unwrap() {
        BrowserCmd::WaitForNetworkIdle { timeout_ms } => assert_eq!(timeout_ms, 10000),
        other => panic!("{:?}", other),
    }
    match request("wait_for_network_idle", r#"{"timeout_ms": 5}"#).unwrap() {
        BrowserCmd::WaitForNetworkIdle { timeout_ms } => assert_eq!(timeout_ms, 5),
        other => panic!("{:?}", other),
    }
    match request("fill_form_smart", r#"{"data": {"a": 1}}"#).unwrap() {
        BrowserCmd::FillFormSmart { data, submit } => {
            assert_eq!(data, parse_json(r#"{"a":1}"#).unwrap());
            assert!(!submit);
        }
        other => panic!("{:?}", other),
    }
    match request("fill_form_smart", r#"{"data": {}, "submit": true}"#).unwrap() {
        BrowserCmd::FillFormSmart { submit, .. } => assert!(submit),
        other => panic!("{:?}", other),
    }
    match request("extract_table_to_json", r#"{"selector": 1}"#).unwrap() {
        BrowserCmd::ExtractTableToJson { selector } => assert!(selector.is_none()),
        other => panic!("{:?}", other),
    }
}

#[test]
fn missing_parameters_are_named() {
    for (method, name) in [
        ("fill_form_smart", "data"),
        ("extract_semantic_data", "keys"),
        ("click_by_id", "id"),
        ("get_element_diff", "selector"),
        ("restore_session_state", "state"),
        ("intercept_api_response", "url_pattern"),
    ] {
        assert_eq!(
            complaint(request(method, "{}")),
            format!("Missing parameter: {}", name)
        );
    }
    assert_eq!(
        complaint(request("click_by_id", r#"{"id": -1}"#)),
        "Missing parameter: id"
    );
}

#[test]
fn keys_must_be_a_list_and_only_its_strings_count() {
    assert_eq!(
        complaint(request("extract_semantic_data", r#"{"keys": "price"}"#)),
        "keys must be an array"
    );
    match request("extract_semantic_data", r#"{"keys": ["a", 1, "b", null]}"#).unwrap() {
        BrowserCmd::ExtractSemanticData { keys } => assert_eq!(keys, vec!["a", "b"]),
        other => panic!("{:?}", other),
    }
}

#[test]
fn numbers_of_elements_are_cut_to_32_bits() {
    match request("click_by_id", r#"{"id": 4294967303}"#).unwrap() {
        BrowserCmd::ClickById { id } => assert_eq!(id, 7),
        other => panic!("{:?}", other),
    }
}

#[test]
fn text_parameters_are_taken_over() {
    match request("restore_session_state", r#"{"state": "{}"}"#).unwrap() {
        BrowserCmd::RestoreSessionState { state } => assert_eq!(state, "{}"),
        other => panic!("{:?}", other),
    }
    match request("intercept_api_response", r#"{"url_pattern": "/api"}"#).unwrap() {
        BrowserCmd::InterceptApiResponse { url_pattern } => assert_eq!(url_pattern, "/api"),
        other => panic!("{:?}", other),
    }
    match request("get_element_diff", r#"{"selector": "li"}"#).unwrap() {
        BrowserCmd::GetElementDiff { selector } => assert_eq!(selector, "li"),
        other => panic!("{:?}", other),
    }
}

fn told(answer: DriverAnswer) -> Result<Json, String> {
    match dispatched(answer) {
        Ok(output) => Ok(output.value),
        Err(EngineError::ToolError(message)) => Err(message),
    }
}

#[test]
fn the_engine_is_told_what_came_of_a_command() {
    assert_eq!(
        told(DriverAnswer::Finished(Ok("done".to_string()))),
        Ok(Json::Str("done".to_string()))
    );
    assert_eq!(
        told(DriverAnswer::Finished(Err("bad".to_string()))),
        Err("bad".to_string())
    );
    assert_eq!(
        told(DriverAnswer::Disconnected),
        Err("browser driver disconnected".to_string())
    );
    assert_eq!(
        told(DriverAnswer::Silent),
        Err("browser driver did not respond".to_string())
    );
}

#[test]
fn only_the_command_to_stop_begins_nothing() {
    assert!(BrowserCmd::Stop.begin().is_none());
    assert!(BrowserCmd::PageText.begin().is_some());
}

#[test]
fn a_complete_request_is_accepted_by_every_method() {
    for method in [
        "browse_url",
        "read_page_text",
        "click_element",
        "fill_form_field",
        "inspect_form",
        "fill_form_smart",
        "get_page_structure",
        "extract_semantic_data",
        "wait_for_network_idle",
        "get_interactive_elements",
        "click_by_id",
        "check_blockers",
        "get_element_diff",
        "extract_table_to_json",
        "save_session_state",
        "restore_session_state",
        "intercept_api_response",
        "get_intercepted_responses",
    ] {
        let mut input = ToolInput::new(method);
        input.params = parse_json(
            r#"{"data":{},"keys":[],"id":1,"selector":"a","state":"{}","url_pattern":"/"}"#,
        )
        .unwrap();
        for name in ["url", "selector", "value"] {
            input.lookups.push((name.to_string(), Ok("x".to_string())));
        }
        let cmd = BrowserCdpTool::new_for_test().handle(input).unwrap();
        assert!(cmd.begin().is_some(), "{}", method);
    }
}
