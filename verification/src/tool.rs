//! The tool as the engine sees it: which methods it has, what they need, and
//! how their outcome is passed back.

use vstd::prelude::*;

use crate::cdp::{CdpConfig, CdpMode};
use crate::command::{operation, BrowserCmd, BrowserCmdView};
use crate::json::{item_views, lemma_array_view, Json, JsonView};
use crate::text::{outcome_text, same_text, texts};

verus! {

/// An error that the tool passes to the engine.
#[derive(Debug)]
pub enum EngineError {
    ToolError(String),
}

impl View for EngineError {
    type V = Seq<char>;

    open spec fn view(&self) -> Seq<char> {
        match self {
            EngineError::ToolError(message) => message@,
        }
    }
}

impl EngineError {
    /// The text of the error.
    pub fn message(&self) -> (text: &str)
        ensures
            text@ == self@,
    {
        match self {
            EngineError::ToolError(message) => message.as_str(),
        }
    }
}

/// A request of the engine.
#[derive(Debug)]
pub struct ToolInput {
    pub method: String,
    /// The parameters, an object.
    pub params: Json,
    /// What the engine answered when it was asked for parameters as text.
    pub lookups: Vec<(String, Result<String, String>)>,
}

/// The content of a `ToolInput`.
pub struct ToolInputView {
    pub method: Seq<char>,
    pub params: JsonView,
    pub lookups: Seq<(Seq<char>, Result<Seq<char>, Seq<char>>)>,
}

impl View for ToolInput {
    type V = ToolInputView;

    open spec fn view(&self) -> ToolInputView {
        ToolInputView {
            method: self.method@,
            params: self.params@,
            lookups: self.lookups@.map_values(
                |lookup: (String, Result<String, String>)| (lookup.0@, outcome_text(lookup.1)),
            ),
        }
    }
}

impl ToolInput {
    /// A request without parameters.
    pub fn new(method: &str) -> (input: ToolInput)
        ensures
            input@.method == method@,
            input@.params == JsonView::Object(seq![]),
            input@.params.wf(),
            input@.lookups == Seq::<(Seq<char>, Result<Seq<char>, Seq<char>>)>::empty(),
    {
        let input = ToolInput {
            method: method.to_owned(),
            params: crate::json::empty_object(),
            lookups: Vec::new(),
        };
        assert(input@.lookups == Seq::<(Seq<char>, Result<Seq<char>, Seq<char>>)>::empty());
        input
    }
}

/// What the tool passes back to the engine.
#[derive(Debug)]
pub struct ToolOutput {
    pub value: Json,
}

/// The complaint about a parameter that is not there.
pub open spec fn missing(name: Seq<char>) -> Seq<char> {
    "Missing parameter: "@ + name
}

/// The first answer to the question for a parameter; the parameter is missing
/// where the question was not asked.
pub open spec fn looked_up(
    lookups: Seq<(Seq<char>, Result<Seq<char>, Seq<char>>)>,
    name: Seq<char>,
) -> Result<Seq<char>, Seq<char>>
    decreases lookups.len(),
{
    if lookups.len() == 0 {
        Err(missing(name))
    } else if lookups[0].0 == name {
        lookups[0].1
    } else {
        looked_up(lookups.skip(1), name)
    }
}

/// The strings in a list; whatever else is in it is left out.
pub open spec fn strings_in(items: Seq<JsonView>) -> Seq<Seq<char>>
    decreases items.len(),
{
    if items.len() == 0 {
        seq![]
    } else {
        let rest = strings_in(items.drop_last());
        match items.last().as_str() {
            Some(text) => rest.push(text),
            None => rest,
        }
    }
}

/// A parameter as text, as the method asks for it without the engine's help.
pub open spec fn text_param(params: JsonView, name: Seq<char>) -> Result<Seq<char>, Seq<char>> {
    match params.get_str(name) {
        Some(text) => Ok(text),
        None => Err(missing(name)),
    }
}

/// The command to open an address.
pub open spec fn navigate_command(input: ToolInputView) -> Result<BrowserCmdView, Seq<char>> {
    match looked_up(input.lookups, "url"@) {
        Ok(url) => Ok(BrowserCmdView::Navigate { url }),
        Err(message) => Err(message),
    }
}

/// The command to click an element.
pub open spec fn click_command(input: ToolInputView) -> Result<BrowserCmdView, Seq<char>> {
    match looked_up(input.lookups, "selector"@) {
        Ok(selector) => Ok(BrowserCmdView::Click { selector }),
        Err(message) => Err(message),
    }
}

/// The command to fill a field.
pub open spec fn fill_command(input: ToolInputView) -> Result<BrowserCmdView, Seq<char>> {
    match looked_up(input.lookups, "selector"@) {
        Ok(selector) => match looked_up(input.lookups, "value"@) {
            Ok(value) => Ok(BrowserCmdView::Fill { selector, value }),
            Err(message) => Err(message),
        },
        Err(message) => Err(message),
    }
}

/// The command to fill a form; it is submitted only where that is asked for.
pub open spec fn fill_form_command(params: JsonView) -> Result<BrowserCmdView, Seq<char>> {
    match params.get("data"@) {
        Some(data) => {
            let submit = match params.get("submit"@) {
                Some(submit) => submit == JsonView::Bool(true),
                None => false,
            };
            Ok(BrowserCmdView::FillFormSmart { data, submit })
        },
        None => Err(missing("data"@)),
    }
}

/// The command to look for data.
pub open spec fn semantic_data_command(params: JsonView) -> Result<BrowserCmdView, Seq<char>> {
    match params.get("keys"@) {
        Some(JsonView::Array(keys)) => Ok(
            BrowserCmdView::ExtractSemanticData { keys: strings_in(keys) },
        ),
        Some(_) => Err("keys must be an array"@),
        None => Err(missing("keys"@)),
    }
}

/// A parameter that is an integer from zero up.
pub open spec fn number_param(params: JsonView, name: Seq<char>) -> Option<u64> {
    match params.get(name) {
        Some(value) => value.as_u64(),
        None => None,
    }
}

/// The command to wait for a silent network, for ten seconds where no time is
/// given.
pub open spec fn wait_command(params: JsonView) -> BrowserCmdView {
    BrowserCmdView::WaitForNetworkIdle {
        timeout_ms: match number_param(params, "timeout_ms"@) {
            Some(timeout_ms) => timeout_ms,
            None => 10000,
        },
    }
}

/// The command to click an element by its number. Of a larger number the
/// lowest 32 bits count.
pub open spec fn click_by_id_command(params: JsonView) -> Result<BrowserCmdView, Seq<char>> {
    match number_param(params, "id"@) {
        Some(id) => Ok(BrowserCmdView::ClickById { id: (id % 0x1_0000_0000) as u32 }),
        None => Err(missing("id"@)),
    }
}

/// The command to compare elements.
pub open spec fn diff_command(params: JsonView) -> Result<BrowserCmdView, Seq<char>> {
    match text_param(params, "selector"@) {
        Ok(selector) => Ok(BrowserCmdView::GetElementDiff { selector }),
        Err(message) => Err(message),
    }
}

/// The command to restore a state.
pub open spec fn restore_command(params: JsonView) -> Result<BrowserCmdView, Seq<char>> {
    match text_param(params, "state"@) {
        Ok(state) => Ok(BrowserCmdView::RestoreSessionState { state }),
        Err(message) => Err(message),
    }
}

/// The command to intercept responses.
pub open spec fn intercept_command(params: JsonView) -> Result<BrowserCmdView, Seq<char>> {
    match text_param(params, "url_pattern"@) {
        Ok(url_pattern) => Ok(BrowserCmdView::InterceptApiResponse { url_pattern }),
        Err(message) => Err(message),
    }
}

/// The command that a request asks for, or the complaint about the request.
pub open spec fn requested(input: ToolInputView) -> Result<BrowserCmdView, Seq<char>> {
    let method = input.method;
    let params = input.params;
    if method == "browse_url"@ {
        navigate_command(input)
    } else if method == "read_page_text"@ {
        Ok(BrowserCmdView::PageText)
    } else if method == "click_element"@ {
        click_command(input)
    } else if method == "fill_form_field"@ {
        fill_command(input)
    } else if method == "inspect_form"@ {
        Ok(BrowserCmdView::InspectForm)
    } else if method == "fill_form_smart"@ {
        fill_form_command(params)
    } else if method == "get_page_structure"@ {
        Ok(BrowserCmdView::GetPageStructure)
    } else if method == "extract_semantic_data"@ {
        semantic_data_command(params)
    } else if method == "wait_for_network_idle"@ {
        Ok(wait_command(params))
    } else if method == "get_interactive_elements"@ {
        Ok(BrowserCmdView::GetInteractiveElements)
    } else if method == "click_by_id"@ {
        click_by_id_command(params)
    } else if method == "check_blockers"@ {
        Ok(BrowserCmdView::CheckBlockers)
    } else if method == "get_element_diff"@ {
        diff_command(params)
    } else if method == "extract_table_to_json"@ {
        Ok(BrowserCmdView::ExtractTableToJson { selector: params.get_str("selector"@) })
    } else if method == "save_session_state"@ {
        Ok(BrowserCmdView::SaveSessionState)
    } else if method == "restore_session_state"@ {
        restore_command(params)
    } else if method == "intercept_api_response"@ {
        intercept_command(params)
    } else if method == "get_intercepted_responses"@ {
        Ok(BrowserCmdView::GetInterceptedResponses)
    } else {
        Err("browser-cdp: unknown method '"@ + method + "'"@)
    }
}

/// The view of a command or of the error that stands in its place.
pub open spec fn command_outcome(outcome: Result<BrowserCmd, EngineError>) -> Result<
    BrowserCmdView,
    Seq<char>,
> {
    match outcome {
        Ok(cmd) => Ok(cmd@),
        Err(error) => Err(error@),
    }
}

/// A complaint about a missing parameter.
fn complain_of(name: &str) -> (error: EngineError)
    ensures
        error@ == missing(name@),
{
    EngineError::ToolError("Missing parameter: ".to_owned().concat(name))
}

/// The first answer to the question for a parameter.
fn look_up(input: &ToolInput, name: &str) -> (answer: Result<String, EngineError>)
    ensures
        match answer {
            Ok(text) => looked_up(input@.lookups, name@) == Ok::<Seq<char>, Seq<char>>(text@),
            Err(error) => looked_up(input@.lookups, name@) == Err::<Seq<char>, Seq<char>>(error@),
        },
{
    let ghost all = input@.lookups;
    let mut i: usize = 0;
    assert(all.skip(0) == all);
    while i < input.lookups.len()
        invariant
            i <= input.lookups@.len(),
            all == input@.lookups,
            looked_up(all, name@) == looked_up(all.skip(i as int), name@),
        decreases input.lookups@.len() - i,
    {
        proof {
            assert(all.skip(i as int)[0] == (
                input.lookups@[i as int].0@,
                outcome_text(input.lookups@[i as int].1),
            ));
            assert(all.skip(i as int).skip(1) == all.skip(i + 1));
        }
        if same_text(input.lookups[i].0.as_str(), name) {
            return match &input.lookups[i].1 {
                Ok(text) => Ok(text.clone()),
                Err(message) => Err(EngineError::ToolError(message.clone())),
            };
        }
        i += 1;
    }
    Err(complain_of(name))
}

/// A parameter as text.
fn read_text_param(params: &Json, name: &str) -> (text: Result<String, EngineError>)
    ensures
        match text {
            Ok(text) => text_param(params@, name@) == Ok::<Seq<char>, Seq<char>>(text@),
            Err(error) => text_param(params@, name@) == Err::<Seq<char>, Seq<char>>(error@),
        },
{
    match params.get_str(name) {
        Some(text) => Ok(text.to_owned()),
        None => Err(complain_of(name)),
    }
}

/// A parameter that is an integer from zero up.
fn read_number_param(params: &Json, name: &str) -> (value: Option<u64>)
    ensures
        value == number_param(params@, name@),
{
    match params.get(name) {
        Some(value) => value.as_u64(),
        None => None,
    }
}

/// The strings in a list.
fn read_strings(list: &Vec<Json>) -> (strings: Vec<String>)
    ensures
        texts(strings@) == strings_in(item_views(list@)),
{
    let ghost trees = item_views(list@);
    let mut strings: Vec<String> = Vec::new();
    let mut i: usize = 0;
    assert(texts(strings@) == strings_in(trees.take(0)));
    while i < list.len()
        invariant
            i <= list@.len(),
            trees == item_views(list@),
            texts(strings@) == strings_in(trees.take(i as int)),
        decreases list@.len() - i,
    {
        proof {
            assert(trees.take(i + 1).drop_last() == trees.take(i as int));
            assert(trees.take(i + 1).last() == list@[i as int]@);
        }
        if let Some(text) = list[i].as_str() {
            let ghost before = strings@;
            strings.push(text.to_owned());
            assert(texts(strings@) == texts(before).push(text@));
        }
        i += 1;
    }
    assert(trees.take(trees.len() as int) == trees);
    strings
}

/// The Chrome DevTools tool.
#[derive(Debug)]
pub struct BrowserCdpTool {
    pub config: CdpConfig,
}

impl BrowserCdpTool {
    /// A tool that manages a browser of its own.
    fn new() -> (tool: BrowserCdpTool)
        ensures
            tool.config.mode is ManagedLocal,
            tool.config.cdp_url is None,
            tool.config.browser is None,
            tool.config.user_data_dir is None,
            tool.config.startup_url is None,
    {
        BrowserCdpTool::new_with_config(
            CdpConfig {
                mode: CdpMode::ManagedLocal,
                cdp_url: None,
                browser: None,
                user_data_dir: None,
                startup_url: None,
            },
        )
    }

    /// A tool that manages a browser of its own, for tests.
    pub fn new_for_test() -> (tool: BrowserCdpTool)
        ensures
            tool.config.mode is ManagedLocal,
            tool.config.cdp_url is None,
            tool.config.browser is None,
            tool.config.user_data_dir is None,
            tool.config.startup_url is None,
    {
        BrowserCdpTool::new()
    }

    /// A tool with an explicit configuration.
    pub fn new_with_config(config: CdpConfig) -> (tool: BrowserCdpTool)
        ensures
            tool.config == config,
    {
        BrowserCdpTool { config }
    }

    /// The name of the tool.
    pub fn name(&self) -> (name: &'static str)
        ensures
            name@ == "browser-cdp"@,
    {
        "browser-cdp"
    }

    /// The command that a request asks for, or the complaint about the request.
    pub fn handle(&self, input: ToolInput) -> (outcome: Result<BrowserCmd, EngineError>)
        requires
            input@.params.wf(),
        ensures
            command_outcome(outcome) == requested(input@),
            outcome is Ok ==> outcome->Ok_0@.wf(),
    {
        let method = input.method.as_str();
        if same_text(method, "browse_url") {
            match look_up(&input, "url") {
                Ok(url) => Ok(BrowserCmd::Navigate { url }),
                Err(error) => Err(error),
            }
        } else if same_text(method, "read_page_text") {
            Ok(BrowserCmd::PageText)
        } else if same_text(method, "click_element") {
            match look_up(&input, "selector") {
                Ok(selector) => Ok(BrowserCmd::Click { selector }),
                Err(error) => Err(error),
            }
        } else if same_text(method, "fill_form_field") {
            match look_up(&input, "selector") {
                Ok(selector) => match look_up(&input, "value") {
                    Ok(value) => Ok(BrowserCmd::Fill { selector, value }),
                    Err(error) => Err(error),
                },
                Err(error) => Err(error),
            }
        } else if same_text(method, "inspect_form") {
            Ok(BrowserCmd::InspectForm)
        } else if same_text(method, "fill_form_smart") {
            fill_form_request(input.params)
        } else if same_text(method, "get_page_structure") {
            Ok(BrowserCmd::GetPageStructure)
        } else if same_text(method, "extract_semantic_data") {
            semantic_data_request(&input.params)
        } else if same_text(method, "wait_for_network_idle") {
            let timeout_ms: u64 = match read_number_param(&input.params, "timeout_ms") {
                Some(timeout_ms) => timeout_ms,
                None => 10000,
            };
            Ok(BrowserCmd::WaitForNetworkIdle { timeout_ms })
        } else if same_text(method, "get_interactive_elements") {
            Ok(BrowserCmd::GetInteractiveElements)
        } else if same_text(method, "click_by_id") {
            match read_number_param(&input.params, "id") {
                Some(id) => Ok(BrowserCmd::ClickById { id: (id % 0x1_0000_0000) as u32 }),
                None => Err(complain_of("id")),
            }
        } else if same_text(method, "check_blockers") {
            Ok(BrowserCmd::CheckBlockers)
        } else if same_text(method, "get_element_diff") {
            match read_text_param(&input.params, "selector") {
                Ok(selector) => Ok(BrowserCmd::GetElementDiff { selector }),
                Err(error) => Err(error),
            }
        } else if same_text(method, "extract_table_to_json") {
            let selector = match input.params.get_str("selector") {
                Some(selector) => Some(selector.to_owned()),
                None => None,
            };
            Ok(BrowserCmd::ExtractTableToJson { selector })
        } else if same_text(method, "save_session_state") {
            Ok(BrowserCmd::SaveSessionState)
        } else if same_text(method, "restore_session_state") {
            match read_text_param(&input.params, "state") {
                Ok(state) => Ok(BrowserCmd::RestoreSessionState { state }),
                Err(error) => Err(error),
            }
        } else if same_text(method, "intercept_api_response") {
            match read_text_param(&input.params, "url_pattern") {
                Ok(url_pattern) => Ok(BrowserCmd::InterceptApiResponse { url_pattern }),
                Err(error) => Err(error),
            }
        } else if same_text(method, "get_intercepted_responses") {
            Ok(BrowserCmd::GetInterceptedResponses)
        } else {
            Err(
                EngineError::ToolError(
                    "browser-cdp: unknown method '".to_owned().concat(method).concat("'"),
                ),
            )
        }
    }
}

/// The command to fill a form.
fn fill_form_request(params: Json) -> (outcome: Result<BrowserCmd, EngineError>)
    requires
        params@.wf(),
    ensures
        command_outcome(outcome) == fill_form_command(params@),
        outcome is Ok ==> outcome->Ok_0@.wf(),
{
    let submit = match params.get("submit") {
        Some(value) => match value.as_bool() {
            Some(submit) => submit,
            None => false,
        },
        None => false,
    };
    match params.into_member("data") {
        Some(data) => Ok(BrowserCmd::FillFormSmart { data, submit }),
        None => Err(complain_of("data")),
    }
}

/// The command to look for data.
fn semantic_data_request(params: &Json) -> (outcome: Result<BrowserCmd, EngineError>)
    ensures
        command_outcome(outcome) == semantic_data_command(params@),
        outcome is Ok ==> outcome->Ok_0@.wf(),
{
    match params.get("keys") {
        Some(Json::Array(list)) => {
            proof {
                lemma_array_view(*list);
            }
            Ok(BrowserCmd::ExtractSemanticData { keys: read_strings(list) })
        },
        Some(_) => Err(EngineError::ToolError("keys must be an array".to_owned())),
        None => Err(complain_of("keys")),
    }
}

/// What came of a command that was sent to the driver.
#[derive(Debug)]
pub enum DriverAnswer {
    /// The driver took no command.
    Disconnected,
    /// The driver took the command and said nothing of it.
    Silent,
    /// The outcome of the operation.
    Finished(Result<String, String>),
}

/// What the engine is told of a command: the text as a JSON string, or the
/// error.
pub open spec fn told(answer: DriverAnswer) -> Result<JsonView, Seq<char>> {
    match answer {
        DriverAnswer::Disconnected => Err("browser driver disconnected"@),
        DriverAnswer::Silent => Err("browser driver did not respond"@),
        DriverAnswer::Finished(Ok(text)) => Ok(JsonView::Str(text@)),
        DriverAnswer::Finished(Err(message)) => Err(message@),
    }
}

/// What the engine is told of a command.
pub fn dispatched(answer: DriverAnswer) -> (outcome: Result<ToolOutput, EngineError>)
    ensures
        match outcome {
            Ok(output) => told(answer) == Ok::<JsonView, Seq<char>>(output.value@)
                && output.value@.wf(),
            Err(error) => told(answer) == Err::<JsonView, Seq<char>>(error@),
        },
{
    match answer {
        DriverAnswer::Disconnected => Err(
            EngineError::ToolError("browser driver disconnected".to_owned()),
        ),
        DriverAnswer::Silent => Err(
            EngineError::ToolError("browser driver did not respond".to_owned()),
        ),
        DriverAnswer::Finished(Ok(text)) => Ok(ToolOutput { value: Json::Str(text) }),
        DriverAnswer::Finished(Err(message)) => Err(EngineError::ToolError(message)),
    }
}

/// The methods of the tool.
pub open spec fn methods() -> Seq<Seq<char>> {
    seq![
        "browse_url"@,
        "read_page_text"@,
        "click_element"@,
        "fill_form_field"@,
        "inspect_form"@,
        "fill_form_smart"@,
        "get_page_structure"@,
        "extract_semantic_data"@,
        "wait_for_network_idle"@,
        "get_interactive_elements"@,
        "click_by_id"@,
        "check_blockers"@,
        "get_element_diff"@,
        "extract_table_to_json"@,
        "save_session_state"@,
        "restore_session_state"@,
        "intercept_api_response"@,
        "get_intercepted_responses"@,
    ]
}

/// A request with a method that the tool does not have is refused by the name
/// of the method, whatever its parameters are, and no other request begins an
/// operation.
pub proof fn law_unknown_methods_are_refused(input: ToolInputView)
    ensures
        !methods().contains(input.method) ==> requested(input) == Err::<
            BrowserCmdView,
            Seq<char>,
        >("browser-cdp: unknown method '"@ + input.method + "'"@),
        requested(input) is Ok ==> methods().contains(input.method),
{
    let all = methods();
    assert(all[0] == "browse_url"@);
    assert(all[1] == "read_page_text"@);
    assert(all[2] == "click_element"@);
    assert(all[3] == "fill_form_field"@);
    assert(all[4] == "inspect_form"@);
    assert(all[5] == "fill_form_smart"@);
    assert(all[6] == "get_page_structure"@);
    assert(all[7] == "extract_semantic_data"@);
    assert(all[8] == "wait_for_network_idle"@);
    assert(all[9] == "get_interactive_elements"@);
    assert(all[10] == "click_by_id"@);
    assert(all[11] == "check_blockers"@);
    assert(all[12] == "get_element_diff"@);
    assert(all[13] == "extract_table_to_json"@);
    assert(all[14] == "save_session_state"@);
    assert(all[15] == "restore_session_state"@);
    assert(all[16] == "intercept_api_response"@);
    assert(all[17] == "get_intercepted_responses"@);
}

/// A request with one of the tool's methods is accepted when every parameter
/// that a method can ask for is there.
pub proof fn law_complete_requests_are_accepted(input: ToolInputView)
    requires
        methods().contains(input.method),
        looked_up(input.lookups, "url"@) is Ok,
        looked_up(input.lookups, "selector"@) is Ok,
        looked_up(input.lookups, "value"@) is Ok,
        input.params.get("data"@) is Some,
        input.params.get("keys"@) matches Some(JsonView::Array(_)),
        number_param(input.params, "id"@) is Some,
        text_param(input.params, "selector"@) is Ok,
        text_param(input.params, "state"@) is Ok,
        text_param(input.params, "url_pattern"@) is Ok,
    ensures
        requested(input) is Ok,
{
    let at = choose|at: int| 0 <= at < methods().len() && methods()[at] == input.method;
    let all = methods();
    assert(all[at] == "browse_url"@
        || all[at] == "read_page_text"@
        || all[at] == "click_element"@
        || all[at] == "fill_form_field"@
        || all[at] == "inspect_form"@
        || all[at] == "fill_form_smart"@
        || all[at] == "get_page_structure"@
        || all[at] == "extract_semantic_data"@
        || all[at] == "wait_for_network_idle"@
        || all[at] == "get_interactive_elements"@
        || all[at] == "click_by_id"@
        || all[at] == "check_blockers"@
        || all[at] == "get_element_diff"@
        || all[at] == "extract_table_to_json"@
        || all[at] == "save_session_state"@
        || all[at] == "restore_session_state"@
        || all[at] == "intercept_api_response"@
        || all[at] == "get_intercepted_responses"@);
}

/// A request never stops the driver: every command that a request asks for
/// begins an operation.
pub proof fn law_requests_begin_operations(input: ToolInputView)
    ensures
        requested(input) matches Ok(cmd) ==> operation(cmd) is Some,
{
}

/// The first answer to a question for a parameter is the one that counts; a
/// parameter that was not asked for is missing by its name.
pub proof fn law_first_answer_counts(
    lookups: Seq<(Seq<char>, Result<Seq<char>, Seq<char>>)>,
    name: Seq<char>,
    at: int,
)
    ensures
        0 <= at < lookups.len() && lookups[at].0 == name && (forall|i: int|
            0 <= i < at ==> (#[trigger] lookups[i]).0 != name) ==> looked_up(lookups, name)
            == lookups[at].1,
        (forall|i: int| 0 <= i < lookups.len() ==> (#[trigger] lookups[i]).0 != name) ==> looked_up(
            lookups,
            name,
        ) == Err::<Seq<char>, Seq<char>>("Missing parameter: "@ + name),
    decreases lookups.len(),
{
    if lookups.len() > 0 && lookups[0].0 != name {
        let rest = lookups.skip(1);
        law_first_answer_counts(rest, name, at - 1);
        if forall|i: int| 0 <= i < lookups.len() ==> (#[trigger] lookups[i]).0 != name {
            assert forall|i: int| 0 <= i < rest.len() implies (#[trigger] rest[i]).0 != name by {
                assert(lookups[i + 1].0 != name);
            }
        }
        if 0 <= at < lookups.len() && lookups[at].0 == name && (forall|i: int|
            0 <= i < at ==> (#[trigger] lookups[i]).0 != name) {
            assert(rest[at - 1] == lookups[at]);
            assert forall|i: int| 0 <= i < at - 1 implies (#[trigger] rest[i]).0 != name by {
                assert(lookups[i + 1].0 != name);
            }
        }
    }
}

/// The strings of a list are taken over one by one, each as it is and in its
/// place; everything else in the list is left out.
pub proof fn law_strings_are_taken_over(
    front: Seq<JsonView>,
    back: Seq<JsonView>,
    text: Seq<char>,
    other: JsonView,
)
    ensures
        strings_in(front + back) == strings_in(front) + strings_in(back),
        strings_in(seq![JsonView::Str(text)]) == seq![text],
        !(other is Str) ==> strings_in(seq![other]) == Seq::<Seq<char>>::empty(),
        strings_in(Seq::empty()) == Seq::<Seq<char>>::empty(),
    decreases back.len(),
{
    reveal_with_fuel(strings_in, 2);
    assert(seq![JsonView::Str(text)].drop_last() == Seq::<JsonView>::empty());
    assert(seq![other].drop_last() == Seq::<JsonView>::empty());
    assert(strings_in(seq![JsonView::Str(text)]) == seq![text]);
    if back.len() == 0 {
        assert(front + back == front);
        assert(strings_in(front) + strings_in(back) == strings_in(front));
    } else {
        law_strings_are_taken_over(front, back.drop_last(), text, other);
        assert((front + back).drop_last() == front + back.drop_last());
        assert((front + back).last() == back.last());
        assert(strings_in(front + back) == strings_in(front) + strings_in(back));
    }
}

/// The names of the methods can be told apart by their length and two of their
/// characters.
proof fn lemma_method_names()
    ensures
        "browse_url"@.len() == 10 && "browse_url"@[0] == 'b' && "browse_url"@.last() == 'l',
        "read_page_text"@.len() == 14 && "read_page_text"@[0] == 'r' && "read_page_text"@.last() == 't',
        "click_element"@.len() == 13 && "click_element"@[0] == 'c' && "click_element"@.last() == 't',
        "fill_form_field"@.len() == 15 && "fill_form_field"@[0] == 'f' && "fill_form_field"@.last() == 'd',
        "inspect_form"@.len() == 12 && "inspect_form"@[0] == 'i' && "inspect_form"@.last() == 'm',
        "fill_form_smart"@.len() == 15 && "fill_form_smart"@[0] == 'f' && "fill_form_smart"@.last() == 't',
        "get_page_structure"@.len() == 18 && "get_page_structure"@[0] == 'g' && "get_page_structure"@.last() == 'e',
        "extract_semantic_data"@.len() == 21 && "extract_semantic_data"@[0] == 'e' && "extract_semantic_data"@.last() == 'a',
        "wait_for_network_idle"@.len() == 21 && "wait_for_network_idle"@[0] == 'w' && "wait_for_network_idle"@.last() == 'e',
        "get_interactive_elements"@.len() == 24 && "get_interactive_elements"@[0] == 'g' && "get_interactive_elements"@.last() == 's',
        "click_by_id"@.len() == 11 && "click_by_id"@[0] == 'c' && "click_by_id"@.last() == 'd',
        "check_blockers"@.len() == 14 && "check_blockers"@[0] == 'c' && "check_blockers"@.last() == 's',
        "get_element_diff"@.len() == 16 && "get_element_diff"@[0] == 'g' && "get_element_diff"@.last() == 'f',
        "extract_table_to_json"@.len() == 21 && "extract_table_to_json"@[0] == 'e' && "extract_table_to_json"@.last() == 'n',
        "save_session_state"@.len() == 18 && "save_session_state"@[0] == 's' && "save_session_state"@.last() == 'e',
        "restore_session_state"@.len() == 21 && "restore_session_state"@[0] == 'r' && "restore_session_state"@.last() == 'e',
        "intercept_api_response"@.len() == 22 && "intercept_api_response"@[0] == 'i' && "intercept_api_response"@.last() == 'e',
        "get_intercepted_responses"@.len() == 25 && "get_intercepted_responses"@[0] == 'g' && "get_intercepted_responses"@.last() == 's',
{
    reveal_strlit("browse_url");
    reveal_strlit("read_page_text");
    reveal_strlit("click_element");
    reveal_strlit("fill_form_field");
    reveal_strlit("inspect_form");
    reveal_strlit("fill_form_smart");
    reveal_strlit("get_page_structure");
    reveal_strlit("extract_semantic_data");
    reveal_strlit("wait_for_network_idle");
    reveal_strlit("get_interactive_elements");
    reveal_strlit("click_by_id");
    reveal_strlit("check_blockers");
    reveal_strlit("get_element_diff");
    reveal_strlit("extract_table_to_json");
    reveal_strlit("save_session_state");
    reveal_strlit("restore_session_state");
    reveal_strlit("intercept_api_response");
    reveal_strlit("get_intercepted_responses");
}

/// The requests whose parameters the engine looks up become commands with
/// exactly those parameters; where one is missing, the engine's complaint is
/// passed on.
pub proof fn law_looked_up_parameters_are_used(
    input: ToolInputView,
    a: Seq<char>,
    b: Seq<char>,
)
    ensures
        ({
            let url = looked_up(input.lookups, "url"@);
            let selector = looked_up(input.lookups, "selector"@);
            let value = looked_up(input.lookups, "value"@);
            &&& input.method == "browse_url"@ && url == Ok::<Seq<char>, Seq<char>>(a) ==> requested(
                input,
            ) == Ok::<BrowserCmdView, Seq<char>>(BrowserCmdView::Navigate { url: a })
            &&& input.method == "browse_url"@ && url == Err::<Seq<char>, Seq<char>>(a)
                ==> requested(input) == Err::<BrowserCmdView, Seq<char>>(a)
            &&& input.method == "click_element"@ && selector == Ok::<Seq<char>, Seq<char>>(a)
                ==> requested(input) == Ok::<BrowserCmdView, Seq<char>>(
                BrowserCmdView::Click { selector: a },
            )
            &&& input.method == "click_element"@ && selector == Err::<Seq<char>, Seq<char>>(a)
                ==> requested(input) == Err::<BrowserCmdView, Seq<char>>(a)
            &&& input.method == "fill_form_field"@ && selector == Ok::<Seq<char>, Seq<char>>(a)
                && value == Ok::<Seq<char>, Seq<char>>(b) ==> requested(input) == Ok::<
                BrowserCmdView,
                Seq<char>,
            >(BrowserCmdView::Fill { selector: a, value: b })
            &&& input.method == "fill_form_field"@ && selector == Err::<Seq<char>, Seq<char>>(a)
                ==> requested(input) == Err::<BrowserCmdView, Seq<char>>(a)
            &&& input.method == "fill_form_field"@ && selector is Ok && value == Err::<
                Seq<char>,
                Seq<char>,
            >(a) ==> requested(input) == Err::<BrowserCmdView, Seq<char>>(a)
        }),
{
    lemma_method_names();
}

/// The requests without parameters become their commands, whatever else they
/// carry.
pub proof fn law_plain_requests_become_their_commands(input: ToolInputView)
    ensures
        input.method == "read_page_text"@ ==> requested(input) == Ok::<BrowserCmdView, Seq<char>>(
            BrowserCmdView::PageText,
        ),
        input.method == "inspect_form"@ ==> requested(input) == Ok::<BrowserCmdView, Seq<char>>(
            BrowserCmdView::InspectForm,
        ),
        input.method == "get_page_structure"@ ==> requested(input) == Ok::<
            BrowserCmdView,
            Seq<char>,
        >(BrowserCmdView::GetPageStructure),
        input.method == "get_interactive_elements"@ ==> requested(input) == Ok::<
            BrowserCmdView,
            Seq<char>,
        >(BrowserCmdView::GetInteractiveElements),
        input.method == "check_blockers"@ ==> requested(input) == Ok::<BrowserCmdView, Seq<char>>(
            BrowserCmdView::CheckBlockers,
        ),
        input.method == "save_session_state"@ ==> requested(input) == Ok::<
            BrowserCmdView,
            Seq<char>,
        >(BrowserCmdView::SaveSessionState),
        input.method == "get_intercepted_responses"@ ==> requested(input) == Ok::<
            BrowserCmdView,
            Seq<char>,
        >(BrowserCmdView::GetInterceptedResponses),
{
    lemma_method_names();
}

/// The requests with a text parameter become commands with exactly that text,
/// and complain by its name where there is none.
pub proof fn law_text_parameters_are_used(input: ToolInputView, text: Seq<char>)
    ensures
        ({
            let params = input.params;
            &&& input.method == "get_element_diff"@ && params.get("selector"@) == Some(
                JsonView::Str(text),
            ) ==> requested(input) == Ok::<BrowserCmdView, Seq<char>>(
                BrowserCmdView::GetElementDiff { selector: text },
            )
            &&& input.method == "get_element_diff"@ && !(params.get("selector"@) matches Some(
                JsonView::Str(_),
            )) ==> requested(input) == Err::<BrowserCmdView, Seq<char>>(
                "Missing parameter: "@ + "selector"@,
            )
            &&& input.method == "extract_table_to_json"@ && params.get("selector"@) == Some(
                JsonView::Str(text),
            ) ==> requested(input) == Ok::<BrowserCmdView, Seq<char>>(
                BrowserCmdView::ExtractTableToJson { selector: Some(text) },
            )
            &&& input.method == "extract_table_to_json"@ && !(params.get("selector"@) matches Some(
                JsonView::Str(_),
            )) ==> requested(input) == Ok::<BrowserCmdView, Seq<char>>(
                BrowserCmdView::ExtractTableToJson { selector: None },
            )
            &&& input.method == "restore_session_state"@ && params.get("state"@) == Some(
                JsonView::Str(text),
            ) ==> requested(input) == Ok::<BrowserCmdView, Seq<char>>(
                BrowserCmdView::RestoreSessionState { state: text },
            )
            &&& input.method == "restore_session_state"@ && !(params.get("state"@) matches Some(
                JsonView::Str(_),
            )) ==> requested(input) == Err::<BrowserCmdView, Seq<char>>(
                "Missing parameter: "@ + "state"@,
            )
            &&& input.method == "intercept_api_response"@ && params.get("url_pattern"@) == Some(
                JsonView::Str(text),
            ) ==> requested(input) == Ok::<BrowserCmdView, Seq<char>>(
                BrowserCmdView::InterceptApiResponse { url_pattern: text },
            )
            &&& input.method == "intercept_api_response"@ && !(params.get(
                "url_pattern"@,
            ) matches Some(JsonView::Str(_))) ==> requested(input) == Err::<
                BrowserCmdView,
                Seq<char>,
            >("Missing parameter: "@ + "url_pattern"@)
        }),
{
    lemma_method_names();
}

/// The requests with a number become commands with that number: a wait lasts as
/// long as is asked for, ten seconds where nothing is, and an element is clicked
/// by the lowest thirty-two bits of its number.
pub proof fn law_number_parameters_are_used(input: ToolInputView, n: u64)
    ensures
        ({
            let params = input.params;
            &&& input.method == "wait_for_network_idle"@ && params.get("timeout_ms"@) == Some(
                JsonView::PosInt(n),
            ) ==> requested(input) == Ok::<BrowserCmdView, Seq<char>>(
                BrowserCmdView::WaitForNetworkIdle { timeout_ms: n },
            )
            &&& input.method == "wait_for_network_idle"@ && !(params.get("timeout_ms"@) matches
                Some(JsonView::PosInt(_))) ==> requested(input) == Ok::<BrowserCmdView, Seq<char>>(
                BrowserCmdView::WaitForNetworkIdle { timeout_ms: 10000 },
            )
            &&& input.method == "click_by_id"@ && params.get("id"@) == Some(JsonView::PosInt(n))
                ==> (requested(input) matches Ok(BrowserCmdView::ClickById { id }) && id as int
                == n as int % 4294967296)
            &&& input.method == "click_by_id"@ && !(params.get("id"@) matches Some(
                JsonView::PosInt(_),
            )) ==> requested(input) == Err::<BrowserCmdView, Seq<char>>(
                "Missing parameter: "@ + "id"@,
            )
        }),
{
    lemma_method_names();
}

/// A request to fill a form hands its data over as they are, and asks for a
/// submission only where it says so. A request for data hands over the strings
/// of its list of keys.
pub proof fn law_form_and_key_parameters_are_used(
    input: ToolInputView,
    data: JsonView,
    keys: Seq<JsonView>,
)
    ensures
        ({
            let params = input.params;
            &&& input.method == "fill_form_smart"@ && params.get("data"@) == Some(data)
                ==> requested(input) == Ok::<BrowserCmdView, Seq<char>>(
                BrowserCmdView::FillFormSmart {
                    data,
                    submit: params.get("submit"@) == Some(JsonView::Bool(true)),
                },
            )
            &&& input.method == "fill_form_smart"@ && params.get("data"@) is None ==> requested(
                input,
            ) == Err::<BrowserCmdView, Seq<char>>("Missing parameter: "@ + "data"@)
            &&& input.method == "extract_semantic_data"@ && params.get("keys"@) == Some(
                JsonView::Array(keys),
            ) ==> requested(input) == Ok::<BrowserCmdView, Seq<char>>(
                BrowserCmdView::ExtractSemanticData { keys: strings_in(keys) },
            )
            &&& input.method == "extract_semantic_data"@ && params.get("keys"@) is None
                ==> requested(input) == Err::<BrowserCmdView, Seq<char>>(
                "Missing parameter: "@ + "keys"@,
            )
            &&& input.method == "extract_semantic_data"@ && params.get("keys"@) is Some && !(
            params.get("keys"@)->Some_0 is Array) ==> requested(input) == Err::<
                BrowserCmdView,
                Seq<char>,
            >("keys must be an array"@)
        }),
{
    lemma_method_names();
}

/// The engine is told exactly the text of an operation that went well, as a
/// string, and exactly the message of one that did not.
pub proof fn law_outcome_is_told_as_it_is(outcome: Result<String, String>)
    ensures
        told(DriverAnswer::Finished(outcome)) == match outcome {
            Ok(text) => Ok::<JsonView, Seq<char>>(JsonView::Str(text@)),
            Err(message) => Err::<JsonView, Seq<char>>(message@),
        },
        told(DriverAnswer::Disconnected) == Err::<JsonView, Seq<char>>(
            "browser driver disconnected"@,
        ),
        told(DriverAnswer::Silent) == Err::<JsonView, Seq<char>>("browser driver did not respond"@),
{
}

} // verus!
