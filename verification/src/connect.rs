//! Getting connected to a page of the browser, one step at a time.

use vstd::prelude::*;

use crate::cdp::{CdpConfig, CdpConfigView, CdpMode};
use crate::chrome::{launch_arguments, launch_args, DEBUG_PORT};
use crate::json::{empty_object, json_parsed, lemma_array_view, parse_json, spells, Json, JsonView};
use crate::session::CdpSession;
use crate::step::{Dialect, PlannedCall, PlannedCallView};
use crate::text::{
    copy_optional, decimal, decimal_text, found_at, lemma_trimmed_end, optional_text, outcome_text,
    replace, replaced, same_text, starts_with, texts, trim_end, trimmed_end,
};

verus! {

/// How often a browser that was started is asked whether it listens.
pub const MAX_PROBES: u32 = 25;

/// How long a browser that was started is left alone before it is asked, in
/// milliseconds.
pub const PROBE_MILLIS: u64 = 200;

/// The parts of the protocol whose events are switched on at the start.
#[derive(Debug, Clone, Copy, PartialEq, Eq, Structural)]
pub enum Domain {
    Page,
    Runtime,
}

/// What came of a request for a JSON document.
#[derive(Debug)]
pub enum Fetched {
    /// There was no response.
    Unreachable,
    /// The body of the response could not be read as text.
    Unreadable,
    /// The body of the response.
    Text(String),
}

/// The content of a `Fetched`.
pub enum FetchedView {
    Unreachable,
    Unreadable,
    Text(Seq<char>),
}

impl View for Fetched {
    type V = FetchedView;

    open spec fn view(&self) -> FetchedView {
        match self {
            Fetched::Unreachable => FetchedView::Unreachable,
            Fetched::Unreadable => FetchedView::Unreadable,
            Fetched::Text(text) => FetchedView::Text(text@),
        }
    }
}

/// What has to be done next to get connected.
#[derive(Debug)]
pub enum ConnectStep {
    /// Start the browser, then go on with `spawned`.
    Spawn { binary: String, args: Vec<String> },
    /// Pause, then go on with `pause_over`.
    Pause { millis: u64, probes: u32 },
    /// See whether the address answers, then go on with `probed`.
    Probe { url: String, probes: u32 },
    /// Fetch the list of targets, then go on with `targets_fetched`.
    ListTargets { url: String, endpoint: String },
    /// Have a new target opened, then go on with `new_target_fetched`.
    NewTarget { url: String, endpoint: String },
    /// Open a WebSocket, then go on with `opened`.
    Open { dialect: Dialect, ws_url: String },
    /// Make the call that `enable_call` gives, then go on with `enabled`.
    Enable { dialect: Dialect, domain: Domain },
    /// Nothing: this is the outcome.
    Done { outcome: Result<(), String> },
}

/// The content of a `ConnectStep`.
pub enum ConnectStepView {
    Spawn { binary: Seq<char>, args: Seq<Seq<char>> },
    Pause { millis: u64, probes: u32 },
    Probe { url: Seq<char>, probes: u32 },
    ListTargets { url: Seq<char>, endpoint: Seq<char> },
    NewTarget { url: Seq<char>, endpoint: Seq<char> },
    Open { dialect: Dialect, ws_url: Seq<char> },
    Enable { dialect: Dialect, domain: Domain },
    Done { outcome: Result<(), Seq<char>> },
}

/// The view of an outcome without a value.
pub open spec fn bare_outcome(outcome: Result<(), String>) -> Result<(), Seq<char>> {
    match outcome {
        Ok(_) => Ok(()),
        Err(message) => Err(message@),
    }
}

impl View for ConnectStep {
    type V = ConnectStepView;

    open spec fn view(&self) -> ConnectStepView {
        match self {
            ConnectStep::Spawn { binary, args } => ConnectStepView::Spawn {
                binary: binary@,
                args: texts(args@),
            },
            ConnectStep::Pause { millis, probes } => ConnectStepView::Pause {
                millis: *millis,
                probes: *probes,
            },
            ConnectStep::Probe { url, probes } => ConnectStepView::Probe {
                url: url@,
                probes: *probes,
            },
            ConnectStep::ListTargets { url, endpoint } => ConnectStepView::ListTargets {
                url: url@,
                endpoint: endpoint@,
            },
            ConnectStep::NewTarget { url, endpoint } => ConnectStepView::NewTarget {
                url: url@,
                endpoint: endpoint@,
            },
            ConnectStep::Open { dialect, ws_url } => ConnectStepView::Open {
                dialect: *dialect,
                ws_url: ws_url@,
            },
            ConnectStep::Enable { dialect, domain } => ConnectStepView::Enable {
                dialect: *dialect,
                domain: *domain,
            },
            ConnectStep::Done { outcome } => ConnectStepView::Done {
                outcome: bare_outcome(*outcome),
            },
        }
    }
}

impl ConnectStepView {
    /// Counters are in their range.
    pub open spec fn wf(self) -> bool {
        match self {
            ConnectStepView::Pause { probes, .. } => probes < MAX_PROBES,
            ConnectStepView::Probe { probes, .. } => probes < MAX_PROBES,
            _ => true,
        }
    }
}

/// Getting connected has failed.
pub open spec fn failed(message: Seq<char>) -> ConnectStepView {
    ConnectStepView::Done { outcome: Err(message) }
}

/// The address of a managed browser.
pub open spec fn managed_address() -> Seq<char> {
    "http://127.0.0.1:"@ + decimal(DEBUG_PORT as nat)
}

/// The address under which a browser answers requests: HTTP instead of
/// WebSocket, without slashes at the end.
pub open spec fn http_base(endpoint: Seq<char>) -> Seq<char> {
    trimmed_end(
        replaced(replaced(endpoint, "ws://"@, "http://"@), "wss://"@, "https://"@),
        '/',
    )
}

/// An endpoint that is a WebSocket already.
pub open spec fn is_socket(endpoint: Seq<char>) -> bool {
    found_at(endpoint, "ws://"@, 0) || found_at(endpoint, "wss://"@, 0)
}

/// What follows when the endpoint is known.
pub open spec fn reaching(endpoint: Seq<char>) -> ConnectStepView {
    if is_socket(endpoint) {
        ConnectStepView::Open { dialect: Dialect::Backend, ws_url: endpoint }
    } else {
        ConnectStepView::ListTargets { url: http_base(endpoint) + "/json/list"@, endpoint }
    }
}

/// What follows when the binary of the browser has been looked for.
pub open spec fn launching(
    binary: Option<Seq<char>>,
    user_data_dir: Seq<char>,
    startup_url: Option<Seq<char>>,
) -> ConnectStepView {
    match binary {
        Some(binary) => ConnectStepView::Spawn {
            binary,
            args: launch_arguments(user_data_dir, startup_url),
        },
        None => failed(
            "Chrome/Chromium not found. Install Google Chrome or set the browser path in config."@,
        ),
    }
}

/// The first step of a connection as the configuration wants it. `binary` is
/// what was found when the browser was looked for, `default_dir` the user data
/// directory where the configuration names none.
pub open spec fn connection(
    config: CdpConfigView,
    binary: Option<Seq<char>>,
    default_dir: Seq<char>,
) -> ConnectStepView {
    match config.mode {
        CdpMode::ManagedLocal => launching(
            binary,
            match config.user_data_dir {
                Some(dir) => dir,
                None => default_dir,
            },
            config.startup_url,
        ),
        CdpMode::AttachExisting => reaching(
            match config.cdp_url {
                Some(url) => url,
                None => "http://127.0.0.1:9222"@,
            },
        ),
        CdpMode::RemoteCdp => match config.cdp_url {
            Some(url) => reaching(url),
            None => failed("RemoteCdp mode requires a cdp_url"@),
        },
    }
}

/// What follows when the browser has been started.
pub open spec fn after_spawning(binary: Seq<char>, running: bool) -> ConnectStepView {
    if running {
        ConnectStepView::Pause { millis: PROBE_MILLIS, probes: 0 }
    } else {
        failed("Failed to spawn Chrome at "@ + binary)
    }
}

/// What follows when the browser has been left alone for a while.
pub open spec fn after_pause(probes: u32) -> ConnectStepView {
    ConnectStepView::Probe { url: managed_address() + "/json/version"@, probes }
}

/// What follows when the browser has been asked whether it listens.
pub open spec fn after_probing(probes: u32, answered: bool) -> ConnectStepView {
    if answered {
        reaching(managed_address())
    } else if probes + 1 < MAX_PROBES {
        ConnectStepView::Pause { millis: PROBE_MILLIS, probes: (probes + 1) as u32 }
    } else {
        failed("Chrome did not respond on port "@ + decimal(DEBUG_PORT as nat)
            + " within 5 seconds"@)
    }
}

/// The WebSocket of a target, if the target is a page and says where it is.
pub open spec fn page_socket(target: JsonView) -> Option<Seq<char>> {
    if target.get_str("type"@) == Some("page"@) {
        target.get_str("webSocketDebuggerUrl"@)
    } else {
        None
    }
}

/// The WebSocket of the first page in a list of targets.
pub open spec fn first_page(targets: Seq<JsonView>) -> Option<Seq<char>>
    decreases targets.len(),
{
    if targets.len() == 0 {
        None
    } else if page_socket(targets[0]) is Some {
        page_socket(targets[0])
    } else {
        first_page(targets.skip(1))
    }
}

/// The WebSocket of the first page in a response, if it holds a list with one.
pub open spec fn listed_page(fetched: FetchedView) -> Option<Seq<char>> {
    match fetched {
        FetchedView::Text(text) => match json_parsed(text) {
            Ok(JsonView::Array(targets)) => first_page(targets),
            _ => None,
        },
        _ => None,
    }
}

/// What follows when the list of targets has been fetched. Without a page in it
/// a new one is opened.
pub open spec fn after_listing(endpoint: Seq<char>, fetched: FetchedView) -> ConnectStepView {
    match listed_page(fetched) {
        Some(ws_url) => ConnectStepView::Open { dialect: Dialect::Backend, ws_url },
        None => ConnectStepView::NewTarget { url: http_base(endpoint) + "/json/new"@, endpoint },
    }
}

/// The WebSocket in a document that describes a new target.
pub open spec fn described_socket(document: JsonView) -> Result<Seq<char>, Seq<char>> {
    match document.get_str("webSocketDebuggerUrl"@) {
        Some(ws_url) => Ok(ws_url),
        None => Err("webSocketDebuggerUrl missing in /json/new response"@),
    }
}

/// The WebSocket of a new target that was asked for at the address, or what
/// went wrong.
pub open spec fn new_page(url: Seq<char>, fetched: FetchedView) -> Result<Seq<char>, Seq<char>> {
    match fetched {
        FetchedView::Unreachable => Err("GET "@ + url + " failed — is Chrome running?"@),
        FetchedView::Unreadable => Err("Invalid /json/new response"@),
        FetchedView::Text(text) => match json_parsed(text) {
            Ok(document) => described_socket(document),
            Err(_) => Err("Invalid /json/new response"@),
        },
    }
}

/// What follows when a new target has been asked for. What exactly went wrong
/// is not passed on.
pub open spec fn after_new_target(endpoint: Seq<char>, page: Result<Seq<char>, Seq<char>>) ->
    ConnectStepView {
    match page {
        Ok(ws_url) => ConnectStepView::Open { dialect: Dialect::Backend, ws_url },
        Err(_) => failed("Failed to get page WebSocket URL from "@ + endpoint),
    }
}

/// What follows when the WebSocket has been opened.
pub open spec fn after_opening(dialect: Dialect, ws_url: Seq<char>, open: bool) ->
    ConnectStepView {
    if open {
        ConnectStepView::Enable { dialect, domain: Domain::Page }
    } else {
        failed("Failed to connect CDP WebSocket at "@ + ws_url)
    }
}

/// The method that switches the events of a domain on.
pub open spec fn enable_method(domain: Domain) -> Seq<char> {
    match domain {
        Domain::Page => "Page.enable"@,
        Domain::Runtime => "Runtime.enable"@,
    }
}

/// What follows when the events of a domain have been switched on.
pub open spec fn after_enabling(
    dialect: Dialect,
    domain: Domain,
    outcome: Result<(), Seq<char>>,
) -> ConnectStepView {
    match outcome {
        Ok(_) => match domain {
            Domain::Page => ConnectStepView::Enable { dialect, domain: Domain::Runtime },
            Domain::Runtime => ConnectStepView::Done { outcome: Ok(()) },
        },
        Err(message) => failed(
            match dialect {
                Dialect::Backend => enable_method(domain) + " failed"@,
                Dialect::Session => message,
            },
        ),
    }
}

/// The address under which a browser answers requests.
fn base_of(endpoint: &str) -> (base: String)
    ensures
        base@ == http_base(endpoint@),
{
    proof {
        reveal_strlit("ws://");
        reveal_strlit("wss://");
    }
    let plain = replace(endpoint, "ws://", "http://");
    let secure = replace(plain.as_str(), "wss://", "https://");
    trim_end(secure.as_str(), '/')
}

/// The address of a managed browser.
fn write_managed_address() -> (address: String)
    ensures
        address@ == managed_address(),
{
    "http://127.0.0.1:".to_owned().concat(decimal_text(DEBUG_PORT).as_str())
}

/// What follows when the endpoint is known.
pub fn reach(endpoint: String) -> (step: ConnectStep)
    ensures
        step@ == reaching(endpoint@),
        step@.wf(),
{
    if starts_with(endpoint.as_str(), "ws://") || starts_with(endpoint.as_str(), "wss://") {
        ConnectStep::Open { dialect: Dialect::Backend, ws_url: endpoint }
    } else {
        ConnectStep::ListTargets {
            url: base_of(endpoint.as_str()).concat("/json/list"),
            endpoint,
        }
    }
}

/// The first step of a connection as the configuration wants it, from what was
/// found when the browser was looked for.
pub fn resolve_endpoint(config: &CdpConfig, binary: Option<String>, default_dir: &str) -> (step:
    ConnectStep)
    ensures
        step@ == connection(config@, optional_text(binary), default_dir@),
        step@.wf(),
{
    match config.mode {
        CdpMode::ManagedLocal => match binary {
            Some(binary) => {
                let args = match &config.user_data_dir {
                    Some(dir) => launch_args(dir.as_str(), copy_optional(&config.startup_url)),
                    None => launch_args(default_dir, copy_optional(&config.startup_url)),
                };
                ConnectStep::Spawn { binary, args }
            },
            None => ConnectStep::Done {
                outcome: Err(
                    "Chrome/Chromium not found. Install Google Chrome or set the browser path in config.".to_owned(),
                ),
            },
        },
        CdpMode::AttachExisting => match &config.cdp_url {
            Some(url) => reach(url.clone()),
            None => reach("http://127.0.0.1:9222".to_owned()),
        },
        CdpMode::RemoteCdp => match &config.cdp_url {
            Some(url) => reach(url.clone()),
            None => ConnectStep::Done {
                outcome: Err("RemoteCdp mode requires a cdp_url".to_owned()),
            },
        },
    }
}

/// What follows when the browser has been started.
pub fn spawned(binary: &str, running: bool) -> (step: ConnectStep)
    ensures
        step@ == after_spawning(binary@, running),
        step@.wf(),
{
    if running {
        ConnectStep::Pause { millis: PROBE_MILLIS, probes: 0 }
    } else {
        ConnectStep::Done { outcome: Err("Failed to spawn Chrome at ".to_owned().concat(binary)) }
    }
}

/// What follows when the browser has been left alone for a while.
pub fn pause_over(probes: u32) -> (step: ConnectStep)
    requires
        probes < MAX_PROBES,
    ensures
        step@ == after_pause(probes),
        step@.wf(),
{
    ConnectStep::Probe { url: write_managed_address().concat("/json/version"), probes }
}

/// What follows when the browser has been asked whether it listens.
pub fn probed(probes: u32, answered: bool) -> (step: ConnectStep)
    requires
        probes < MAX_PROBES,
    ensures
        step@ == after_probing(probes, answered),
        step@.wf(),
{
    if answered {
        reach(write_managed_address())
    } else if probes + 1 < MAX_PROBES {
        ConnectStep::Pause { millis: PROBE_MILLIS, probes: probes + 1 }
    } else {
        ConnectStep::Done {
            outcome: Err(
                "Chrome did not respond on port ".to_owned().concat(
                    decimal_text(DEBUG_PORT).as_str(),
                ).concat(" within 5 seconds"),
            ),
        }
    }
}

/// The WebSocket of the first page in a list of targets.
pub fn find_page(targets: &Json) -> (ws_url: Option<String>)
    ensures
        optional_text(ws_url) == match targets@ {
            JsonView::Array(targets) => first_page(targets),
            _ => None,
        },
{
    match targets {
        Json::Array(list) => {
            let ghost trees = crate::json::item_views(list@);
            proof {
                lemma_array_view(*list);
            }
            let mut i: usize = 0;
            assert(trees.skip(0) == trees);
            while i < list.len()
                invariant
                    i <= list@.len(),
                    trees == crate::json::item_views(list@),
                    targets@ == JsonView::Array(trees),
                    first_page(trees) == first_page(trees.skip(i as int)),
                decreases list@.len() - i,
            {
                proof {
                    assert(trees.skip(i as int)[0] == list@[i as int]@);
                    assert(trees.skip(i as int).skip(1) == trees.skip(i + 1));
                }
                let target = &list[i];
                if let Some(kind) = target.get_str("type") {
                    if same_text(kind, "page") {
                        if let Some(ws_url) = target.get_str("webSocketDebuggerUrl") {
                            return Some(ws_url.to_owned());
                        }
                    }
                }
                i += 1;
            }
            None
        },
        _ => None,
    }
}

/// What follows when the list of targets has been fetched.
pub fn targets_fetched(endpoint: String, fetched: Fetched) -> (step: ConnectStep)
    ensures
        step@ == after_listing(endpoint@, fetched@),
        step@.wf(),
        fetched@ matches FetchedView::Text(text) ==> forall|targets: Seq<JsonView>| #[trigger]
            spells(text, JsonView::Array(targets)) ==> step@ == match first_page(targets) {
                Some(ws_url) => ConnectStepView::Open { dialect: Dialect::Backend, ws_url },
                None => ConnectStepView::NewTarget {
                    url: http_base(endpoint@) + "/json/new"@,
                    endpoint: endpoint@,
                },
            },
{
    let page = match fetched {
        Fetched::Text(text) => match parse_json(text.as_str()) {
            Ok(targets) => find_page(&targets),
            Err(_) => None,
        },
        _ => None,
    };
    match page {
        Some(ws_url) => ConnectStep::Open { dialect: Dialect::Backend, ws_url },
        None => ConnectStep::NewTarget {
            url: base_of(endpoint.as_str()).concat("/json/new"),
            endpoint,
        },
    }
}

/// The WebSocket in a document that describes a new target.
pub fn read_socket(document: &Json) -> (ws_url: Result<String, String>)
    ensures
        outcome_text(ws_url) == described_socket(document@),
{
    match document.get_str("webSocketDebuggerUrl") {
        Some(ws_url) => Ok(ws_url.to_owned()),
        None => Err("webSocketDebuggerUrl missing in /json/new response".to_owned()),
    }
}

/// The WebSocket of a new target that was asked for at the address, or what
/// went wrong.
pub fn read_new_page(url: &str, fetched: Fetched) -> (ws_url: Result<String, String>)
    ensures
        outcome_text(ws_url) == new_page(url@, fetched@),
        fetched@ matches FetchedView::Text(text) ==> forall|document: JsonView| #[trigger]
            spells(text, document) ==> outcome_text(ws_url) == described_socket(document),
{
    match fetched {
        Fetched::Unreachable => Err(
            "GET ".to_owned().concat(url).concat(" failed — is Chrome running?"),
        ),
        Fetched::Unreadable => Err("Invalid /json/new response".to_owned()),
        Fetched::Text(text) => match parse_json(text.as_str()) {
            Ok(document) => read_socket(&document),
            Err(_) => Err("Invalid /json/new response".to_owned()),
        },
    }
}

/// What follows when a new target has been asked for.
pub fn new_target_fetched(endpoint: &str, page: Result<String, String>) -> (step: ConnectStep)
    ensures
        step@ == after_new_target(endpoint@, outcome_text(page)),
        step@.wf(),
{
    match page {
        Ok(ws_url) => ConnectStep::Open { dialect: Dialect::Backend, ws_url },
        Err(_) => ConnectStep::Done {
            outcome: Err("Failed to get page WebSocket URL from ".to_owned().concat(endpoint)),
        },
    }
}

/// What follows when the WebSocket has been opened.
pub fn opened(dialect: Dialect, ws_url: &str, open: bool) -> (step: ConnectStep)
    ensures
        step@ == after_opening(dialect, ws_url@, open),
        step@.wf(),
{
    if open {
        ConnectStep::Enable { dialect, domain: Domain::Page }
    } else {
        ConnectStep::Done {
            outcome: Err("Failed to connect CDP WebSocket at ".to_owned().concat(ws_url)),
        }
    }
}

/// The call that switches the events of a domain on.
pub fn enable_call(domain: Domain) -> (call: PlannedCall)
    ensures
        call@ == (PlannedCallView {
            method: enable_method(domain),
            params: JsonView::Object(seq![]),
        }),
        call@.params.wf(),
{
    let method = match domain {
        Domain::Page => "Page.enable",
        Domain::Runtime => "Runtime.enable",
    };
    PlannedCall { method: method.to_owned(), params: empty_object() }
}

/// What follows when the events of a domain have been switched on.
pub fn enabled(dialect: Dialect, domain: Domain, outcome: Result<(), String>) -> (step: ConnectStep)
    ensures
        step@ == after_enabling(dialect, domain, bare_outcome(outcome)),
        step@.wf(),
{
    match outcome {
        Ok(_) => match domain {
            Domain::Page => ConnectStep::Enable { dialect, domain: Domain::Runtime },
            Domain::Runtime => ConnectStep::Done { outcome: Ok(()) },
        },
        Err(message) => ConnectStep::Done {
            outcome: Err(
                match dialect {
                    Dialect::Backend => enable_call(domain).method.concat(" failed"),
                    Dialect::Session => message,
                },
            ),
        },
    }
}

impl CdpSession {
    /// The first step of a session on a WebSocket that is known.
    pub fn connect(ws_url: &str) -> (step: ConnectStep)
        ensures
            step@ == (ConnectStepView::Open { dialect: Dialect::Session, ws_url: ws_url@ }),
            step@.wf(),
    {
        ConnectStep::Open { dialect: Dialect::Session, ws_url: ws_url.to_owned() }
    }
}

/// How many answers a connection can still take.
pub open spec fn connect_rank(step: ConnectStepView) -> nat {
    match step {
        ConnectStepView::Done { .. } => 0,
        ConnectStepView::Enable { domain, .. } => match domain {
            Domain::Runtime => 1,
            Domain::Page => 2,
        },
        ConnectStepView::Open { .. } => 3,
        ConnectStepView::NewTarget { .. } => 4,
        ConnectStepView::ListTargets { .. } => 5,
        ConnectStepView::Probe { probes, .. } => (5 + 2 * (MAX_PROBES - probes)) as nat,
        ConnectStepView::Pause { probes, .. } => (6 + 2 * (MAX_PROBES - probes)) as nat,
        ConnectStepView::Spawn { .. } => (7 + 2 * MAX_PROBES) as nat,
    }
}

/// What came of the work that a step asks for.
#[derive(Debug)]
pub enum ConnectAnswer {
    /// Whether the browser could be started.
    Spawned(bool),
    /// The pause is over.
    Rested,
    /// Whether the address answered.
    Probed(bool),
    /// What came of the request.
    Fetched(Fetched),
    /// Whether the WebSocket could be opened.
    Opened(bool),
    /// What came of the call.
    Called(Result<(), String>),
}

/// The content of a `ConnectAnswer`.
pub enum ConnectAnswerView {
    Spawned(bool),
    Rested,
    Probed(bool),
    Fetched(FetchedView),
    Opened(bool),
    Called(Result<(), Seq<char>>),
}

impl View for ConnectAnswer {
    type V = ConnectAnswerView;

    open spec fn view(&self) -> ConnectAnswerView {
        match self {
            ConnectAnswer::Spawned(running) => ConnectAnswerView::Spawned(*running),
            ConnectAnswer::Rested => ConnectAnswerView::Rested,
            ConnectAnswer::Probed(answered) => ConnectAnswerView::Probed(*answered),
            ConnectAnswer::Fetched(fetched) => ConnectAnswerView::Fetched(fetched@),
            ConnectAnswer::Opened(open) => ConnectAnswerView::Opened(*open),
            ConnectAnswer::Called(outcome) => ConnectAnswerView::Called(bare_outcome(*outcome)),
        }
    }
}

/// What follows from a step and the answer to it; nothing where the answer does
/// not fit the step.
pub open spec fn after_answer(step: ConnectStepView, answer: ConnectAnswerView) -> Option<
    ConnectStepView,
> {
    match (step, answer) {
        (
            ConnectStepView::Spawn { binary, .. },
            ConnectAnswerView::Spawned(running),
        ) => Some(after_spawning(binary, running)),
        (ConnectStepView::Pause { probes, .. }, ConnectAnswerView::Rested) => Some(
            after_pause(probes),
        ),
        (ConnectStepView::Probe { probes, .. }, ConnectAnswerView::Probed(answered)) => Some(
            after_probing(probes, answered),
        ),
        (
            ConnectStepView::ListTargets { endpoint, .. },
            ConnectAnswerView::Fetched(fetched),
        ) => Some(after_listing(endpoint, fetched)),
        (
            ConnectStepView::NewTarget { url, endpoint },
            ConnectAnswerView::Fetched(fetched),
        ) => Some(after_new_target(endpoint, new_page(url, fetched))),
        (ConnectStepView::Open { dialect, ws_url }, ConnectAnswerView::Opened(open)) => Some(
            after_opening(dialect, ws_url, open),
        ),
        (
            ConnectStepView::Enable { dialect, domain },
            ConnectAnswerView::Called(outcome),
        ) => Some(after_enabling(dialect, domain, outcome)),
        _ => None,
    }
}

/// What follows from a step and the answers to it and to the steps after it;
/// nothing where an answer does not fit.
pub open spec fn after_answers(step: ConnectStepView, answers: Seq<ConnectAnswerView>) -> Option<
    ConnectStepView,
>
    decreases answers.len(),
{
    if answers.len() == 0 {
        Some(step)
    } else {
        match after_answers(step, answers.drop_last()) {
            Some(last) => after_answer(last, answers.last()),
            None => None,
        }
    }
}

impl ConnectStep {
    /// Goes on with the answer to the step; `None` where the answer does not
    /// fit the step.
    pub fn resume(self, answer: ConnectAnswer) -> (step: Option<ConnectStep>)
        requires
            self@.wf(),
        ensures
            match step {
                Some(step) => after_answer(self@, answer@) == Some(step@) && step@.wf(),
                None => after_answer(self@, answer@) is None,
            },
    {
        match (self, answer) {
            (ConnectStep::Spawn { binary, .. }, ConnectAnswer::Spawned(running)) => Some(
                spawned(binary.as_str(), running),
            ),
            (ConnectStep::Pause { probes, .. }, ConnectAnswer::Rested) => Some(pause_over(probes)),
            (ConnectStep::Probe { probes, .. }, ConnectAnswer::Probed(answered)) => Some(
                probed(probes, answered),
            ),
            (ConnectStep::ListTargets { endpoint, .. }, ConnectAnswer::Fetched(fetched)) => Some(
                targets_fetched(endpoint, fetched),
            ),
            (ConnectStep::NewTarget { url, endpoint }, ConnectAnswer::Fetched(fetched)) => Some(
                new_target_fetched(endpoint.as_str(), read_new_page(url.as_str(), fetched)),
            ),
            (ConnectStep::Open { dialect, ws_url }, ConnectAnswer::Opened(open)) => Some(
                opened(dialect, ws_url.as_str(), open),
            ),
            (ConnectStep::Enable { dialect, domain }, ConnectAnswer::Called(outcome)) => Some(
                enabled(dialect, domain, outcome),
            ),
            _ => None,
        }
    }
}

/// Whatever is answered, getting connected comes to an end: each answer leaves
/// fewer answers to come.
pub proof fn law_connecting_comes_to_an_end(step: ConnectStepView, answer: ConnectAnswerView)
    requires
        step.wf(),
    ensures
        after_answer(step, answer) matches Some(next) ==> next.wf() && connect_rank(next)
            < connect_rank(step),
{
}

/// A connection stands only when the WebSocket is open and the events of both
/// domains are switched on, the page's first.
pub proof fn law_connection_has_both_domains(step: ConnectStepView, answer: ConnectAnswerView)
    ensures
        after_answer(step, answer) matches Some(ConnectStepView::Done { outcome: Ok(_) }) ==> {
            &&& step matches ConnectStepView::Enable { domain: Domain::Runtime, .. }
            &&& answer matches ConnectAnswerView::Called(Ok(_))
        },
        after_answer(step, answer) matches Some(
            ConnectStepView::Enable { domain: Domain::Runtime, .. },
        ) ==> {
            &&& step matches ConnectStepView::Enable { domain: Domain::Page, .. }
            &&& answer matches ConnectAnswerView::Called(Ok(_))
        },
        after_answer(step, answer) matches Some(
            ConnectStepView::Enable { domain: Domain::Page, .. },
        ) ==> {
            &&& step is Open
            &&& answer == ConnectAnswerView::Opened(true)
        },
{
}

/// The base of the addresses that are asked ends in no slash.
pub proof fn law_base_ends_in_no_slash(endpoint: Seq<char>)
    ensures
        http_base(endpoint).len() > 0 ==> http_base(endpoint).last() != '/',
{
    lemma_trimmed_end(
        replaced(replaced(endpoint, "ws://"@, "http://"@), "wss://"@, "https://"@),
        '/',
    );
}

/// The page that is taken from a list of targets is the first that is a page
/// and says where it is.
pub proof fn law_first_page_is_taken(targets: Seq<JsonView>)
    ensures
        match first_page(targets) {
            Some(ws_url) => exists|i: int|
                0 <= i < targets.len() && #[trigger] page_socket(targets[i]) == Some(ws_url) && (
                forall|k: int| 0 <= k < i ==> #[trigger] page_socket(targets[k]) is None),
            None => forall|i: int|
                0 <= i < targets.len() ==> #[trigger] page_socket(targets[i]) is None,
        },
    decreases targets.len(),
{
    if targets.len() > 0 && page_socket(targets[0]) is None {
        let rest = targets.skip(1);
        law_first_page_is_taken(rest);
        assert forall|k: int| 0 <= k < rest.len() implies rest[k] == #[trigger] targets[k + 1] by {}
        match first_page(rest) {
            Some(ws_url) => {
                let i = choose|i: int|
                    0 <= i < rest.len() && #[trigger] page_socket(rest[i]) == Some(ws_url) && (
                    forall|k: int| 0 <= k < i ==> #[trigger] page_socket(rest[k]) is None);
                assert(page_socket(targets[i + 1]) == Some(ws_url));
                assert forall|k: int| 0 <= k < i + 1 implies #[trigger] page_socket(
                    targets[k],
                ) is None by {
                    if k > 0 {
                        assert(page_socket(rest[k - 1]) is None);
                    }
                }
            },
            None => {
                assert forall|k: int| 0 <= k < targets.len() implies #[trigger] page_socket(
                    targets[k],
                ) is None by {
                    if k > 0 {
                        assert(page_socket(rest[k - 1]) is None);
                    }
                }
            },
        }
    }
}

/// Only a managed browser is ever started; the other modes connect to what is
/// there.
pub proof fn law_only_managed_mode_starts_a_browser(
    config: CdpConfigView,
    binary: Option<Seq<char>>,
    default_dir: Seq<char>,
    step: ConnectStepView,
    answer: ConnectAnswerView,
)
    ensures
        connection(config, binary, default_dir) is Spawn ==> config.mode is ManagedLocal
            && binary is Some,
        after_answer(step, answer) matches Some(next) ==> !(next is Spawn),
{
}

/// A managed browser is started without a window, on the port where it is then
/// looked for, and with the page to open at the end.
pub proof fn law_managed_browser_is_headless(
    binary: Seq<char>,
    user_data_dir: Seq<char>,
    startup_url: Option<Seq<char>>,
)
    ensures
        launching(Some(binary), user_data_dir, startup_url) matches ConnectStepView::Spawn {
            args,
            ..
        } && args.contains("--headless=new"@) && args.contains(
            "--remote-debugging-port="@ + decimal(DEBUG_PORT as nat),
        ) && args.contains("--user-data-dir="@ + user_data_dir) && (startup_url is Some
            ==> args.last() == startup_url->Some_0),
{
    let args = launch_arguments(user_data_dir, startup_url);
    assert(args[0] == "--remote-debugging-port="@ + decimal(DEBUG_PORT as nat));
    assert(args[1] == "--headless=new"@);
    assert(args[5] == "--user-data-dir="@ + user_data_dir);
}

/// A WebSocket endpoint in the configuration is opened as it stands there.
pub proof fn law_socket_endpoint_is_opened_as_it_is(
    config: CdpConfigView,
    binary: Option<Seq<char>>,
    default_dir: Seq<char>,
)
    requires
        !(config.mode is ManagedLocal),
        config.cdp_url matches Some(url) && is_socket(url),
    ensures
        connection(config, binary, default_dir) == (ConnectStepView::Open {
            dialect: Dialect::Backend,
            ws_url: config.cdp_url->Some_0,
        }),
{
}

} // verus!
