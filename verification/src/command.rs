//! The commands of the browser driver and the operations that they begin.

use vstd::prelude::*;

use crate::form::{fill_form, form_filling};
use crate::idle::wait_for_network_idle;
use crate::json::{Json, JsonView};
use crate::navigation::{navigate, navigation};
use crate::page::{
    check_blockers, click, click_by_id, click_script, diff_script, extract_semantic_data,
    extract_table_to_json, fill_field, fill_script, get_element_diff, get_interactive_elements,
    get_intercepted_responses, get_page_structure, inspect_form, inspect_script,
    intercept_api_response, interception, numbered_click_script, page_text, semantic_data_script,
    structure_script, table_script,
};
use crate::reply::{evaluation, text_query};
use crate::scripts;
use crate::state::{restoration, restore_session_state, save_session_state, saving};
use crate::step::{AfterCallView, AfterClock, Dialect, Step, StepView};
use crate::text::{optional_text, texts};

verus! {

/// A command to the browser driver.
#[derive(Debug)]
pub enum BrowserCmd {
    /// Open an address.
    Navigate { url: String },
    /// Read the visible text of the page.
    PageText,
    /// Click an element.
    Click { selector: String },
    /// Fill a field.
    Fill { selector: String, value: String },
    /// List the forms of the page.
    InspectForm,
    /// Fill a form from named values.
    FillFormSmart { data: Json, submit: bool },
    /// Describe the structure of the page.
    GetPageStructure,
    /// Look for the data that the keys name.
    ExtractSemanticData { keys: Vec<String> },
    /// Wait until the network is silent.
    WaitForNetworkIdle { timeout_ms: u64 },
    /// List the elements that can be operated.
    GetInteractiveElements,
    /// Click an element by its number.
    ClickById { id: u32 },
    /// Look for what keeps a visitor out.
    CheckBlockers,
    /// Compare elements with an earlier look.
    GetElementDiff { selector: String },
    /// Read a table.
    ExtractTableToJson { selector: Option<String> },
    /// Save cookies and local storage.
    SaveSessionState,
    /// Restore cookies and local storage.
    RestoreSessionState { state: String },
    /// Begin to intercept responses.
    InterceptApiResponse { url_pattern: String },
    /// Hand over the intercepted responses.
    GetInterceptedResponses,
    /// Stop the driver.
    Stop,
}

/// The content of a `BrowserCmd`.
pub enum BrowserCmdView {
    Navigate { url: Seq<char> },
    PageText,
    Click { selector: Seq<char> },
    Fill { selector: Seq<char>, value: Seq<char> },
    InspectForm,
    FillFormSmart { data: JsonView, submit: bool },
    GetPageStructure,
    ExtractSemanticData { keys: Seq<Seq<char>> },
    WaitForNetworkIdle { timeout_ms: u64 },
    GetInteractiveElements,
    ClickById { id: u32 },
    CheckBlockers,
    GetElementDiff { selector: Seq<char> },
    ExtractTableToJson { selector: Option<Seq<char>> },
    SaveSessionState,
    RestoreSessionState { state: Seq<char> },
    InterceptApiResponse { url_pattern: Seq<char> },
    GetInterceptedResponses,
    Stop,
}

impl View for BrowserCmd {
    type V = BrowserCmdView;

    open spec fn view(&self) -> BrowserCmdView {
        match self {
            BrowserCmd::Navigate { url } => BrowserCmdView::Navigate {
                url: url@,
            },
            BrowserCmd::PageText => BrowserCmdView::PageText,
            BrowserCmd::Click { selector } => BrowserCmdView::Click {
                selector: selector@,
            },
            BrowserCmd::Fill { selector, value } => BrowserCmdView::Fill {
                selector: selector@,
                value: value@,
            },
            BrowserCmd::InspectForm => BrowserCmdView::InspectForm,
            BrowserCmd::FillFormSmart { data, submit } => BrowserCmdView::FillFormSmart {
                data: data@,
                submit: *submit,
            },
            BrowserCmd::GetPageStructure => BrowserCmdView::GetPageStructure,
            BrowserCmd::ExtractSemanticData { keys } => BrowserCmdView::ExtractSemanticData {
                keys: texts(keys@),
            },
            BrowserCmd::WaitForNetworkIdle { timeout_ms } => BrowserCmdView::WaitForNetworkIdle {
                timeout_ms: *timeout_ms,
            },
            BrowserCmd::GetInteractiveElements => BrowserCmdView::GetInteractiveElements,
            BrowserCmd::ClickById { id } => BrowserCmdView::ClickById {
                id: *id,
            },
            BrowserCmd::CheckBlockers => BrowserCmdView::CheckBlockers,
            BrowserCmd::GetElementDiff { selector } => BrowserCmdView::GetElementDiff {
                selector: selector@,
            },
            BrowserCmd::ExtractTableToJson { selector } => BrowserCmdView::ExtractTableToJson {
                selector: optional_text(*selector),
            },
            BrowserCmd::SaveSessionState => BrowserCmdView::SaveSessionState,
            BrowserCmd::RestoreSessionState { state } => BrowserCmdView::RestoreSessionState {
                state: state@,
            },
            BrowserCmd::InterceptApiResponse { url_pattern } => BrowserCmdView::InterceptApiResponse {
                url_pattern: url_pattern@,
            },
            BrowserCmd::GetInterceptedResponses => BrowserCmdView::GetInterceptedResponses,
            BrowserCmd::Stop => BrowserCmdView::Stop,
        }
    }
}

impl BrowserCmdView {
    /// The JSON value inside is well-formed.
    pub open spec fn wf(self) -> bool {
        match self {
            BrowserCmdView::FillFormSmart { data, .. } => data.wf(),
            _ => true,
        }
    }
}

/// The operation that a command begins; none for the command to stop.
pub open spec fn operation(cmd: BrowserCmdView) -> Option<StepView> {
    let dialect = Dialect::Backend;
    match cmd {
        BrowserCmdView::Navigate { url } => Some(navigation(dialect, url)),
        BrowserCmdView::PageText => Some(
            evaluation(scripts::BODY_TEXT@, AfterCallView::PageText { dialect }),
        ),
        BrowserCmdView::Click { selector } => Some(
            text_query(dialect, click_script(dialect, selector), "Click executed"@),
        ),
        BrowserCmdView::Fill { selector, value } => Some(
            text_query(dialect, fill_script(dialect, selector, value), "Field filled"@),
        ),
        BrowserCmdView::InspectForm => Some(text_query(dialect, inspect_script(dialect), "[]"@)),
        BrowserCmdView::FillFormSmart { data, submit } => Some(
            form_filling(dialect, data, submit),
        ),
        BrowserCmdView::GetPageStructure => Some(
            text_query(dialect, structure_script(dialect), "{}"@),
        ),
        BrowserCmdView::ExtractSemanticData { keys } => Some(
            text_query(dialect, semantic_data_script(dialect, keys), "{}"@),
        ),
        BrowserCmdView::WaitForNetworkIdle { timeout_ms } => Some(
            StepView::Clock { next: AfterClock::Started { timeout_ms } },
        ),
        BrowserCmdView::GetInteractiveElements => Some(
            text_query(dialect, scripts::INTERACTIVE_ELEMENTS@, "[]"@),
        ),
        BrowserCmdView::ClickById { id } => Some(
            text_query(dialect, numbered_click_script(id), "Click executed"@),
        ),
        BrowserCmdView::CheckBlockers => Some(
            text_query(dialect, scripts::CHECK_BLOCKERS@, "{}"@),
        ),
        BrowserCmdView::GetElementDiff { selector } => Some(
            text_query(dialect, diff_script(selector), "{}"@),
        ),
        BrowserCmdView::ExtractTableToJson { selector } => Some(
            text_query(dialect, table_script(selector), "{}"@),
        ),
        BrowserCmdView::SaveSessionState => Some(saving()),
        BrowserCmdView::RestoreSessionState { state } => Some(restoration(state)),
        BrowserCmdView::InterceptApiResponse { url_pattern } => Some(interception(url_pattern)),
        BrowserCmdView::GetInterceptedResponses => Some(
            text_query(dialect, scripts::INTERCEPTED_RESPONSES@, "{}"@),
        ),
        BrowserCmdView::Stop => None,
    }
}

impl BrowserCmd {
    /// Begins the operation of the command; `None` for the command to stop.
    pub fn begin(self) -> (step: Option<Step>)
        requires
            self@.wf(),
        ensures
            match step {
                Some(step) => operation(self@) == Some(step@) && step@.wf(),
                None => operation(self@) is None,
            },
    {
        let dialect = Dialect::Backend;
        match self {
            BrowserCmd::Navigate { url } => Some(navigate(dialect, url.as_str())),
            BrowserCmd::PageText => Some(page_text(dialect)),
            BrowserCmd::Click { selector } => Some(click(dialect, selector.as_str())),
            BrowserCmd::Fill { selector, value } => Some(
                fill_field(dialect, selector.as_str(), value.as_str()),
            ),
            BrowserCmd::InspectForm => Some(inspect_form(dialect)),
            BrowserCmd::FillFormSmart { data, submit } => Some(fill_form(dialect, data, submit)),
            BrowserCmd::GetPageStructure => Some(get_page_structure(dialect)),
            BrowserCmd::ExtractSemanticData { keys } => Some(extract_semantic_data(dialect, keys)),
            BrowserCmd::WaitForNetworkIdle { timeout_ms } => Some(
                wait_for_network_idle(timeout_ms),
            ),
            BrowserCmd::GetInteractiveElements => Some(get_interactive_elements()),
            BrowserCmd::ClickById { id } => Some(click_by_id(id)),
            BrowserCmd::CheckBlockers => Some(check_blockers()),
            BrowserCmd::GetElementDiff { selector } => Some(get_element_diff(selector.as_str())),
            BrowserCmd::ExtractTableToJson { selector } => Some(extract_table_to_json(selector)),
            BrowserCmd::SaveSessionState => Some(save_session_state()),
            BrowserCmd::RestoreSessionState { state } => Some(
                restore_session_state(state.as_str()),
            ),
            BrowserCmd::InterceptApiResponse { url_pattern } => Some(
                intercept_api_response(url_pattern),
            ),
            BrowserCmd::GetInterceptedResponses => Some(get_intercepted_responses()),
            BrowserCmd::Stop => None,
        }
    }
}

} // verus!
