//! Browser operations as steps: what has to be done next, and what remains to
//! be done with the answer.

use vstd::prelude::*;

use crate::json::{Json, JsonView};
use crate::text::outcome_text;

verus! {

/// The two families of tools. They write their scripts and selectors
/// differently, word some errors differently, and fill the fields of a form
/// differently.
#[derive(Debug, Clone, Copy, PartialEq, Eq, Structural)]
pub enum Dialect {
    /// The tools of the backend. An evaluation's reply holds its value in a
    /// result.
    Backend,
    /// The tools that work on an open session. An evaluation's reply may also be
    /// the bare value.
    Session,
}

/// A field of a form on the page.
#[derive(Debug)]
pub struct FormField {
    pub name: String,
    pub label: String,
    pub id: String,
    pub tag: String,
}

/// The content of a `FormField`.
pub struct FormFieldView {
    pub name: Seq<char>,
    pub label: Seq<char>,
    pub id: Seq<char>,
    pub tag: Seq<char>,
}

impl View for FormField {
    type V = FormFieldView;

    open spec fn view(&self) -> FormFieldView {
        FormFieldView { name: self.name@, label: self.label@, id: self.id@, tag: self.tag@ }
    }
}

/// A form that is being filled.
#[derive(Debug)]
pub struct FormFilling {
    pub dialect: Dialect,
    /// The keys of the data with the texts to fill in.
    pub entries: Vec<(String, String)>,
    pub fields: Vec<FormField>,
    /// Whether the form is submitted at the end.
    pub submit: bool,
    /// For each key that is decided, whether it was filled in. The next key is
    /// the one that is being tried.
    pub verdicts: Vec<bool>,
    /// The field that is being tried.
    pub field: usize,
}

/// The content of a `FormFilling`.
pub struct FormFillingView {
    pub dialect: Dialect,
    pub entries: Seq<(Seq<char>, Seq<char>)>,
    pub fields: Seq<FormFieldView>,
    pub submit: bool,
    pub verdicts: Seq<bool>,
    pub field: nat,
}

impl View for FormFilling {
    type V = FormFillingView;

    open spec fn view(&self) -> FormFillingView {
        FormFillingView {
            dialect: self.dialect,
            entries: self.entries@.map_values(|entry: (String, String)| (entry.0@, entry.1@)),
            fields: self.fields@.map_values(|field: FormField| field@),
            submit: self.submit,
            verdicts: self.verdicts@,
            field: self.field as nat,
        }
    }
}

impl FormFillingView {
    /// A field is being tried for a key.
    pub open spec fn trying(self) -> bool {
        &&& self.verdicts.len() < self.entries.len()
        &&& self.field < self.fields.len()
    }

    /// Every key is decided.
    pub open spec fn decided(self) -> bool {
        self.verdicts.len() == self.entries.len()
    }
}

/// A wait for the network to fall silent. Times are in nanoseconds.
#[derive(Debug, Clone, Copy)]
pub struct IdleWait {
    pub timeout_ms: u64,
    /// When the wait began.
    pub started: u128,
    /// When a pending request was last seen.
    pub active: u128,
}

/// A call that is to be made, whatever comes of it.
#[derive(Debug)]
pub struct PlannedCall {
    pub method: String,
    pub params: Json,
}

/// The content of a `PlannedCall`.
pub struct PlannedCallView {
    pub method: Seq<char>,
    pub params: JsonView,
}

impl View for PlannedCall {
    type V = PlannedCallView;

    open spec fn view(&self) -> PlannedCallView {
        PlannedCallView { method: self.method@, params: self.params@ }
    }
}

/// The content of a list of planned calls.
pub open spec fn planned(calls: Seq<PlannedCall>) -> Seq<PlannedCallView> {
    calls.map_values(|call: PlannedCall| call@)
}

/// What remains to be done with the reply to a call.
#[derive(Debug)]
pub enum AfterCall {
    /// The text of the reply is the outcome; `fallback` where there is none.
    Text { dialect: Dialect, fallback: String },
    /// The visible text of the page has been asked for.
    PageText { dialect: Dialect },
    /// The page has been told to open the address.
    Opened { dialect: Dialect, url: String },
    /// The page has been asked how far it is loaded, `polls` times before.
    Polled { dialect: Dialect, url: String, polls: u32 },
    /// The title of the page has been asked for.
    Titled { dialect: Dialect, url: String },
    /// The forms of the page have been asked for.
    Discovered { dialect: Dialect, data: Json, submit: bool },
    /// A field of a form has been filled.
    Filled { form: FormFilling },
    /// A form has been submitted.
    Submitted { form: FormFilling },
    /// The pending requests have been counted.
    Counted { wait: IdleWait },
    /// The cookies have been asked for.
    CookiesRead,
    /// The local storage has been asked for.
    StorageRead { cookies: Option<Json> },
    /// A part of a saved state has been restored; these calls are left.
    Restoring { calls: Vec<PlannedCall> },
    /// The network events have been switched on.
    Intercepting { pattern: String },
}

/// The content of an `AfterCall`.
pub enum AfterCallView {
    Text { dialect: Dialect, fallback: Seq<char> },
    PageText { dialect: Dialect },
    Opened { dialect: Dialect, url: Seq<char> },
    Polled { dialect: Dialect, url: Seq<char>, polls: u32 },
    Titled { dialect: Dialect, url: Seq<char> },
    Discovered { dialect: Dialect, data: JsonView, submit: bool },
    Filled { form: FormFillingView },
    Submitted { form: FormFillingView },
    Counted { wait: IdleWait },
    CookiesRead,
    StorageRead { cookies: Option<JsonView> },
    Restoring { calls: Seq<PlannedCallView> },
    Intercepting { pattern: Seq<char> },
}

/// The view of an optional JSON value.
pub open spec fn optional_json(json: Option<Json>) -> Option<JsonView> {
    match json {
        Some(json) => Some(json@),
        None => None,
    }
}

impl View for AfterCall {
    type V = AfterCallView;

    open spec fn view(&self) -> AfterCallView {
        match self {
            AfterCall::Text { dialect, fallback } => AfterCallView::Text {
                dialect: *dialect,
                fallback: fallback@,
            },
            AfterCall::PageText { dialect } => AfterCallView::PageText { dialect: *dialect },
            AfterCall::Opened { dialect, url } => AfterCallView::Opened {
                dialect: *dialect,
                url: url@,
            },
            AfterCall::Polled { dialect, url, polls } => AfterCallView::Polled {
                dialect: *dialect,
                url: url@,
                polls: *polls,
            },
            AfterCall::Titled { dialect, url } => AfterCallView::Titled {
                dialect: *dialect,
                url: url@,
            },
            AfterCall::Discovered { dialect, data, submit } => AfterCallView::Discovered {
                dialect: *dialect,
                data: data@,
                submit: *submit,
            },
            AfterCall::Filled { form } => AfterCallView::Filled { form: form@ },
            AfterCall::Submitted { form } => AfterCallView::Submitted { form: form@ },
            AfterCall::Counted { wait } => AfterCallView::Counted { wait: *wait },
            AfterCall::CookiesRead => AfterCallView::CookiesRead,
            AfterCall::StorageRead { cookies } => AfterCallView::StorageRead {
                cookies: optional_json(*cookies),
            },
            AfterCall::Restoring { calls } => AfterCallView::Restoring { calls: planned(calls@) },
            AfterCall::Intercepting { pattern } => AfterCallView::Intercepting {
                pattern: pattern@,
            },
        }
    }
}

/// How often the page is asked whether it is loaded.
pub const MAX_POLLS: u32 = 20;

impl AfterCallView {
    /// The JSON values inside are well-formed, and counters are in their range.
    pub open spec fn wf(self) -> bool {
        match self {
            AfterCallView::Polled { polls, .. } => polls < MAX_POLLS,
            AfterCallView::Discovered { data, .. } => data.wf(),
            AfterCallView::Filled { form } => form.trying(),
            AfterCallView::Submitted { form } => form.decided(),
            AfterCallView::StorageRead { cookies } => match cookies {
                Some(cookies) => cookies.wf(),
                None => true,
            },
            AfterCallView::Restoring { calls } => forall|i: int|
                0 <= i < calls.len() ==> (#[trigger] calls[i]).params.wf(),
            _ => true,
        }
    }
}

/// What remains to be done after a pause.
#[derive(Debug)]
pub enum AfterSleep {
    /// The page had time to load.
    Settled { dialect: Dialect, url: String, polls: u32 },
    /// The page had time to react to a submitted form.
    Rested { form: FormFilling },
    /// The network had time to fall silent.
    Paused { wait: IdleWait },
}

/// The content of an `AfterSleep`.
pub enum AfterSleepView {
    Settled { dialect: Dialect, url: Seq<char>, polls: u32 },
    Rested { form: FormFillingView },
    Paused { wait: IdleWait },
}

impl View for AfterSleep {
    type V = AfterSleepView;

    open spec fn view(&self) -> AfterSleepView {
        match self {
            AfterSleep::Settled { dialect, url, polls } => AfterSleepView::Settled {
                dialect: *dialect,
                url: url@,
                polls: *polls,
            },
            AfterSleep::Rested { form } => AfterSleepView::Rested { form: form@ },
            AfterSleep::Paused { wait } => AfterSleepView::Paused { wait: *wait },
        }
    }
}

impl AfterSleepView {
    /// Counters are in their range.
    pub open spec fn wf(self) -> bool {
        match self {
            AfterSleepView::Settled { polls, .. } => polls < MAX_POLLS,
            AfterSleepView::Rested { form } => form.decided(),
            AfterSleepView::Paused { .. } => true,
        }
    }
}

/// What remains to be done when the clock has been read.
#[derive(Debug)]
pub enum AfterClock {
    /// The reading is the beginning of a wait.
    Started { timeout_ms: u64 },
    /// The reading is the beginning of the silence.
    Begun { timeout_ms: u64, started: u128 },
    /// The reading decides whether the time of a wait is up.
    Judged { wait: IdleWait },
    /// The reading decides whether the silence has lasted long enough.
    Listened { wait: IdleWait },
    /// The reading is the time of a pending request.
    Marked { wait: IdleWait },
}

/// What remains to be done when the caller has filled a field.
#[derive(Debug)]
pub struct AfterFill {
    pub form: FormFilling,
}

/// What has to be done next.
#[allow(inconsistent_fields)]
#[derive(Debug)]
pub enum Step {
    /// Make a call and hand its reply to `next`.
    Call { method: String, params: Json, next: AfterCall },
    /// Pause, then go on with `next`.
    Sleep { millis: u64, next: AfterSleep },
    /// Read the clock and hand the reading to `next`.
    Clock { next: AfterClock },
    /// Fill a field and tell `next` whether that went well.
    Fill { selector: String, value: String, next: AfterFill },
    /// Nothing: this is the outcome.
    Done { outcome: Result<String, String> },
}

/// The content of a `Step`.
#[allow(inconsistent_fields)]
pub enum StepView {
    Call { method: Seq<char>, params: JsonView, next: AfterCallView },
    Sleep { millis: u64, next: AfterSleepView },
    Clock { next: AfterClock },
    Fill { selector: Seq<char>, value: Seq<char>, form: FormFillingView },
    Done { outcome: Result<Seq<char>, Seq<char>> },
}

impl View for Step {
    type V = StepView;

    open spec fn view(&self) -> StepView {
        match self {
            Step::Call { method, params, next } => StepView::Call {
                method: method@,
                params: params@,
                next: next@,
            },
            Step::Sleep { millis, next } => StepView::Sleep { millis: *millis, next: next@ },
            Step::Clock { next } => StepView::Clock { next: *next },
            Step::Fill { selector, value, next } => StepView::Fill {
                selector: selector@,
                value: value@,
                form: next.form@,
            },
            Step::Done { outcome } => StepView::Done { outcome: outcome_text(*outcome) },
        }
    }
}

impl StepView {
    /// The JSON values inside are well-formed, and counters are in their range.
    pub open spec fn wf(self) -> bool {
        match self {
            StepView::Call { params, next, .. } => params.wf() && next.wf(),
            StepView::Sleep { next, .. } => next.wf(),
            StepView::Fill { form, .. } => form.trying(),
            _ => true,
        }
    }
}

/// A reply is well-formed: its value, if it has one, is.
pub open spec fn reply_wf(reply: Result<JsonView, Seq<char>>) -> bool {
    match reply {
        Ok(value) => value.wf(),
        Err(_) => true,
    }
}

} // verus!
