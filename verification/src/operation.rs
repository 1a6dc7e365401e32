//! Going on with an operation when an answer has come, and why every operation
//! comes to an end.

use vstd::prelude::*;

use crate::form::{
    after_discovery, after_filling, after_submitting, discovered, first_candidate,
    form_outcome, next_on_form, rested, submitted, tried,
};
use crate::idle::{after_counting, counted, paused};
use crate::json::{json_outcome, json_parsed, Json, JsonView};
use crate::navigation::{
    after_opening, after_polling, after_settling, navigation_report, opened, polled, settled,
    titled,
};
use crate::page::{after_enabling, network_enabled};
use crate::page_text::{after_reading, text_read};
use crate::reply::{evaluation, text_outcome, text_returned};
use crate::scripts;
use crate::state::{
    after_cookies, after_storage, cookies_read, restore_next, restoring, storage_read,
};
use crate::step::{
    reply_wf, AfterCall, AfterCallView, AfterSleep, AfterSleepView, FormFillingView, Step,
    StepView, MAX_POLLS,
};

verus! {

/// What follows when the reply to a call has come.
pub open spec fn after_call(next: AfterCallView, reply: Result<JsonView, Seq<char>>) -> StepView {
    match next {
        AfterCallView::Text { dialect, fallback } => StepView::Done {
            outcome: text_outcome(dialect, fallback, reply),
        },
        AfterCallView::PageText { dialect } => after_reading(dialect, reply),
        AfterCallView::Opened { dialect, url } => after_opening(dialect, url, reply),
        AfterCallView::Polled { dialect, url, polls } => after_polling(dialect, url, polls, reply),
        AfterCallView::Titled { dialect, url } => StepView::Done {
            outcome: Ok(navigation_report(dialect, url, reply)),
        },
        AfterCallView::Discovered { dialect, data, submit } => after_discovery(
            dialect,
            data,
            submit,
            reply,
        ),
        AfterCallView::Filled { form } => after_filling(form, reply is Ok),
        AfterCallView::Submitted { form } => after_submitting(form, reply is Ok),
        AfterCallView::Counted { wait } => after_counting(wait, reply),
        AfterCallView::CookiesRead => after_cookies(reply),
        AfterCallView::StorageRead { cookies } => after_storage(cookies, reply),
        AfterCallView::Restoring { calls } => restoring(calls),
        AfterCallView::Intercepting { pattern } => after_enabling(pattern, reply),
    }
}

/// What follows after a pause.
pub open spec fn after_sleep(next: AfterSleepView) -> StepView {
    match next {
        AfterSleepView::Settled { dialect, url, polls } => after_settling(dialect, url, polls),
        AfterSleepView::Rested { form } => form_outcome(form, true),
        AfterSleepView::Paused { wait } => evaluation(
            scripts::PENDING_REQUESTS@,
            AfterCallView::Counted { wait },
        ),
    }
}

impl AfterCall {
    /// Goes on with the reply to the call.
    pub fn resume(self, reply: Result<Json, String>) -> (step: Step)
        requires
            self@.wf(),
            reply_wf(json_outcome(reply)),
        ensures
            step@ == after_call(self@, json_outcome(reply)),
            step@.wf(),
    {
        match self {
            AfterCall::Text { dialect, fallback } => text_returned(
                dialect,
                fallback.as_str(),
                reply,
            ),
            AfterCall::PageText { dialect } => text_read(dialect, reply),
            AfterCall::Opened { dialect, url } => opened(dialect, url, reply),
            AfterCall::Polled { dialect, url, polls } => polled(dialect, url, polls, reply),
            AfterCall::Titled { dialect, url } => titled(dialect, url.as_str(), reply),
            AfterCall::Discovered { dialect, data, submit } => discovered(
                dialect,
                data,
                submit,
                reply,
            ),
            AfterCall::Filled { form } => tried(form, reply.is_ok()),
            AfterCall::Submitted { form } => submitted(form, reply),
            AfterCall::Counted { wait } => counted(wait, reply),
            AfterCall::CookiesRead => cookies_read(reply),
            AfterCall::StorageRead { cookies } => storage_read(cookies, reply),
            AfterCall::Restoring { calls } => restore_next(calls),
            AfterCall::Intercepting { pattern } => network_enabled(pattern.as_str(), reply),
        }
    }
}

impl AfterSleep {
    /// Goes on after the pause.
    pub fn resume(self) -> (step: Step)
        requires
            self@.wf(),
        ensures
            step@ == after_sleep(self@),
            step@.wf(),
    {
        match self {
            AfterSleep::Settled { dialect, url, polls } => settled(dialect, url, polls),
            AfterSleep::Rested { form } => rested(form),
            AfterSleep::Paused { wait } => paused(wait),
        }
    }
}

/// A step of a wait for a silent network, whose end depends on the clock.
pub open spec fn is_waiting(step: StepView) -> bool {
    match step {
        StepView::Clock { .. } => true,
        StepView::Call { next: AfterCallView::Counted { .. }, .. } => true,
        StepView::Sleep { next: AfterSleepView::Paused { .. }, .. } => true,
        _ => false,
    }
}

/// How many attempts the filling of a form can still take, and two steps for
/// its end.
pub open spec fn form_rank(form: FormFillingView) -> nat {
    ((form.entries.len() - form.verdicts.len()) * (form.fields.len() + 1) + 2
        - form.field) as nat
}

/// Whether the page has still to say what its forms are.
pub open spec fn phase(step: StepView) -> nat {
    match step {
        StepView::Call { next: AfterCallView::Discovered { .. }, .. } => 1,
        _ => 0,
    }
}

/// How many answers a step can still take.
pub open spec fn rank(step: StepView) -> nat {
    match step {
        StepView::Call { next, .. } => match next {
            AfterCallView::Opened { .. } => (2 * MAX_POLLS + 2) as nat,
            AfterCallView::Polled { polls, .. } => (2 * (MAX_POLLS - polls)) as nat,
            AfterCallView::Filled { form } => form_rank(form),
            AfterCallView::Submitted { .. } => 2,
            AfterCallView::CookiesRead => 2,
            AfterCallView::Restoring { calls } => calls.len() + 1,
            AfterCallView::Intercepting { .. } => 2,
            _ => 1,
        },
        StepView::Sleep { next, .. } => match next {
            AfterSleepView::Settled { polls, .. } => (2 * (MAX_POLLS - polls) + 1) as nat,
            _ => 1,
        },
        StepView::Fill { form, .. } => form_rank(form),
        StepView::Clock { .. } => 1,
        StepView::Done { .. } => 0,
    }
}

/// A step is nearer to the end of its operation than another.
pub open spec fn is_nearer(step: StepView, other: StepView) -> bool {
    phase(step) < phase(other) || (phase(step) == phase(other) && rank(step) < rank(other))
}

/// What a form leads to takes fewer attempts than the form.
proof fn lemma_form_rank(form: FormFillingView)
    requires
        form.verdicts.len() <= form.entries.len(),
        form.field <= form.fields.len(),
        form.decided() ==> form.field == 0,
    ensures
        phase(next_on_form(form)) == 0,
        !is_waiting(next_on_form(form)),
        rank(next_on_form(form)) <= form_rank(form),
    decreases form.entries.len() - form.verdicts.len(),
{
    let left = form.entries.len() - form.verdicts.len();
    let width = form.fields.len() + 1;
    if left > 0 {
        assert(left * width == (left - 1) * width + width) by (nonlinear_arith)
            requires
                left > 0,
        ;
        assert((left - 1) * width >= 0) by (nonlinear_arith)
            requires
                left > 0,
                width > 0,
        ;
        let key = form.entries[form.verdicts.len() as int].0;
        crate::form::lemma_first_candidate(form.dialect, key, form.fields, form.field);
        if first_candidate(form.dialect, key, form.fields, form.field) is None {
            let skipped = FormFillingView {
                verdicts: form.verdicts.push(false),
                field: 0,
                ..form
            };
            lemma_form_rank(skipped);
        }
    } else {
        assert(left * width == 0) by (nonlinear_arith)
            requires
                left == 0,
        ;
    }
}

/// Trying a field brings the filling of a form nearer to its end.
proof fn lemma_filling_is_nearer(form: FormFillingView, filled: bool)
    requires
        form.trying(),
    ensures
        phase(after_filling(form, filled)) == 0,
        !is_waiting(after_filling(form, filled)),
        rank(after_filling(form, filled)) < form_rank(form),
{
    let left = form.entries.len() - form.verdicts.len();
    let width = form.fields.len() + 1;
    assert(left * width == (left - 1) * width + width) by (nonlinear_arith)
        requires
            left > 0,
    ;
    assert((left - 1) * width >= 0) by (nonlinear_arith)
        requires
            left > 0,
            width > 0,
    ;
    if filled {
        lemma_form_rank(
            FormFillingView { verdicts: form.verdicts.push(true), field: 0, ..form },
        );
    } else {
        lemma_form_rank(FormFillingView { field: form.field + 1, ..form });
    }
}

/// Every reply brings an operation nearer to its end, whatever the reply says.
/// So an operation ends after finitely many replies; the one exception is the
/// wait for a silent network, whose end is up to the clock.
pub proof fn law_replies_bring_the_end_nearer(
    method: Seq<char>,
    params: JsonView,
    next: AfterCallView,
    reply: Result<JsonView, Seq<char>>,
)
    requires
        next.wf(),
        !is_waiting(StepView::Call { method, params, next }),
    ensures
        is_nearer(after_call(next, reply), StepView::Call { method, params, next }),
        !is_waiting(after_call(next, reply)),
{
    match next {
        AfterCallView::Filled { form } => {
            lemma_filling_is_nearer(form, reply is Ok);
        },
        AfterCallView::Discovered { dialect, data, submit } => {
            if let Ok(value) = reply {
                if let Ok(JsonView::Array(forms)) = json_parsed(
                    crate::reply::returned_text_or(dialect, value, "[]"@),
                ) {
                    if let Some(JsonView::Array(fields)) = forms[0].get("fields"@) {
                        if let JsonView::Object(members) = data {
                            lemma_form_rank(
                                crate::form::fresh_form(dialect, fields, members, submit),
                            );
                        }
                    }
                }
            }
        },
        _ => {},
    }
}

/// Every pause brings an operation nearer to its end.
pub proof fn law_pauses_bring_the_end_nearer(millis: u64, next: AfterSleepView)
    requires
        next.wf(),
        !is_waiting(StepView::Sleep { millis, next }),
    ensures
        is_nearer(after_sleep(next), StepView::Sleep { millis, next }),
        !is_waiting(after_sleep(next)),
{
}

/// Every attempt of the caller to fill a field brings the filling of the form
/// nearer to its end.
pub proof fn law_attempts_bring_the_end_nearer(
    selector: Seq<char>,
    value: Seq<char>,
    form: FormFillingView,
    filled: bool,
)
    requires
        form.trying(),
    ensures
        is_nearer(after_filling(form, filled), StepView::Fill { selector, value, form }),
        !is_waiting(after_filling(form, filled)),
{
    lemma_filling_is_nearer(form, filled);
}

} // verus!
