//! Opening a page and waiting until it is loaded.

use vstd::prelude::*;

use crate::json::{lemma_one_member_wf, object_of_one, Json, JsonView};
use crate::reply::{
    evaluate, evaluation, read_returned_text, read_returned_text_or, result_text, returned_text,
    returned_text_or,
};
use crate::scripts;
use crate::step::{
    AfterCall, AfterCallView, AfterSleep, AfterSleepView, Dialect, Step, StepView, MAX_POLLS,
};
use crate::text::same_text;

verus! {

/// How long the page is left alone between two looks at it, in milliseconds.
pub const SETTLE_MILLIS: u64 = 200;

/// The step that opens an address.
pub open spec fn navigation(dialect: Dialect, url: Seq<char>) -> StepView {
    StepView::Call {
        method: "Page.navigate"@,
        params: JsonView::Object(seq![("url"@, JsonView::Str(url))]),
        next: AfterCallView::Opened { dialect, url },
    }
}

/// The page is left alone for a while before it is asked whether it is loaded.
pub open spec fn settling(dialect: Dialect, url: Seq<char>, polls: u32) -> StepView {
    StepView::Sleep {
        millis: SETTLE_MILLIS,
        next: AfterSleepView::Settled { dialect, url, polls },
    }
}

/// What follows when the page has been told to open the address.
pub open spec fn after_opening(
    dialect: Dialect,
    url: Seq<char>,
    reply: Result<JsonView, Seq<char>>,
) -> StepView {
    match reply {
        Ok(_) => settling(dialect, url, 0),
        Err(message) => StepView::Done {
            outcome: Err(
                match dialect {
                    Dialect::Backend => "Page.navigate failed for "@ + url,
                    Dialect::Session => message,
                },
            ),
        },
    }
}

/// What follows when the page has been left alone for a while.
pub open spec fn after_settling(dialect: Dialect, url: Seq<char>, polls: u32) -> StepView {
    evaluation(scripts::READY_STATE@, AfterCallView::Polled { dialect, url, polls })
}

/// The page says that it is loaded. A failed call says nothing.
pub open spec fn says_complete(dialect: Dialect, reply: Result<JsonView, Seq<char>>) -> bool {
    match reply {
        Ok(value) => returned_text(dialect, value) == Some("complete"@),
        Err(_) => false,
    }
}

/// What follows when the page has been asked whether it is loaded: the title,
/// once it is loaded or has been asked often enough.
pub open spec fn after_polling(
    dialect: Dialect,
    url: Seq<char>,
    polls: u32,
    reply: Result<JsonView, Seq<char>>,
) -> StepView {
    if says_complete(dialect, reply) || polls + 1 >= MAX_POLLS {
        evaluation(scripts::TITLE@, AfterCallView::Titled { dialect, url })
    } else {
        settling(dialect, url, (polls + 1) as u32)
    }
}

/// The report on a page that was opened.
pub open spec fn navigation_report(
    dialect: Dialect,
    url: Seq<char>,
    reply: Result<JsonView, Seq<char>>,
) -> Seq<char> {
    let title = match reply {
        Ok(value) => returned_text_or(dialect, value, "(no title)"@),
        Err(_) => "(no title)"@,
    };
    "Navigated to: "@ + url + "\nTitle: "@ + title
}

/// The step that opens an address.
pub fn navigate(dialect: Dialect, url: &str) -> (step: Step)
    ensures
        step@ == navigation(dialect, url@),
        step@.wf(),
{
    proof {
        lemma_one_member_wf(("url"@, JsonView::Str(url@)));
    }
    Step::Call {
        method: "Page.navigate".to_owned(),
        params: object_of_one("url", Json::Str(url.to_owned())),
        next: AfterCall::Opened { dialect, url: url.to_owned() },
    }
}

/// What follows when the page has been told to open the address.
pub fn opened(dialect: Dialect, url: String, reply: Result<Json, String>) -> (step: Step)
    ensures
        step@ == after_opening(dialect, url@, crate::json::json_outcome(reply)),
        step@.wf(),
{
    match reply {
        Ok(_) => Step::Sleep {
            millis: SETTLE_MILLIS,
            next: AfterSleep::Settled { dialect, url, polls: 0 },
        },
        Err(message) => Step::Done {
            outcome: Err(
                match dialect {
                    Dialect::Backend => "Page.navigate failed for ".to_owned().concat(url.as_str()),
                    Dialect::Session => message,
                },
            ),
        },
    }
}

/// What follows when the page has been left alone for a while.
pub fn settled(dialect: Dialect, url: String, polls: u32) -> (step: Step)
    requires
        polls < MAX_POLLS,
    ensures
        step@ == after_settling(dialect, url@, polls),
        step@.wf(),
{
    evaluate(scripts::READY_STATE.to_owned(), AfterCall::Polled { dialect, url, polls })
}

/// What follows when the page has been asked whether it is loaded.
pub fn polled(dialect: Dialect, url: String, polls: u32, reply: Result<Json, String>) -> (step:
    Step)
    requires
        polls < MAX_POLLS,
    ensures
        step@ == after_polling(dialect, url@, polls, crate::json::json_outcome(reply)),
        step@.wf(),
{
    let complete = match &reply {
        Ok(value) => match read_returned_text(dialect, value) {
            Some(state) => same_text(state, "complete"),
            None => false,
        },
        Err(_) => false,
    };
    if complete || polls + 1 >= MAX_POLLS {
        evaluate(scripts::TITLE.to_owned(), AfterCall::Titled { dialect, url })
    } else {
        Step::Sleep {
            millis: SETTLE_MILLIS,
            next: AfterSleep::Settled { dialect, url, polls: polls + 1 },
        }
    }
}

/// The outcome when the title of the page has been asked for.
pub fn titled(dialect: Dialect, url: &str, reply: Result<Json, String>) -> (step: Step)
    ensures
        step@ == (StepView::Done {
            outcome: Ok(navigation_report(dialect, url@, crate::json::json_outcome(reply))),
        }),
{
    let title = match reply {
        Ok(value) => read_returned_text_or(dialect, &value, "(no title)"),
        Err(_) => "(no title)".to_owned(),
    };
    Step::Done {
        outcome: Ok(
            "Navigated to: ".to_owned().concat(url).concat("\nTitle: ").concat(title.as_str()),
        ),
    }
}

/// Opening a page fails only where the browser refuses to open it: once it has
/// been told to, every answer leads on to the report.
pub proof fn law_opened_page_is_reported(
    dialect: Dialect,
    url: Seq<char>,
    polls: u32,
    reply: Result<JsonView, Seq<char>>,
)
    ensures
        after_opening(dialect, url, reply) is Done <==> reply is Err,
        !(after_settling(dialect, url, polls) is Done),
        !(after_polling(dialect, url, polls, reply) is Done),
{
}

/// The report names the address that was asked for.
pub proof fn law_report_names_the_address(
    dialect: Dialect,
    url: Seq<char>,
    reply: Result<JsonView, Seq<char>>,
)
    ensures
        ("Navigated to: "@ + url).is_prefix_of(navigation_report(dialect, url, reply)),
{
}

/// A page that says it is loaded is asked for its title at once, and the title
/// that it gives is reported.
pub proof fn law_title_of_a_loaded_page_is_reported(
    dialect: Dialect,
    url: Seq<char>,
    polls: u32,
    state: JsonView,
    reply: JsonView,
    title: Seq<char>,
)
    requires
        result_text(state) == Some("complete"@),
        result_text(reply) == Some(title),
    ensures
        after_polling(dialect, url, polls, Ok(state)) == evaluation(
            scripts::TITLE@,
            AfterCallView::Titled { dialect, url },
        ),
        navigation_report(dialect, url, Ok(reply)) == "Navigated to: "@ + url + "\nTitle: "@ + title,
{
}

} // verus!
