//! Whole operations: what a command has the browser do, and what is told of it.

use vstd::prelude::*;
use vstd::utf8::encode_utf8;

use crate::command::{operation, BrowserCmdView};
use crate::idle::after_clock;
use crate::json::{json_parsed, json_text, quoted, JsonView};
use crate::literal::{literal_at, singly_quoted};
use crate::navigation::{navigation, settling};
use crate::operation::{after_call, after_sleep};
use crate::page::{
    click_script, diff_script, fill_script, inspect_script, intercept_script,
    law_click_script_holds_its_selector, law_diff_script_holds_its_selector,
    law_fill_script_holds_selector_and_value, law_intercept_script_holds_its_pattern,
    law_table_script_holds_its_selector, numbered_click_script, semantic_data_script,
    structure_script, table_script,
};
use crate::page_text::{lemma_cut, longest_beginning};
use crate::reply::{evaluate_params, evaluation, script_outcome, text_query};
use crate::scripts;
use crate::state::{
    law_store_script_holds_key_and_value, lemma_saved_members, restore_calls, restoring,
    saved_state, saving, store_call,
};
use crate::step::{
    AfterCallView, AfterClock, AfterSleepView, Dialect, IdleWait, PlannedCallView, StepView,
};
use crate::text::{decimal, digits_value, law_decimal_stands_for_its_number};
use crate::tools;

verus! {

/// The script that a step has the page run, where it has its value handed over.
pub open spec fn script_in(step: StepView) -> Option<Seq<char>> {
    match step {
        StepView::Call { method, params, .. } => if method == "Runtime.evaluate"@
            && params is Object && params->Object_0.len() == 2 && params.get("returnByValue"@)
            == Some(JsonView::Bool(true)) {
            match params.get("expression"@) {
                Some(JsonView::Str(script)) => Some(script),
                _ => None,
            }
        } else {
            None
        },
        _ => None,
    }
}

/// A reply to an evaluation says a text: the text is the value of its result.
pub open spec fn says(reply: JsonView, text: Seq<char>) -> bool {
    reply.get("result"@) matches Some(result) && result.get("value"@) == Some(
        JsonView::Str(text),
    )
}

/// A reply to an evaluation says no text, neither in a result nor bare.
pub open spec fn is_mute(reply: JsonView) -> bool {
    &&& match reply.get("result"@) {
        Some(result) => !(result.get("value"@) matches Some(JsonView::Str(_))),
        None => true,
    }
    &&& !(reply.get("value"@) matches Some(JsonView::Str(_)))
}

/// What follows when a step is answered with a reply.
pub open spec fn answered(step: StepView, reply: Result<JsonView, Seq<char>>) -> StepView {
    match step {
        StepView::Call { next, .. } => after_call(next, reply),
        _ => step,
    }
}

/// A step after the pause that it asks for.
pub open spec fn resumed(step: StepView) -> StepView {
    match step {
        StepView::Sleep { next, .. } => after_sleep(next),
        _ => step,
    }
}

/// Where an operation stands when its calls have been answered with these
/// replies and its pauses are over.
pub open spec fn run(step: StepView, replies: Seq<Result<JsonView, Seq<char>>>) -> StepView
    decreases replies.len(),
{
    if replies.len() == 0 {
        resumed(step)
    } else {
        match resumed(step) {
            StepView::Call { next, .. } => run(after_call(next, replies[0]), replies.skip(1)),
            other => other,
        }
    }
}

/// A step makes a call.
pub open spec fn makes_call(step: StepView, called: Seq<char>, given: JsonView) -> bool {
    match step {
        StepView::Call { method, params, .. } => method == called && params == given,
        _ => false,
    }
}

/// An evaluation runs its script.
pub proof fn lemma_evaluation_runs(script: Seq<char>, next: AfterCallView)
    ensures
        script_in(evaluation(script, next)) == Some(script),
        forall|reply: Result<JsonView, Seq<char>>| #[trigger]
            answered(evaluation(script, next), reply) == after_call(next, reply),
{
    reveal_strlit("expression");
    reveal_strlit("returnByValue");
    assert("expression"@.len() != "returnByValue"@.len());
    reveal_with_fuel(crate::json::member, 3);
    let members = evaluate_params(script)->Object_0;
    assert(members.skip(1)[0] == ("returnByValue"@, JsonView::Bool(true)));
}

/// The commands that run one script and pass its text on.
pub open spec fn is_query(cmd: BrowserCmdView) -> bool {
    match cmd {
        BrowserCmdView::Click { .. } => true,
        BrowserCmdView::Fill { .. } => true,
        BrowserCmdView::InspectForm => true,
        BrowserCmdView::GetPageStructure => true,
        BrowserCmdView::ExtractSemanticData { .. } => true,
        BrowserCmdView::GetInteractiveElements => true,
        BrowserCmdView::ClickById { .. } => true,
        BrowserCmdView::CheckBlockers => true,
        BrowserCmdView::GetElementDiff { .. } => true,
        BrowserCmdView::ExtractTableToJson { .. } => true,
        BrowserCmdView::GetInterceptedResponses => true,
        _ => false,
    }
}

/// What a query tells where the page says nothing.
pub open spec fn empty_answer(cmd: BrowserCmdView) -> Seq<char> {
    match cmd {
        BrowserCmdView::Click { .. } => "Click executed"@,
        BrowserCmdView::ClickById { .. } => "Click executed"@,
        BrowserCmdView::Fill { .. } => "Field filled"@,
        BrowserCmdView::InspectForm => "[]"@,
        BrowserCmdView::GetInteractiveElements => "[]"@,
        _ => "{}"@,
    }
}

/// A query tells exactly the text that the page says, its own empty answer where
/// the page says none, and the message of a call that fails.
pub proof fn law_queries_tell_what_the_page_says(
    cmd: BrowserCmdView,
    reply: JsonView,
    text: Seq<char>,
)
    requires
        is_query(cmd),
    ensures
        operation(cmd) matches Some(step) && {
            &&& says(reply, text) ==> answered(step, Ok(reply)) == (StepView::Done {
                outcome: Ok(text),
            })
            &&& is_mute(reply) || reply.get("result"@) is None ==> answered(step, Ok(reply)) == (
            StepView::Done { outcome: Ok(empty_answer(cmd)) })
            &&& answered(step, Err(text)) == (StepView::Done { outcome: Err(text) })
        },
{
}

/// On a session too, a query tells exactly the text that the page says.
pub proof fn law_session_queries_tell_what_the_page_says(
    script: Seq<char>,
    fallback: Seq<char>,
    reply: JsonView,
    text: Seq<char>,
)
    ensures
        ({
            let step = text_query(Dialect::Session, script, fallback);
            &&& script_in(step) == Some(script)
            &&& says(reply, text) ==> answered(step, Ok(reply)) == (StepView::Done {
                outcome: Ok(text),
            })
            &&& reply.get("result"@) is None && reply.get("value"@) == Some(JsonView::Str(text))
                ==> answered(step, Ok(reply)) == (StepView::Done { outcome: Ok(text) })
            &&& is_mute(reply) ==> answered(step, Ok(reply)) == (StepView::Done {
                outcome: Ok(fallback),
            })
            &&& answered(step, Err(text)) == (StepView::Done { outcome: Err(text) })
        }),
{
    lemma_evaluation_runs(script, AfterCallView::Text { dialect: Dialect::Session, fallback });
}

/// A script is made of a head, a middle part and a tail.
pub open spec fn is_framed(
    script: Seq<char>,
    head: Seq<char>,
    middle: Seq<char>,
    tail: Seq<char>,
) -> bool {
    script == head + middle + tail
}

/// A click command runs the click script on exactly its selector.
pub proof fn law_click_is_on_its_selector(selector: Seq<char>)
    ensures
        operation(BrowserCmdView::Click { selector }) matches Some(step) && script_in(step) matches
            Some(script) && is_framed(
            script,
            scripts::CLICK_HEAD@,
            quoted(selector),
            scripts::CLICK_TAIL@,
        ) && literal_at(script, scripts::CLICK_HEAD@.len() as int) == Some(selector),
{
    let dialect = Dialect::Backend;
    lemma_evaluation_runs(
        click_script(dialect, selector),
        AfterCallView::Text { dialect, fallback: "Click executed"@ },
    );
    law_click_script_holds_its_selector(dialect, selector);
}

/// A fill command runs the fill script on exactly its selector and its value.
pub proof fn law_fill_is_of_its_selector_and_value(selector: Seq<char>, value: Seq<char>)
    ensures
        operation(BrowserCmdView::Fill { selector, value }) matches Some(step) && script_in(
            step,
        ) matches Some(script) && script == scripts::FILL_HEAD@ + quoted(selector)
            + scripts::FILL_MIDDLE@ + quoted(value) + scripts::FILL_TAIL@ && literal_at(
            script,
            scripts::FILL_HEAD@.len() as int,
        ) == Some(selector) && literal_at(
            script,
            (scripts::FILL_HEAD@.len() + quoted(selector).len() + scripts::FILL_MIDDLE@.len()) as int,
        ) == Some(value),
{
    let dialect = Dialect::Backend;
    lemma_evaluation_runs(
        fill_script(dialect, selector, value),
        AfterCallView::Text { dialect, fallback: "Field filled"@ },
    );
    law_fill_script_holds_selector_and_value(dialect, selector, value);
}

/// The commands without parameters run their own scripts.
pub proof fn law_plain_commands_run_their_scripts()
    ensures
        operation(BrowserCmdView::InspectForm) matches Some(step) && script_in(step) == Some(
            scripts::INSPECT_FORM@,
        ),
        operation(BrowserCmdView::GetPageStructure) matches Some(step) && script_in(step) == Some(
            scripts::PAGE_STRUCTURE@,
        ),
        operation(BrowserCmdView::GetInteractiveElements) matches Some(step) && script_in(step)
            == Some(scripts::INTERACTIVE_ELEMENTS@),
        operation(BrowserCmdView::CheckBlockers) matches Some(step) && script_in(step) == Some(
            scripts::CHECK_BLOCKERS@,
        ),
        operation(BrowserCmdView::GetInterceptedResponses) matches Some(step) && script_in(step)
            == Some(scripts::INTERCEPTED_RESPONSES@),
        operation(BrowserCmdView::PageText) matches Some(step) && script_in(step) == Some(
            "document.body ? document.body.innerText : ''"@,
        ),
{
    let dialect = Dialect::Backend;
    let list = AfterCallView::Text { dialect, fallback: "[]"@ };
    let object = AfterCallView::Text { dialect, fallback: "{}"@ };
    lemma_evaluation_runs(scripts::INSPECT_FORM@, list);
    lemma_evaluation_runs(scripts::PAGE_STRUCTURE@, object);
    lemma_evaluation_runs(scripts::INTERACTIVE_ELEMENTS@, list);
    lemma_evaluation_runs(scripts::CHECK_BLOCKERS@, object);
    lemma_evaluation_runs(scripts::INTERCEPTED_RESPONSES@, object);
    lemma_evaluation_runs(scripts::BODY_TEXT@, AfterCallView::PageText { dialect });
}

/// A click by number looks for exactly that number, in decimal digits.
pub proof fn law_click_by_id_is_on_its_number(id: u32)
    ensures
        operation(BrowserCmdView::ClickById { id }) matches Some(step) && script_in(step) matches
            Some(script) && exists|digits: Seq<char>|
            #![trigger digits_value(digits)]
            digits_value(digits) == id && (forall|i: int|
                0 <= i < digits.len() ==> '0' <= #[trigger] digits[i] <= '9') && (digits[0] == '0'
                ==> id == 0) && script == scripts::CLICK_BY_ID_HEAD@ + digits
                + scripts::CLICK_BY_ID_MIDDLE@ + digits + scripts::CLICK_BY_ID_TAIL@,
{
    let dialect = Dialect::Backend;
    lemma_evaluation_runs(
        numbered_click_script(id),
        AfterCallView::Text { dialect, fallback: "Click executed"@ },
    );
    law_decimal_stands_for_its_number(id as nat);
    assert(digits_value(decimal(id as nat)) == id);
}

/// The extraction script is given exactly the list of keys, in their order.
pub proof fn law_semantic_data_is_looked_for_by_its_keys(dialect: Dialect, keys: Seq<Seq<char>>)
    ensures
        operation(BrowserCmdView::ExtractSemanticData { keys }) matches Some(step) && script_in(
            step,
        ) == Some(
            scripts::SEMANTIC_DATA_HEAD@ + json_text(
                JsonView::Array(Seq::new(keys.len(), |i: int| JsonView::Str(keys[i]))),
            ) + scripts::SEMANTIC_DATA_TAIL@,
        ),
        semantic_data_script(Dialect::Session, keys)
            == tools::scripts::SEMANTIC_DATA_HEAD@ + json_text(
            JsonView::Array(Seq::new(keys.len(), |i: int| JsonView::Str(keys[i]))),
        ) + tools::scripts::SEMANTIC_DATA_TAIL@,
{
    assert(crate::json::string_array(keys)->Array_0 == Seq::new(
        keys.len(),
        |i: int| JsonView::Str(keys[i]),
    ));
    lemma_evaluation_runs(
        semantic_data_script(Dialect::Backend, keys),
        AfterCallView::Text { dialect: Dialect::Backend, fallback: "{}"@ },
    );
}

/// A comparison is of exactly the elements that its selector finds.
pub proof fn law_diff_is_of_its_selector(selector: Seq<char>)
    ensures
        operation(BrowserCmdView::GetElementDiff { selector }) matches Some(step) && script_in(
            step,
        ) matches Some(script) && is_framed(
            script,
            scripts::ELEMENT_DIFF_HEAD@,
            singly_quoted(selector),
            scripts::ELEMENT_DIFF_TAIL@,
        ) && literal_at(script, scripts::ELEMENT_DIFF_HEAD@.len() as int) == Some(selector),
{
    lemma_evaluation_runs(
        diff_script(selector),
        AfterCallView::Text { dialect: Dialect::Backend, fallback: "{}"@ },
    );
    law_diff_script_holds_its_selector(selector);
}

/// A table is read where its selector finds it, the first of the page where no
/// selector is given.
pub proof fn law_table_is_read_where_asked(selector: Seq<char>)
    ensures
        operation(BrowserCmdView::ExtractTableToJson { selector: Some(selector) }) matches Some(
            step,
        ) && script_in(step) matches Some(script) && is_framed(
            script,
            scripts::TABLE_HEAD@,
            singly_quoted(selector),
            scripts::TABLE_TAIL@,
        ) && literal_at(script, scripts::TABLE_HEAD@.len() as int) == Some(selector),
        operation(BrowserCmdView::ExtractTableToJson { selector: None }) matches Some(step)
            && script_in(step) matches Some(script) && is_framed(
            script,
            scripts::TABLE_HEAD@,
            singly_quoted("table"@),
            scripts::TABLE_TAIL@,
        ) && literal_at(script, scripts::TABLE_HEAD@.len() as int) == Some("table"@),
{
    let next = AfterCallView::Text { dialect: Dialect::Backend, fallback: "{}"@ };
    lemma_evaluation_runs(table_script(Some(selector)), next);
    lemma_evaluation_runs(table_script(None), next);
    law_table_script_holds_its_selector(Some(selector));
    law_table_script_holds_its_selector(None);
}

/// Interception switches the network events on first. Only when that has gone
/// well is the page given the pattern, exactly as it was asked for; else the
/// message is passed on and the page is not touched.
pub proof fn law_interception_is_of_its_pattern(
    url_pattern: Seq<char>,
    reply: JsonView,
    answer: JsonView,
    message: Seq<char>,
)
    ensures
        operation(BrowserCmdView::InterceptApiResponse { url_pattern }) matches Some(step)
            && step matches StepView::Call { method, params, .. } && method == "Network.enable"@
            && params == JsonView::Object(Seq::empty()) && {
            &&& answered(step, Err(message)) == (StepView::Done { outcome: Err(message) })
            &&& script_in(answered(step, Ok(reply))) matches Some(script)
            &&& is_framed(
                script,
                scripts::INTERCEPT_HEAD@,
                singly_quoted(url_pattern),
                scripts::INTERCEPT_TAIL@,
            )
            &&& literal_at(script, scripts::INTERCEPT_HEAD@.len() as int) == Some(url_pattern)
            &&& says(answer, message) ==> answered(answered(step, Ok(reply)), Ok(answer)) == (
            StepView::Done { outcome: Ok(message) })
        },
{
    let next = AfterCallView::Text { dialect: Dialect::Backend, fallback: "{}"@ };
    lemma_evaluation_runs(intercept_script(url_pattern), next);
    law_intercept_script_holds_its_pattern(url_pattern);
}

/// Reading a page tells the text that the page says, character for character: a
/// short text whole, a long one up to the last character that fits into eight
/// thousand bytes, with a note of how many bytes the whole has. This holds on
/// the backend and on a session.
pub proof fn law_page_text_is_what_the_page_says(
    dialect: Dialect,
    reply: JsonView,
    text: Seq<char>,
)
    requires
        says(reply, text),
    ensures
        ({
            let told = after_call(AfterCallView::PageText { dialect }, Ok(reply));
            &&& text.len() == 0 ==> told == (StepView::Done {
                outcome: Ok("Page has no visible text content."@),
            })
            &&& text.len() > 0 && encode_utf8(text).len() <= 8000 ==> told == (StepView::Done {
                outcome: Ok(text),
            })
            &&& encode_utf8(text).len() > 8000 ==> exists|kept: int, digits: Seq<char>|
                #![trigger text.take(kept), digits_value(digits)]
                0 <= kept < text.len() && encode_utf8(text.take(kept)).len() <= 8000
                    && encode_utf8(text.take(kept + 1)).len() > 8000 && digits_value(digits)
                    == encode_utf8(text).len() && digits[0] != '0' && told == (StepView::Done {
                    outcome: Ok(
                        text.take(kept) + "\n[truncated — "@ + digits + " chars total]"@,
                    ),
                })
        }),
{
    if encode_utf8(text).len() > 8000 {
        lemma_cut(text, 8000);
        let kept = longest_beginning(text, 8000).len() as int;
        law_decimal_stands_for_its_number(encode_utf8(text).len());
        let digits = decimal(encode_utf8(text).len());
        assert(text.take(kept) == longest_beginning(text, 8000));
        assert(digits_value(digits) == encode_utf8(text).len());
    }
}

/// A page that says no text, and a call that fails, are told as such.
pub proof fn law_page_without_text_is_told(
    dialect: Dialect,
    reply: JsonView,
    message: Seq<char>,
)
    ensures
        is_mute(reply) ==> after_call(AfterCallView::PageText { dialect }, Ok(reply)) == (
        StepView::Done { outcome: Ok("Page has no visible text content."@) }),
        after_call(AfterCallView::PageText { dialect }, Err(message)) == (StepView::Done {
            outcome: Err(message),
        }),
{
    reveal_strlit("");
}

/// Opening an address sends the browser to exactly that address.
pub proof fn law_navigation_goes_to_its_address(dialect: Dialect, url: Seq<char>)
    ensures
        navigation(dialect, url) matches StepView::Call { method, params, .. } && method
            == "Page.navigate"@ && params is Object && params->Object_0.len() == 1 && params.get(
            "url"@,
        ) == Some(JsonView::Str(url)),
        operation(BrowserCmdView::Navigate { url }) == Some(
            navigation(Dialect::Backend, url),
        ),
{
    reveal_with_fuel(crate::json::member, 2);
}

/// A reply says that the page is loaded.
pub open spec fn is_loaded(reply: Result<JsonView, Seq<char>>) -> bool {
    match reply {
        Ok(value) => says(value, "complete"@),
        Err(_) => false,
    }
}

/// A reply does not say that the page is loaded.
pub open spec fn is_not_loaded(reply: Result<JsonView, Seq<char>>) -> bool {
    match reply {
        Ok(value) => !says(value, "complete"@) && value.get("value"@) != Some(
            JsonView::Str("complete"@),
        ),
        Err(_) => true,
    }
}

/// Waiting for a page asks it how far it is loaded, and nothing else, as long as
/// it is not; when it is, or after the twentieth time, it is asked for its
/// title, which is reported with the address.
proof fn lemma_wait_for_page(
    dialect: Dialect,
    url: Seq<char>,
    polls: u32,
    waits: Seq<Result<JsonView, Seq<char>>>,
    last: Seq<Result<JsonView, Seq<char>>>,
    title: Seq<char>,
)
    requires
        forall|i: int| 0 <= i < waits.len() ==> is_not_loaded(#[trigger] waits[i]),
        polls < 20,
        last.len() == 2,
        ({
            ||| polls + waits.len() < 20 && is_loaded(last[0])
            ||| polls + waits.len() == 19 && is_not_loaded(last[0])
        }),
        match last[1] {
            Ok(reply) => says(reply, title) || (is_mute(reply) && title == "(no title)"@),
            Err(_) => title == "(no title)"@,
        },
    ensures
        run(settling(dialect, url, polls), waits + last) == (StepView::Done {
            outcome: Ok("Navigated to: "@ + url + "\nTitle: "@ + title),
        }),
    decreases waits.len(),
{
    let replies = waits + last;
    let asked = AfterCallView::Polled { dialect, url, polls };
    let after = after_call(asked, replies[0]);
    assert(resumed(settling(dialect, url, polls)) == evaluation(scripts::READY_STATE@, asked));
    assert(run(settling(dialect, url, polls), replies) == run(after, replies.skip(1)));
    if waits.len() == 0 {
        assert(replies[0] == last[0]);
        assert(replies.skip(1)[0] == last[1]);
        assert(after == evaluation(scripts::TITLE@, AfterCallView::Titled { dialect, url }));
        reveal_with_fuel(run, 3);
        assert(replies.skip(1).skip(1).len() == 0);
    } else {
        assert(replies[0] == waits[0]);
        assert(replies.skip(1) == waits.skip(1) + last);
        assert(after == settling(dialect, url, (polls + 1) as u32));
        lemma_wait_for_page(dialect, url, (polls + 1) as u32, waits.skip(1), last, title);
    }
}

/// Once the browser has taken the address, the page is asked up to twenty times
/// whether it is loaded, with pauses of a fifth of a second; however often it is
/// not, the report in the end names the address and the title that the page
/// says, or tells that there is none.
pub proof fn law_navigation_reports_the_title(
    dialect: Dialect,
    url: Seq<char>,
    taken: JsonView,
    waits: Seq<Result<JsonView, Seq<char>>>,
    last: Seq<Result<JsonView, Seq<char>>>,
    title: Seq<char>,
)
    requires
        forall|i: int| 0 <= i < waits.len() ==> is_not_loaded(#[trigger] waits[i]),
        last.len() == 2,
        ({
            ||| waits.len() < 20 && is_loaded(last[0])
            ||| waits.len() == 19 && is_not_loaded(last[0])
        }),
        match last[1] {
            Ok(reply) => says(reply, title) || (is_mute(reply) && title == "(no title)"@),
            Err(_) => title == "(no title)"@,
        },
    ensures
        run(
            navigation(dialect, url),
            seq![Ok::<JsonView, Seq<char>>(taken)] + waits + last,
        ) == (StepView::Done {
            outcome: Ok("Navigated to: "@ + url + "\nTitle: "@ + title),
        }),
{
    let replies = seq![Ok::<JsonView, Seq<char>>(taken)] + waits + last;
    assert(replies.skip(1) == waits + last);
    assert(replies[0] == Ok::<JsonView, Seq<char>>(taken));
    lemma_wait_for_page(dialect, url, 0, waits, last, title);
}

/// While a page loads it is asked for nothing but its state, after a pause of two
/// hundred milliseconds; then for nothing but its title.
pub proof fn law_loading_page_is_asked_for_its_state(
    dialect: Dialect,
    url: Seq<char>,
    polls: u32,
    reply: Result<JsonView, Seq<char>>,
)
    requires
        polls < 20,
    ensures
        settling(dialect, url, polls) matches StepView::Sleep { millis, .. } && millis == 200,
        script_in(resumed(settling(dialect, url, polls))) == Some("document.readyState"@),
        is_not_loaded(reply) && polls < 19 ==> answered(
            resumed(settling(dialect, url, polls)),
            reply,
        ) == settling(dialect, url, (polls + 1) as u32),
        is_loaded(reply) || polls == 19 ==> script_in(
            answered(resumed(settling(dialect, url, polls)), reply),
        ) == Some("document.title"@),
{
    lemma_evaluation_runs(
        scripts::READY_STATE@,
        AfterCallView::Polled { dialect, url, polls },
    );
    lemma_evaluation_runs(scripts::TITLE@, AfterCallView::Titled { dialect, url });
}

/// An address that the browser does not take is reported.
pub proof fn law_refused_address_is_reported(url: Seq<char>, message: Seq<char>)
    ensures
        answered(navigation(Dialect::Backend, url), Err(message)) == (StepView::Done {
            outcome: Err("Page.navigate failed for "@ + url),
        }),
        answered(navigation(Dialect::Session, url), Err(message)) == (StepView::Done {
            outcome: Err(message),
        }),
{
}

/// A wait for a silent network notes when it begins, and keeps the time that it
/// is given.
pub proof fn law_wait_begins_with_two_readings(timeout_ms: u64, first: u128, second: u128)
    ensures
        operation(BrowserCmdView::WaitForNetworkIdle { timeout_ms }) matches Some(
            StepView::Clock { next },
        ) && after_clock(next, first) matches StepView::Clock { next: begun } && after_clock(
            begun,
            second,
        ) == (StepView::Clock {
            next: AfterClock::Judged { wait: IdleWait { timeout_ms, started: first, active: second } },
        }),
{
}

/// A wait ends as "timeout" when, counted in milliseconds, more time has passed
/// since its beginning than it was given, and as "idle" when more than five
/// hundred have passed since a request was last seen; the first is looked at
/// first. Else it goes on after a pause of a hundred.
pub proof fn law_wait_is_measured(wait: IdleWait, now: u128, later: u128)
    requires
        wait.started <= now,
        wait.active <= later,
    ensures
        now - wait.started > wait.timeout_ms * 1_000_000 ==> after_clock(
            AfterClock::Judged { wait },
            now,
        ) == (StepView::Done { outcome: Ok("timeout"@) }),
        now - wait.started <= wait.timeout_ms * 1_000_000 ==> after_clock(
            AfterClock::Judged { wait },
            now,
        ) == (StepView::Clock { next: AfterClock::Listened { wait } }),
        later - wait.active > 500_000_000 ==> after_clock(AfterClock::Listened { wait }, later) == (
        StepView::Done { outcome: Ok("idle"@) }),
        later - wait.active <= 500_000_000 ==> after_clock(AfterClock::Listened { wait }, later)
            == (StepView::Sleep { millis: 100, next: AfterSleepView::Paused { wait } }),
{
}

/// After a pause the page is asked how many requests are pending. Where it says
/// that some are, the silence begins anew at the next reading of the clock;
/// where it says none, or nothing, the wait is as it was. A failed call ends it.
pub proof fn law_wait_heeds_pending_requests(
    wait: IdleWait,
    now: u128,
    reply: JsonView,
    result: JsonView,
    count: u64,
    message: Seq<char>,
)
    requires
        reply.get("result"@) == Some(result),
        result.get("value"@) == Some(JsonView::PosInt(count)),
    ensures
        ({
            let asked = after_sleep(AfterSleepView::Paused { wait });
            &&& script_in(asked) == Some(scripts::PENDING_REQUESTS@)
            &&& count > 0 ==> (answered(asked, Ok(reply)) matches StepView::Clock { next }
                && after_clock(next, now) == (StepView::Clock {
                next: AfterClock::Judged {
                    wait: IdleWait {
                        timeout_ms: wait.timeout_ms,
                        started: wait.started,
                        active: now,
                    },
                },
            }))
            &&& count == 0 ==> answered(asked, Ok(reply)) == (StepView::Clock {
                next: AfterClock::Judged { wait },
            })
            &&& answered(asked, Err(message)) == (StepView::Done { outcome: Err(message) })
        }),
{
    lemma_evaluation_runs(scripts::PENDING_REQUESTS@, AfterCallView::Counted { wait });
}

/// The value of a script is handed over as it stands in the reply; an exception
/// is an error that tells of it.
pub proof fn law_script_value_is_handed_over(
    reply: JsonView,
    result: JsonView,
    value: JsonView,
    message: Seq<char>,
)
    ensures
        reply.get("exceptionDetails"@) is None && reply.get("result"@) == Some(result)
            && result.get("value"@) == Some(value) ==> script_outcome(Ok(reply)) == Ok::<
            JsonView,
            Seq<char>,
        >(value),
        reply.get("exceptionDetails"@) == Some(value) ==> script_outcome(Ok(reply)) == Err::<
            JsonView,
            Seq<char>,
        >("JavaScript error: "@ + json_text(value)),
        reply.get("exceptionDetails"@) is None && reply.get("result"@) is None && reply.get(
            "value"@,
        ) is None ==> script_outcome(Ok(reply)) == Ok::<JsonView, Seq<char>>(JsonView::Null),
        script_outcome(Err(message)) == Err::<JsonView, Seq<char>>(message),
{
}

/// Saving a session asks for all cookies, then for the local storage, and tells
/// both in one document: the cookies that the browser gave and the storage that
/// the page said, each under its name and unchanged.
pub proof fn law_saved_session_holds_cookies_and_storage(
    given: JsonView,
    reply: JsonView,
    said: Seq<char>,
    message: Seq<char>,
)
    requires
        says(reply, said),
    ensures
        operation(BrowserCmdView::SaveSessionState) matches Some(step) && {
            let asked = answered(step, Ok(given));
            &&& step matches StepView::Call { method, params, .. }
            &&& method == "Network.getAllCookies"@ && params == JsonView::Object(Seq::empty())
            &&& answered(step, Err(message)) == (StepView::Done { outcome: Err(message) })
            &&& script_in(asked) == Some(scripts::READ_STORAGE@)
            &&& answered(asked, Err(message)) == (StepView::Done { outcome: Err(message) })
            &&& answered(asked, Ok(reply)) matches StepView::Done { outcome: Ok(text) }
            &&& exists|document: JsonView|
                text == #[trigger] json_text(document) && document is Object
                    && document->Object_0.len() == 2 && document.get("cookies"@) == Some(
                    match given.get("cookies"@) {
                        Some(cookies) => cookies,
                        None => JsonView::Null,
                    },
                ) && document.get("localStorage"@) == Some(
                    match json_parsed(said) {
                        Ok(storage) => storage,
                        Err(_) => JsonView::Null,
                    },
                )
        },
{
    let cookies = given.get("cookies"@);
    let storage = match json_parsed(said) {
        Ok(storage) => Some(storage),
        Err(_) => None,
    };
    lemma_evaluation_runs(scripts::READ_STORAGE@, AfterCallView::StorageRead { cookies });
    lemma_saved_members(cookies, storage);
    let document = saved_state(cookies, storage);
    assert(document->Object_0.len() == 2);
    let step = saving();
    let asked = answered(step, Ok(given));
    assert(answered(asked, Ok(reply)) == (StepView::Done { outcome: Ok(json_text(document)) }));
}

/// The call that restores an item of the local storage has the page store
/// exactly the saved text under exactly the saved key.
pub proof fn law_restored_item_has_its_key_and_text(key: Seq<char>, text: Seq<char>)
    ensures
        ({
            let call = store_call(key, JsonView::Str(text));
            &&& call.method == "Runtime.evaluate"@
            &&& call.params is Object && call.params->Object_0.len() == 1
            &&& call.params.get("expression"@) matches Some(JsonView::Str(script))
            &&& script == "localStorage.setItem("@ + singly_quoted(key) + ", "@ + singly_quoted(
                text,
            ) + ")"@
            &&& literal_at(script, "localStorage.setItem("@.len() as int) == Some(key)
            &&& literal_at(
                script,
                ("localStorage.setItem("@.len() + singly_quoted(key).len() + ", "@.len()) as int,
            ) == Some(text)
        }),
{
    reveal_with_fuel(crate::json::member, 2);
    law_store_script_holds_key_and_value(key, text);
}

/// Restoring makes the planned calls one after the other, whatever is answered,
/// and then tells that the state is restored.
pub proof fn law_restoring_makes_every_call(
    calls: Seq<PlannedCallView>,
    replies: Seq<Result<JsonView, Seq<char>>>,
)
    requires
        replies.len() <= calls.len(),
    ensures
        replies.len() < calls.len() ==> makes_call(
            run(restoring(calls), replies),
            calls[replies.len() as int].method,
            calls[replies.len() as int].params,
        ),
        replies.len() == calls.len() ==> run(restoring(calls), replies) == (StepView::Done {
            outcome: Ok("{\"restored\": true}"@),
        }),
    decreases replies.len(),
{
    if replies.len() > 0 {
        law_restoring_makes_every_call(calls.skip(1), replies.skip(1));
    }
}

/// Restoring a state sets every cookie of the state as it is, and stores every
/// text of its local storage under its key, in their order; the call of each is
/// made whatever came of those before it. A text that is no state is refused.
pub proof fn law_state_is_restored_item_by_item(
    text: Seq<char>,
    state: JsonView,
    cookies: Seq<JsonView>,
    storage: Seq<(Seq<char>, JsonView)>,
    replies: Seq<Result<JsonView, Seq<char>>>,
)
    requires
        json_parsed(text) == Ok::<JsonView, Seq<char>>(state),
        state.get("cookies"@) == Some(JsonView::Array(cookies)),
        state.get("localStorage"@) == Some(JsonView::Object(storage)),
        forall|i: int| 0 <= i < storage.len() ==> (#[trigger] storage[i]).1 is Str,
        replies.len() <= cookies.len() + storage.len(),
    ensures
        operation(BrowserCmdView::RestoreSessionState { state: text }) matches Some(step) && {
            let at = run(step, replies);
            let n = replies.len() as int;
            let k = n - cookies.len();
            &&& n < cookies.len() ==> makes_call(at, "Network.setCookie"@, cookies[n])
            &&& 0 <= k < storage.len() ==> makes_call(
                at,
                "Runtime.evaluate"@,
                JsonView::Object(
                    seq![
                        (
                            "expression"@,
                            JsonView::Str(
                                "localStorage.setItem("@ + singly_quoted(storage[k].0) + ", "@
                                    + singly_quoted(storage[k].1->Str_0) + ")"@,
                            ),
                        ),
                    ],
                ),
            )
            &&& k == storage.len() ==> at == (StepView::Done {
                outcome: Ok("{\"restored\": true}"@),
            })
        },
{
    let calls = restore_calls(state);
    let n = replies.len() as int;
    let k = n - cookies.len();
    assert(calls.len() == cookies.len() + storage.len());
    law_restoring_makes_every_call(calls, replies);
    if n < cookies.len() {
        assert(calls[n] == crate::state::cookie_call(cookies[n]));
    } else if k < storage.len() {
        assert(calls[n] == store_call(storage[k].0, storage[k].1));
        assert(storage[k].1 == JsonView::Str(storage[k].1->Str_0));
        law_restored_item_has_its_key_and_text(storage[k].0, storage[k].1->Str_0);
    }
}

/// What is no state is not restored: a text that is no JSON is refused with the
/// parser's message, and of another value nothing is restored.
pub proof fn law_what_is_no_state_is_not_restored(
    text: Seq<char>,
    state: JsonView,
    message: Seq<char>,
)
    ensures
        json_parsed(text) == Err::<JsonView, Seq<char>>(message) ==> operation(
            BrowserCmdView::RestoreSessionState { state: text },
        ) == Some(StepView::Done { outcome: Err("Invalid state JSON: "@ + message) }),
        json_parsed(text) == Ok::<JsonView, Seq<char>>(state) && !(state.get("cookies"@) matches
            Some(JsonView::Array(_))) && !(state.get("localStorage"@) matches Some(
            JsonView::Object(_),
        )) ==> operation(BrowserCmdView::RestoreSessionState { state: text }) == Some(
            StepView::Done { outcome: Ok("{\"restored\": true}"@) },
        ),
{
}

/// Of all commands only the one that stops the driver asks nothing of the browser.
pub proof fn law_only_stopping_asks_nothing(cmd: BrowserCmdView)
    ensures
        operation(cmd) is None <==> cmd is Stop,
{
}

/// On a session too, each script is the one that its tool is for, with exactly
/// what the tool was given.
pub proof fn law_session_scripts_are_their_tools_own(selector: Seq<char>, value: Seq<char>)
    ensures
        inspect_script(Dialect::Session) == tools::scripts::INSPECT_FORM@,
        structure_script(Dialect::Session) == tools::scripts::PAGE_STRUCTURE@,
        is_framed(
            click_script(Dialect::Session, selector),
            tools::scripts::CLICK_HEAD@,
            quoted(selector),
            tools::scripts::CLICK_TAIL@,
        ),
        is_framed(
            fill_script(Dialect::Session, selector, value),
            tools::scripts::FILL_HEAD@,
            quoted(selector) + tools::scripts::FILL_MIDDLE@ + quoted(value),
            tools::scripts::FILL_TAIL@,
        ),
{
    assert(fill_script(Dialect::Session, selector, value) =~= tools::scripts::FILL_HEAD@ + (quoted(
        selector,
    ) + tools::scripts::FILL_MIDDLE@ + quoted(value)) + tools::scripts::FILL_TAIL@);
}

} // verus!
