//! What a single script asks of the page or does to it.

use vstd::prelude::*;

use crate::json::{
    array_of_strings, empty_object, json_text, json_to_text, quoted, string_array, string_literal,
    Json, JsonView,
};
use crate::literal::{
    law_literal_says_its_text, law_single_quoted_literal_says_its_text, literal_at,
    single_quoted_literal, singly_quoted,
};
use crate::reply::{evaluate, evaluation, query_text, text_query};
use crate::scripts;
use crate::step::{AfterCall, AfterCallView, Dialect, Step, StepView};
use crate::text::{decimal, decimal_text, optional_text, texts};
use crate::tools;

verus! {

/// The script that clicks the element that a selector finds.
pub open spec fn click_script(dialect: Dialect, selector: Seq<char>) -> Seq<char> {
    match dialect {
        Dialect::Backend => scripts::CLICK_HEAD@ + quoted(selector) + scripts::CLICK_TAIL@,
        Dialect::Session => tools::scripts::CLICK_HEAD@ + quoted(selector)
            + tools::scripts::CLICK_TAIL@,
    }
}

/// The script that fills the field that a selector finds.
pub open spec fn fill_script(dialect: Dialect, selector: Seq<char>, value: Seq<char>) -> Seq<
    char,
> {
    match dialect {
        Dialect::Backend => scripts::FILL_HEAD@ + quoted(selector) + scripts::FILL_MIDDLE@
            + quoted(value) + scripts::FILL_TAIL@,
        Dialect::Session => tools::scripts::FILL_HEAD@ + quoted(selector)
            + tools::scripts::FILL_MIDDLE@ + quoted(value) + tools::scripts::FILL_TAIL@,
    }
}

/// The script that looks for the data that the keys name.
pub open spec fn semantic_data_script(dialect: Dialect, keys: Seq<Seq<char>>) -> Seq<char> {
    match dialect {
        Dialect::Backend => scripts::SEMANTIC_DATA_HEAD@ + json_text(string_array(keys))
            + scripts::SEMANTIC_DATA_TAIL@,
        Dialect::Session => tools::scripts::SEMANTIC_DATA_HEAD@ + json_text(string_array(keys))
            + tools::scripts::SEMANTIC_DATA_TAIL@,
    }
}

/// The script that lists the forms of the page.
pub open spec fn inspect_script(dialect: Dialect) -> Seq<char> {
    match dialect {
        Dialect::Backend => scripts::INSPECT_FORM@,
        Dialect::Session => tools::scripts::INSPECT_FORM@,
    }
}

/// The script that describes the structure of the page.
pub open spec fn structure_script(dialect: Dialect) -> Seq<char> {
    match dialect {
        Dialect::Backend => scripts::PAGE_STRUCTURE@,
        Dialect::Session => tools::scripts::PAGE_STRUCTURE@,
    }
}

/// The script that clicks the element with the given number.
pub open spec fn numbered_click_script(id: u32) -> Seq<char> {
    scripts::CLICK_BY_ID_HEAD@ + decimal(id as nat) + scripts::CLICK_BY_ID_MIDDLE@ + decimal(
        id as nat,
    ) + scripts::CLICK_BY_ID_TAIL@
}

/// The script that compares elements with an earlier look at them.
pub open spec fn diff_script(selector: Seq<char>) -> Seq<char> {
    scripts::ELEMENT_DIFF_HEAD@ + singly_quoted(selector) + scripts::ELEMENT_DIFF_TAIL@
}

/// The script that reads a table; the first of the page where none is named.
pub open spec fn table_script(selector: Option<Seq<char>>) -> Seq<char> {
    scripts::TABLE_HEAD@ + singly_quoted(table_selector(selector)) + scripts::TABLE_TAIL@
}

/// The selector of a table; the first of the page where none is named.
pub open spec fn table_selector(selector: Option<Seq<char>>) -> Seq<char> {
    match selector {
        Some(selector) => selector,
        None => "table"@,
    }
}

/// The script that begins to intercept responses.
pub open spec fn intercept_script(pattern: Seq<char>) -> Seq<char> {
    scripts::INTERCEPT_HEAD@ + singly_quoted(pattern) + scripts::INTERCEPT_TAIL@
}

/// The script that clicks the element that a selector finds.
pub fn write_click_script(dialect: Dialect, selector: &str) -> (script: String)
    ensures
        script@ == click_script(dialect, selector@),
{
    let literal = string_literal(selector);
    match dialect {
        Dialect::Backend => scripts::CLICK_HEAD.to_owned().concat(literal.as_str()).concat(
            scripts::CLICK_TAIL,
        ),
        Dialect::Session => tools::scripts::CLICK_HEAD.to_owned().concat(literal.as_str()).concat(
            tools::scripts::CLICK_TAIL,
        ),
    }
}

/// The script that fills the field that a selector finds.
pub fn write_fill_script(dialect: Dialect, selector: &str, value: &str) -> (script: String)
    ensures
        script@ == fill_script(dialect, selector@, value@),
{
    let selector = string_literal(selector);
    let value = string_literal(value);
    match dialect {
        Dialect::Backend => scripts::FILL_HEAD.to_owned().concat(selector.as_str()).concat(
            scripts::FILL_MIDDLE,
        ).concat(value.as_str()).concat(scripts::FILL_TAIL),
        Dialect::Session => tools::scripts::FILL_HEAD.to_owned().concat(selector.as_str()).concat(
            tools::scripts::FILL_MIDDLE,
        ).concat(value.as_str()).concat(tools::scripts::FILL_TAIL),
    }
}

/// Asks for the visible text of the page.
pub fn page_text(dialect: Dialect) -> (step: Step)
    ensures
        step@ == evaluation(scripts::BODY_TEXT@, AfterCallView::PageText { dialect }),
        step@.wf(),
{
    evaluate(scripts::BODY_TEXT.to_owned(), AfterCall::PageText { dialect })
}

/// Clicks the element that a selector finds.
pub fn click(dialect: Dialect, selector: &str) -> (step: Step)
    ensures
        step@ == text_query(dialect, click_script(dialect, selector@), "Click executed"@),
        step@.wf(),
{
    query_text(dialect, write_click_script(dialect, selector), "Click executed")
}

/// Fills the field that a selector finds.
pub fn fill_field(dialect: Dialect, selector: &str, value: &str) -> (step: Step)
    ensures
        step@ == text_query(dialect, fill_script(dialect, selector@, value@), "Field filled"@),
        step@.wf(),
{
    query_text(dialect, write_fill_script(dialect, selector, value), "Field filled")
}

/// Lists the forms of the page.
pub fn inspect_form(dialect: Dialect) -> (step: Step)
    ensures
        step@ == text_query(dialect, inspect_script(dialect), "[]"@),
        step@.wf(),
{
    let script = match dialect {
        Dialect::Backend => scripts::INSPECT_FORM.to_owned(),
        Dialect::Session => tools::scripts::INSPECT_FORM.to_owned(),
    };
    query_text(dialect, script, "[]")
}

/// Describes the structure of the page.
pub fn get_page_structure(dialect: Dialect) -> (step: Step)
    ensures
        step@ == text_query(dialect, structure_script(dialect), "{}"@),
        step@.wf(),
{
    let script = match dialect {
        Dialect::Backend => scripts::PAGE_STRUCTURE.to_owned(),
        Dialect::Session => tools::scripts::PAGE_STRUCTURE.to_owned(),
    };
    query_text(dialect, script, "{}")
}

/// Looks for the data that the keys name.
pub fn extract_semantic_data(dialect: Dialect, keys: Vec<String>) -> (step: Step)
    ensures
        step@ == text_query(dialect, semantic_data_script(dialect, texts(keys@)), "{}"@),
        step@.wf(),
{
    let list = json_to_text(array_of_strings(keys));
    let script = match dialect {
        Dialect::Backend => scripts::SEMANTIC_DATA_HEAD.to_owned().concat(list.as_str()).concat(
            scripts::SEMANTIC_DATA_TAIL,
        ),
        Dialect::Session => tools::scripts::SEMANTIC_DATA_HEAD.to_owned().concat(
            list.as_str(),
        ).concat(tools::scripts::SEMANTIC_DATA_TAIL),
    };
    query_text(dialect, script, "{}")
}

/// Numbers and lists the elements that can be operated.
pub fn get_interactive_elements() -> (step: Step)
    ensures
        step@ == text_query(Dialect::Backend, scripts::INTERACTIVE_ELEMENTS@, "[]"@),
        step@.wf(),
{
    query_text(Dialect::Backend, scripts::INTERACTIVE_ELEMENTS.to_owned(), "[]")
}

/// Clicks the element with the given number.
pub fn click_by_id(id: u32) -> (step: Step)
    ensures
        step@ == text_query(Dialect::Backend, numbered_click_script(id), "Click executed"@),
        step@.wf(),
{
    let number = decimal_text(id as u64);
    let script = scripts::CLICK_BY_ID_HEAD.to_owned().concat(number.as_str()).concat(
        scripts::CLICK_BY_ID_MIDDLE,
    ).concat(number.as_str()).concat(scripts::CLICK_BY_ID_TAIL);
    query_text(Dialect::Backend, script, "Click executed")
}

/// Looks for what keeps a visitor out of the page.
pub fn check_blockers() -> (step: Step)
    ensures
        step@ == text_query(Dialect::Backend, scripts::CHECK_BLOCKERS@, "{}"@),
        step@.wf(),
{
    query_text(Dialect::Backend, scripts::CHECK_BLOCKERS.to_owned(), "{}")
}

/// Compares elements with an earlier look at them.
pub fn get_element_diff(selector: &str) -> (step: Step)
    ensures
        step@ == text_query(Dialect::Backend, diff_script(selector@), "{}"@),
        step@.wf(),
{
    let script = scripts::ELEMENT_DIFF_HEAD.to_owned().concat(
        single_quoted_literal(selector).as_str(),
    ).concat(scripts::ELEMENT_DIFF_TAIL);
    query_text(Dialect::Backend, script, "{}")
}

/// Reads a table; the first of the page where none is named.
pub fn extract_table_to_json(selector: Option<String>) -> (step: Step)
    ensures
        step@ == text_query(Dialect::Backend, table_script(optional_text(selector)), "{}"@),
        step@.wf(),
{
    let selector = match selector {
        Some(selector) => selector,
        None => "table".to_owned(),
    };
    let script = scripts::TABLE_HEAD.to_owned().concat(
        single_quoted_literal(selector.as_str()).as_str(),
    ).concat(scripts::TABLE_TAIL);
    query_text(Dialect::Backend, script, "{}")
}

/// The step that switches the network events on before responses are
/// intercepted.
pub open spec fn interception(pattern: Seq<char>) -> StepView {
    StepView::Call {
        method: "Network.enable"@,
        params: JsonView::Object(seq![]),
        next: AfterCallView::Intercepting { pattern },
    }
}

/// What follows when the network events have been switched on.
pub open spec fn after_enabling(pattern: Seq<char>, reply: Result<JsonView, Seq<char>>) -> StepView {
    match reply {
        Ok(_) => text_query(Dialect::Backend, intercept_script(pattern), "{}"@),
        Err(message) => StepView::Done { outcome: Err(message) },
    }
}

/// Begins to intercept the responses to the addresses that hold the pattern.
pub fn intercept_api_response(url_pattern: String) -> (step: Step)
    ensures
        step@ == interception(url_pattern@),
        step@.wf(),
{
    Step::Call {
        method: "Network.enable".to_owned(),
        params: empty_object(),
        next: AfterCall::Intercepting { pattern: url_pattern },
    }
}

/// What follows when the network events have been switched on.
pub fn network_enabled(pattern: &str, reply: Result<Json, String>) -> (step: Step)
    ensures
        step@ == after_enabling(pattern@, crate::json::json_outcome(reply)),
        step@.wf(),
{
    match reply {
        Ok(_) => query_text(
            Dialect::Backend,
            scripts::INTERCEPT_HEAD.to_owned().concat(
                single_quoted_literal(pattern).as_str(),
            ).concat(scripts::INTERCEPT_TAIL),
            "{}",
        ),
        Err(message) => Step::Done { outcome: Err(message) },
    }
}

/// Hands over the intercepted responses.
pub fn get_intercepted_responses() -> (step: Step)
    ensures
        step@ == text_query(Dialect::Backend, scripts::INTERCEPTED_RESPONSES@, "{}"@),
        step@.wf(),
{
    query_text(Dialect::Backend, scripts::INTERCEPTED_RESPONSES.to_owned(), "{}")
}

/// The click script says exactly its selector: the literal that begins behind
/// its head closes at its own end and is read as the selector.
pub proof fn law_click_script_holds_its_selector(dialect: Dialect, selector: Seq<char>)
    ensures
        ({
            let head = match dialect {
                Dialect::Backend => scripts::CLICK_HEAD@,
                Dialect::Session => tools::scripts::CLICK_HEAD@,
            };
            literal_at(click_script(dialect, selector), head.len() as int) == Some(selector)
        }),
{
    match dialect {
        Dialect::Backend => {
            law_literal_says_its_text(scripts::CLICK_HEAD@, selector, scripts::CLICK_TAIL@);
        },
        Dialect::Session => {
            law_literal_says_its_text(
                tools::scripts::CLICK_HEAD@,
                selector,
                tools::scripts::CLICK_TAIL@,
            );
        },
    }
}

/// The fill script says exactly its selector and its value: each of its two
/// literals closes at its own end and is read as its text.
pub proof fn law_fill_script_holds_selector_and_value(
    dialect: Dialect,
    selector: Seq<char>,
    value: Seq<char>,
)
    ensures
        ({
            let (head, middle) = match dialect {
                Dialect::Backend => (scripts::FILL_HEAD@, scripts::FILL_MIDDLE@),
                Dialect::Session => (tools::scripts::FILL_HEAD@, tools::scripts::FILL_MIDDLE@),
            };
            let script = fill_script(dialect, selector, value);
            let first = head.len() as int;
            let second = first + quoted(selector).len() + middle.len();
            literal_at(script, first) == Some(selector) && literal_at(script, second) == Some(value)
        }),
{
    let (head, middle, tail) = match dialect {
        Dialect::Backend => (scripts::FILL_HEAD@, scripts::FILL_MIDDLE@, scripts::FILL_TAIL@),
        Dialect::Session => (
            tools::scripts::FILL_HEAD@,
            tools::scripts::FILL_MIDDLE@,
            tools::scripts::FILL_TAIL@,
        ),
    };
    let script = fill_script(dialect, selector, value);
    law_literal_says_its_text(head, selector, middle + quoted(value) + tail);
    assert(script == head + quoted(selector) + (middle + quoted(value) + tail));
    law_literal_says_its_text(head + quoted(selector) + middle, value, tail);
}

/// The comparison script says exactly its selector, quotes and backslashes
/// included.
pub proof fn law_diff_script_holds_its_selector(selector: Seq<char>)
    ensures
        literal_at(diff_script(selector), scripts::ELEMENT_DIFF_HEAD@.len() as int) == Some(
            selector,
        ),
{
    law_single_quoted_literal_says_its_text(
        scripts::ELEMENT_DIFF_HEAD@,
        selector,
        scripts::ELEMENT_DIFF_TAIL@,
    );
}

/// The table script says exactly its selector.
pub proof fn law_table_script_holds_its_selector(selector: Option<Seq<char>>)
    ensures
        literal_at(table_script(selector), scripts::TABLE_HEAD@.len() as int) == Some(
            table_selector(selector),
        ),
{
    law_single_quoted_literal_says_its_text(
        scripts::TABLE_HEAD@,
        table_selector(selector),
        scripts::TABLE_TAIL@,
    );
}

/// The interception script says exactly its pattern.
pub proof fn law_intercept_script_holds_its_pattern(pattern: Seq<char>)
    ensures
        literal_at(intercept_script(pattern), scripts::INTERCEPT_HEAD@.len() as int) == Some(
            pattern,
        ),
{
    law_single_quoted_literal_says_its_text(
        scripts::INTERCEPT_HEAD@,
        pattern,
        scripts::INTERCEPT_TAIL@,
    );
}

} // verus!
