//! Evaluations: how a script is handed to the page and where its result stands
//! in the reply.

use vstd::prelude::*;

use crate::json::{
    json_outcome, json_text, json_to_text, lemma_two_members_wf, object_of_two, Json, JsonView,
};
use crate::step::{reply_wf, AfterCall, AfterCallView, Dialect, PlannedCall, Step, StepView};
use crate::text::optional_str;

verus! {

/// The parameters of an evaluation.
pub open spec fn evaluate_params(script: Seq<char>) -> JsonView {
    JsonView::Object(
        seq![("expression"@, JsonView::Str(script)), ("returnByValue"@, JsonView::Bool(true))],
    )
}

/// The step that has the page run a script.
pub open spec fn evaluation(script: Seq<char>, next: AfterCallView) -> StepView {
    StepView::Call { method: "Runtime.evaluate"@, params: evaluate_params(script), next }
}

/// The parameters of an evaluation.
fn params_of(script: String) -> (params: Json)
    ensures
        params@ == evaluate_params(script@),
        params@.wf(),
{
    proof {
        reveal_strlit("expression");
        reveal_strlit("returnByValue");
        lemma_two_members_wf(
            ("expression"@, JsonView::Str(script@)),
            ("returnByValue"@, JsonView::Bool(true)),
        );
    }
    object_of_two(("expression", Json::Str(script)), ("returnByValue", Json::Bool(true)))
}

/// The step that has the page run a script.
pub fn evaluate(script: String, next: AfterCall) -> (step: Step)
    ensures
        step@ == evaluation(script@, next@),
        next@.wf() ==> step@.wf(),
{
    Step::Call { method: "Runtime.evaluate".to_owned(), params: params_of(script), next }
}

/// The text at the place where an evaluation puts its value.
pub open spec fn result_text(reply: JsonView) -> Option<Seq<char>> {
    match reply.get("result"@) {
        Some(result) => result.get_str("value"@),
        None => None,
    }
}

/// The text of a value that stands for itself, without a result around it.
pub open spec fn bare_text(reply: JsonView) -> Option<Seq<char>> {
    reply.get_str("value"@)
}

/// The text that a script returned, read from the reply to its evaluation. On a
/// session the reply may also be the bare value.
pub open spec fn returned_text(dialect: Dialect, reply: JsonView) -> Option<Seq<char>> {
    match dialect {
        Dialect::Backend => result_text(reply),
        Dialect::Session => match result_text(reply) {
            Some(text) => Some(text),
            None => bare_text(reply),
        },
    }
}

/// The value that a script returned, read from the reply to its evaluation: the
/// value of the result, else the bare value.
pub open spec fn returned_value(reply: JsonView) -> Option<JsonView> {
    match reply.get("result"@) {
        Some(result) => match result.get("value"@) {
            Some(value) => Some(value),
            None => reply.get("value"@),
        },
        None => reply.get("value"@),
    }
}

/// The text that a script returned, or a fallback.
pub open spec fn returned_text_or(
    dialect: Dialect,
    reply: JsonView,
    fallback: Seq<char>,
) -> Seq<char> {
    match returned_text(dialect, reply) {
        Some(text) => text,
        None => fallback,
    }
}

/// The text at the place where an evaluation puts its value.
pub fn read_result_text(reply: &Json) -> (text: Option<&str>)
    ensures
        optional_str(text) == result_text(reply@),
{
    match reply.get("result") {
        Some(result) => result.get_str("value"),
        None => None,
    }
}

/// The text that a script returned, read from the reply to its evaluation.
pub fn read_returned_text<'a>(dialect: Dialect, reply: &'a Json) -> (text: Option<&'a str>)
    ensures
        optional_str(text) == returned_text(dialect, reply@),
{
    match dialect {
        Dialect::Backend => read_result_text(reply),
        Dialect::Session => match read_result_text(reply) {
            Some(text) => Some(text),
            None => reply.get_str("value"),
        },
    }
}

/// The value that a script returned, read from the reply to its evaluation.
pub fn read_returned_value<'a>(reply: &'a Json) -> (value: Option<&'a Json>)
    ensures
        match value {
            Some(value) => returned_value(reply@) == Some(value@),
            None => returned_value(reply@) is None,
        },
{
    match reply.get("result") {
        Some(result) => match result.get("value") {
            Some(value) => Some(value),
            None => reply.get("value"),
        },
        None => reply.get("value"),
    }
}

/// Takes the value that a script returned out of the reply to its evaluation.
fn into_returned_value(reply: Json) -> (value: Option<Json>)
    requires
        reply@.wf(),
    ensures
        match value {
            Some(value) => returned_value(reply@) == Some(value@) && value@.wf(),
            None => returned_value(reply@) is None,
        },
{
    let nested = match reply.get("result") {
        Some(result) => result.get("value").is_some(),
        None => false,
    };
    if nested {
        match reply.into_member("result") {
            Some(result) => result.into_member("value"),
            None => None,
        }
    } else {
        reply.into_member("value")
    }
}

/// The text that a script returned, or a fallback.
pub fn read_returned_text_or(dialect: Dialect, reply: &Json, fallback: &str) -> (text: String)
    ensures
        text@ == returned_text_or(dialect, reply@, fallback@),
{
    match read_returned_text(dialect, reply) {
        Some(text) => text.to_owned(),
        None => fallback.to_owned(),
    }
}

/// The outcome of an operation that returns the text of one evaluation.
pub open spec fn text_outcome(
    dialect: Dialect,
    fallback: Seq<char>,
    reply: Result<JsonView, Seq<char>>,
) -> Result<Seq<char>, Seq<char>> {
    match reply {
        Ok(value) => Ok(returned_text_or(dialect, value, fallback)),
        Err(message) => Err(message),
    }
}

/// The step that has the page run a script and passes on the text it returns.
pub open spec fn text_query(dialect: Dialect, script: Seq<char>, fallback: Seq<char>) -> StepView {
    evaluation(script, AfterCallView::Text { dialect, fallback })
}

/// The step that has the page run a script and passes on the text it returns.
pub fn query_text(dialect: Dialect, script: String, fallback: &str) -> (step: Step)
    ensures
        step@ == text_query(dialect, script@, fallback@),
        step@.wf(),
{
    evaluate(script, AfterCall::Text { dialect, fallback: fallback.to_owned() })
}

/// What follows when the text has come.
pub fn text_returned(dialect: Dialect, fallback: &str, reply: Result<Json, String>) -> (step: Step)
    ensures
        step@ == (StepView::Done {
            outcome: text_outcome(dialect, fallback@, json_outcome(reply)),
        }),
{
    match reply {
        Ok(value) => Step::Done { outcome: Ok(read_returned_text_or(dialect, &value, fallback)) },
        Err(message) => Step::Done { outcome: Err(message) },
    }
}

/// What a script came to, read from the reply to its evaluation: the exception
/// that it threw, else the value that it returned.
pub open spec fn script_outcome(reply: Result<JsonView, Seq<char>>) -> Result<JsonView, Seq<char>> {
    match reply {
        Ok(value) => match value.get("exceptionDetails"@) {
            Some(exception) => Err("JavaScript error: "@ + json_text(exception)),
            None => match returned_value(value) {
                Some(result) => Ok(result),
                None => Ok(JsonView::Null),
            },
        },
        Err(message) => Err(message),
    }
}

/// The call that runs a script whose value is wanted.
pub fn execute_js(script: &str) -> (call: PlannedCall)
    ensures
        call@.method == "Runtime.evaluate"@,
        call@.params == evaluate_params(script@),
        call@.params.wf(),
{
    PlannedCall { method: "Runtime.evaluate".to_owned(), params: params_of(script.to_owned()) }
}

/// What a script came to.
pub fn script_value(reply: Result<Json, String>) -> (outcome: Result<Json, String>)
    requires
        reply_wf(json_outcome(reply)),
    ensures
        json_outcome(outcome) == script_outcome(json_outcome(reply)),
        reply_wf(json_outcome(outcome)),
{
    match reply {
        Ok(value) => {
            if value.get("exceptionDetails").is_some() {
                match value.into_member("exceptionDetails") {
                    Some(exception) => Err(
                        "JavaScript error: ".to_owned().concat(json_to_text(exception).as_str()),
                    ),
                    None => Ok(Json::Null),
                }
            } else {
                match into_returned_value(value) {
                    Some(result) => Ok(result),
                    None => Ok(Json::Null),
                }
            }
        },
        Err(message) => Err(message),
    }
}

/// A text is read from a reply exactly where it is the value of the result, and
/// from a bare value exactly where it is that value; nothing else counts as text.
pub proof fn law_text_is_read_at_its_place(reply: JsonView, text: Seq<char>)
    ensures
        result_text(reply) == Some(text) <==> (reply.get("result"@) matches Some(result)
            && result.get("value"@) == Some(JsonView::Str(text))),
        bare_text(reply) == Some(text) <==> reply.get("value"@) == Some(JsonView::Str(text)),
        result_text(reply) == Some(text) ==> returned_text(Dialect::Backend, reply) == Some(text)
            && returned_text(Dialect::Session, reply) == Some(text),
{
}

} // verus!
