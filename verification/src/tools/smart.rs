//! Tools on an open session that spare the caller a look at the whole page.

use vstd::prelude::*;

use crate::form::{fill_form, form_filling};
use crate::json::Json;
use crate::page::{inspect_script, semantic_data_script, structure_script};
use crate::reply::text_query;
use crate::step::{Dialect, Step};
use crate::text::texts;

verus! {

/// Looks for the data that the keys name.
pub fn extract_semantic_data(keys: Vec<String>) -> (step: Step)
    ensures
        step@ == text_query(
            Dialect::Session,
            semantic_data_script(Dialect::Session, texts(keys@)),
            "{}"@,
        ),
        step@.wf(),
{
    crate::page::extract_semantic_data(Dialect::Session, keys)
}

/// Lists all forms and their fields.
pub fn inspect_form() -> (step: Step)
    ensures
        step@ == text_query(Dialect::Session, inspect_script(Dialect::Session), "[]"@),
        step@.wf(),
{
    crate::page::inspect_form(Dialect::Session)
}

/// Describes the structure of the page.
pub fn get_page_structure() -> (step: Step)
    ensures
        step@ == text_query(Dialect::Session, structure_script(Dialect::Session), "{}"@),
        step@.wf(),
{
    crate::page::get_page_structure(Dialect::Session)
}

/// Fills the first form by matching the data to its fields. Each field is
/// filled by the caller.
pub fn fill_form_smart(data: Json, submit: bool) -> (step: Step)
    requires
        data@.wf(),
    ensures
        step@ == form_filling(Dialect::Session, data@, submit),
        step@.wf(),
{
    fill_form(Dialect::Session, data, submit)
}

} // verus!
