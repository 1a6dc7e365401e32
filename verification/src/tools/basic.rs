//! Basic tools on an open session.

use vstd::prelude::*;

use crate::navigation::navigation;
use crate::page::{click_script, fill_script};
use crate::reply::{evaluation, text_query};
use crate::scripts;
use crate::step::{AfterCallView, Dialect, Step};

verus! {

/// Opens an address and reports the title of the page.
pub fn navigate(url: &str) -> (step: Step)
    ensures
        step@ == navigation(Dialect::Session, url@),
        step@.wf(),
{
    crate::navigation::navigate(Dialect::Session, url)
}

/// Asks for the visible text of the page.
pub fn page_text() -> (step: Step)
    ensures
        step@ == evaluation(
            scripts::BODY_TEXT@,
            AfterCallView::PageText { dialect: Dialect::Session },
        ),
        step@.wf(),
{
    crate::page::page_text(Dialect::Session)
}

/// Clicks the element that a CSS selector finds.
pub fn click(selector: &str) -> (step: Step)
    ensures
        step@ == text_query(
            Dialect::Session,
            click_script(Dialect::Session, selector@),
            "Click executed"@,
        ),
        step@.wf(),
{
    crate::page::click(Dialect::Session, selector)
}

/// Fills the form field that a CSS selector finds.
pub fn fill_field(selector: &str, value: &str) -> (step: Step)
    ensures
        step@ == text_query(
            Dialect::Session,
            fill_script(Dialect::Session, selector@, value@),
            "Field filled"@,
        ),
        step@.wf(),
{
    crate::page::fill_field(Dialect::Session, selector, value)
}

} // verus!
