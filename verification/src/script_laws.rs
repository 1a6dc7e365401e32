//! What the scripts that act on the page do there, whatever they are given.

use vstd::prelude::*;

use crate::form::submit_script;
use crate::json::quoted;
use crate::page::{click_script, fill_script};
use crate::scripts;
use crate::step::Dialect;
use crate::text::found_at;
use crate::tools;

verus! {

/// A script holds an instruction and, somewhere behind it, another one.
pub open spec fn holds_in_order(script: Seq<char>, first: Seq<char>, second: Seq<char>) -> bool {
    exists|i: int, j: int|
        found_at(script, first, i) && found_at(script, second, j) && i + first.len() <= j
}

/// What stands in the last part of a script stands in the script, in the same
/// order.
proof fn lemma_behind(head: Seq<char>, tail: Seq<char>, needle: Seq<char>, at: int)
    requires
        found_at(tail, needle, at),
    ensures
        found_at(head + tail, needle, head.len() + at),
{
    let from = head.len() + at;
    assert((head + tail).subrange(from, from + needle.len()) =~= tail.subrange(
        at,
        at + needle.len(),
    ));
}

/// Where the instructions of the click script of the backend stand in it.
proof fn lemma_click_tail_of_backend()
    ensures
        found_at(scripts::CLICK_TAIL@, "document.querySelector(sel)"@, 29),
        found_at(scripts::CLICK_TAIL@, "el.click();"@, 152),
{
    reveal_strlit(r";
                const el = document.querySelector(sel);
                if (!el) return 'ERROR: no element matches selector: ' + sel;
                el.click();
                const label = el.textContent.trim().slice(0, 60) || el.tagName;
                return 'Clicked: ' + label;
            })()");
    reveal_strlit("document.querySelector(sel)");
    assert(scripts::CLICK_TAIL@.subrange(29, 56) =~= "document.querySelector(sel)"@);
    reveal_strlit("el.click();");
    assert(scripts::CLICK_TAIL@.subrange(152, 163) =~= "el.click();"@);
}

/// Where the instructions of the click script of the session tools stand in it.
proof fn lemma_click_tail_of_session()
    ensures
        found_at(tools::scripts::CLICK_TAIL@, "document.querySelector(sel)"@, 25),
        found_at(tools::scripts::CLICK_TAIL@, "el.click();"@, 140),
{
    reveal_strlit(r";
            const el = document.querySelector(sel);
            if (!el) return 'ERROR: no element matches selector: ' + sel;
            el.click();
            const label = el.textContent.trim().slice(0, 60) || el.tagName;
            return 'Clicked: ' + label;
        })()");
    reveal_strlit("document.querySelector(sel)");
    assert(tools::scripts::CLICK_TAIL@.subrange(25, 52) =~= "document.querySelector(sel)"@);
    reveal_strlit("el.click();");
    assert(tools::scripts::CLICK_TAIL@.subrange(140, 151) =~= "el.click();"@);
}

/// Where the instructions of the fill script of the backend stand in it.
proof fn lemma_fill_tail_of_backend()
    ensures
        found_at(scripts::FILL_TAIL@, "document.querySelector(sel)"@, 29),
        found_at(scripts::FILL_TAIL@, "el.value = val;"@, 180),
        found_at(
            scripts::FILL_TAIL@,
            "el.dispatchEvent(new Event('input', {bubbles: true}))"@,
            212,
        ),
        found_at(
            scripts::FILL_TAIL@,
            "el.dispatchEvent(new Event('change', {bubbles: true}))"@,
            283,
        ),
{
    reveal_strlit(r";
                const el = document.querySelector(sel);
                if (!el) return 'ERROR: no element matches selector: ' + sel;
                el.focus();
                el.value = val;
                el.dispatchEvent(new Event('input', {bubbles: true}));
                el.dispatchEvent(new Event('change', {bubbles: true}));
                return 'Filled ' + (el.name || el.id || el.tagName);
            })()");
    reveal_strlit("document.querySelector(sel)");
    assert(scripts::FILL_TAIL@.subrange(29, 56) =~= "document.querySelector(sel)"@);
    reveal_strlit("el.value = val;");
    assert(scripts::FILL_TAIL@.subrange(180, 195) =~= "el.value = val;"@);
    reveal_strlit("el.dispatchEvent(new Event('input', {bubbles: true}))");
    assert(scripts::FILL_TAIL@.subrange(212, 265)
        =~= "el.dispatchEvent(new Event('input', {bubbles: true}))"@);
    reveal_strlit("el.dispatchEvent(new Event('change', {bubbles: true}))");
    assert(scripts::FILL_TAIL@.subrange(283, 337)
        =~= "el.dispatchEvent(new Event('change', {bubbles: true}))"@);
}

/// Where the instructions of the fill script of the session tools stand in it.
proof fn lemma_fill_tail_of_session()
    ensures
        found_at(tools::scripts::FILL_TAIL@, "document.querySelector(sel)"@, 25),
        found_at(tools::scripts::FILL_TAIL@, "el.value = val;"@, 164),
        found_at(
            tools::scripts::FILL_TAIL@,
            "el.dispatchEvent(new Event('input', {bubbles: true}))"@,
            192,
        ),
        found_at(
            tools::scripts::FILL_TAIL@,
            "el.dispatchEvent(new Event('change', {bubbles: true}))"@,
            259,
        ),
{
    reveal_strlit(r";
            const el = document.querySelector(sel);
            if (!el) return 'ERROR: no element matches selector: ' + sel;
            el.focus();
            el.value = val;
            el.dispatchEvent(new Event('input', {bubbles: true}));
            el.dispatchEvent(new Event('change', {bubbles: true}));
            return 'Filled ' + (el.name || el.id || el.tagName);
        })()");
    reveal_strlit("document.querySelector(sel)");
    assert(tools::scripts::FILL_TAIL@.subrange(25, 52) =~= "document.querySelector(sel)"@);
    reveal_strlit("el.value = val;");
    assert(tools::scripts::FILL_TAIL@.subrange(164, 179) =~= "el.value = val;"@);
    reveal_strlit("el.dispatchEvent(new Event('input', {bubbles: true}))");
    assert(tools::scripts::FILL_TAIL@.subrange(192, 245)
        =~= "el.dispatchEvent(new Event('input', {bubbles: true}))"@);
    reveal_strlit("el.dispatchEvent(new Event('change', {bubbles: true}))");
    assert(tools::scripts::FILL_TAIL@.subrange(259, 313)
        =~= "el.dispatchEvent(new Event('change', {bubbles: true}))"@);
}

/// Where the instructions of the submitting script of the backend stand in it.
proof fn lemma_submit_form_of_backend()
    ensures
        found_at(
            scripts::SUBMIT_FORM@,
            r#"document.querySelector('button[type="submit"], input[type="submit"]')"#@,
            41,
        ),
        found_at(scripts::SUBMIT_FORM@, "if (btn) { btn.click();"@, 128),
{
    reveal_strlit(r#"(function(){
                const btn = document.querySelector('button[type="submit"], input[type="submit"]');
                if (btn) { btn.click(); return 'submitted'; }
                return 'no button';
            })()"#);
    reveal_strlit(r#"document.querySelector('button[type="submit"], input[type="submit"]')"#);
    assert(scripts::SUBMIT_FORM@.subrange(41, 110)
        =~= r#"document.querySelector('button[type="submit"], input[type="submit"]')"#@);
    reveal_strlit("if (btn) { btn.click();");
    assert(scripts::SUBMIT_FORM@.subrange(128, 151) =~= "if (btn) { btn.click();"@);
}

/// Where the instructions of the submitting script of the session tools stand in it.
proof fn lemma_submit_form_of_session()
    ensures
        found_at(
            tools::scripts::SUBMIT_FORM@,
            r#"document.querySelector('button[type="submit"], input[type="submit"]')"#@,
            37,
        ),
        found_at(tools::scripts::SUBMIT_FORM@, "if (btn) { btn.click();"@, 120),
{
    reveal_strlit(r#"(function(){
            const btn = document.querySelector('button[type="submit"], input[type="submit"]');
            if (btn) { btn.click(); return 'submitted'; }
            return 'no button';
        })()"#);
    reveal_strlit(r#"document.querySelector('button[type="submit"], input[type="submit"]')"#);
    assert(tools::scripts::SUBMIT_FORM@.subrange(37, 106)
        =~= r#"document.querySelector('button[type="submit"], input[type="submit"]')"#@);
    reveal_strlit("if (btn) { btn.click();");
    assert(tools::scripts::SUBMIT_FORM@.subrange(120, 143) =~= "if (btn) { btn.click();"@);
}

/// Where the instructions of the counting script stand in it.
proof fn lemma_pending_requests()
    ensures
        found_at(scripts::PENDING_REQUESTS@, "performance.getEntriesByType('resource')"@, 36),
        found_at(scripts::PENDING_REQUESTS@, ".filter(r => r.responseEnd === 0).length"@, 97),
{
    reveal_strlit(r"(function(){
                return performance.getEntriesByType('resource')
                    .filter(r => r.responseEnd === 0).length;
            })()");
    reveal_strlit("performance.getEntriesByType('resource')");
    assert(scripts::PENDING_REQUESTS@.subrange(36, 76)
        =~= "performance.getEntriesByType('resource')"@);
    reveal_strlit(".filter(r => r.responseEnd === 0).length");
    assert(scripts::PENDING_REQUESTS@.subrange(97, 137)
        =~= ".filter(r => r.responseEnd === 0).length"@);
}

/// Where the instructions of the reading script stand in it.
proof fn lemma_read_storage()
    ensures
        found_at(scripts::READ_STORAGE@, "const key = localStorage.key(i);"@, 121),
        found_at(scripts::READ_STORAGE@, "storage[key] = localStorage.getItem(key);"@, 170),
        found_at(scripts::READ_STORAGE@, "return JSON.stringify(storage);"@, 238),
{
    reveal_strlit(r"(function(){
            const storage = {};
            for (let i = 0; i < localStorage.length; i++) {
                const key = localStorage.key(i);
                storage[key] = localStorage.getItem(key);
            }
            return JSON.stringify(storage);
        })()");
    reveal_strlit("const key = localStorage.key(i);");
    assert(scripts::READ_STORAGE@.subrange(121, 153) =~= "const key = localStorage.key(i);"@);
    reveal_strlit("storage[key] = localStorage.getItem(key);");
    assert(scripts::READ_STORAGE@.subrange(170, 211)
        =~= "storage[key] = localStorage.getItem(key);"@);
    reveal_strlit("return JSON.stringify(storage);");
    assert(scripts::READ_STORAGE@.subrange(238, 269) =~= "return JSON.stringify(storage);"@);
}

/// Whatever the selector, the click script first looks for the element and
/// clicks it.
pub proof fn law_click_script_clicks_what_it_finds(dialect: Dialect, selector: Seq<char>)
    ensures
        holds_in_order(
            click_script(dialect, selector),
            "document.querySelector(sel)"@,
            "el.click();"@,
        ),
{
    match dialect {
        Dialect::Backend => {
            lemma_click_tail_of_backend();
            let head = scripts::CLICK_HEAD@ + quoted(selector);
            let tail = scripts::CLICK_TAIL@;
            assert(click_script(dialect, selector) =~= head + tail);
            lemma_behind(head, tail, "document.querySelector(sel)"@, 29);
            lemma_behind(head, tail, "el.click();"@, 152);
            reveal_strlit("document.querySelector(sel)");
            reveal_strlit("el.click();");
        },
        Dialect::Session => {
            lemma_click_tail_of_session();
            let head = tools::scripts::CLICK_HEAD@ + quoted(selector);
            let tail = tools::scripts::CLICK_TAIL@;
            assert(click_script(dialect, selector) =~= head + tail);
            lemma_behind(head, tail, "document.querySelector(sel)"@, 25);
            lemma_behind(head, tail, "el.click();"@, 140);
            reveal_strlit("document.querySelector(sel)");
            reveal_strlit("el.click();");
        },
    }
}

/// Whatever it is given, the fill script looks for the field, sets its value,
/// and only then tells the page of the input and of the change.
pub proof fn law_fill_script_sets_the_value_and_tells_the_page(
    dialect: Dialect,
    selector: Seq<char>,
    value: Seq<char>,
)
    ensures
        holds_in_order(
            fill_script(dialect, selector, value),
            "document.querySelector(sel)"@,
            "el.value = val;"@,
        ),
        holds_in_order(
            fill_script(dialect, selector, value),
            "el.value = val;"@,
            "el.dispatchEvent(new Event('input', {bubbles: true}))"@,
        ),
        holds_in_order(
            fill_script(dialect, selector, value),
            "el.dispatchEvent(new Event('input', {bubbles: true}))"@,
            "el.dispatchEvent(new Event('change', {bubbles: true}))"@,
        ),
{
    match dialect {
        Dialect::Backend => {
            lemma_fill_tail_of_backend();
            let head = scripts::FILL_HEAD@ + quoted(selector) + scripts::FILL_MIDDLE@
                + quoted(value);
            let tail = scripts::FILL_TAIL@;
            assert(fill_script(dialect, selector, value) =~= head + tail);
            lemma_behind(head, tail, "document.querySelector(sel)"@, 29);
            lemma_behind(head, tail, "el.value = val;"@, 180);
            lemma_behind(head, tail, "el.dispatchEvent(new Event('input', {bubbles: true}))"@, 212);
            lemma_behind(
                head,
                tail,
                "el.dispatchEvent(new Event('change', {bubbles: true}))"@,
                283,
            );
            reveal_strlit("document.querySelector(sel)");
            reveal_strlit("el.value = val;");
            reveal_strlit("el.dispatchEvent(new Event('input', {bubbles: true}))");
            reveal_strlit("el.dispatchEvent(new Event('change', {bubbles: true}))");
        },
        Dialect::Session => {
            lemma_fill_tail_of_session();
            let head = tools::scripts::FILL_HEAD@ + quoted(selector) + tools::scripts::FILL_MIDDLE@
                + quoted(value);
            let tail = tools::scripts::FILL_TAIL@;
            assert(fill_script(dialect, selector, value) =~= head + tail);
            lemma_behind(head, tail, "document.querySelector(sel)"@, 25);
            lemma_behind(head, tail, "el.value = val;"@, 164);
            lemma_behind(head, tail, "el.dispatchEvent(new Event('input', {bubbles: true}))"@, 192);
            lemma_behind(
                head,
                tail,
                "el.dispatchEvent(new Event('change', {bubbles: true}))"@,
                259,
            );
            reveal_strlit("document.querySelector(sel)");
            reveal_strlit("el.value = val;");
            reveal_strlit("el.dispatchEvent(new Event('input', {bubbles: true}))");
            reveal_strlit("el.dispatchEvent(new Event('change', {bubbles: true}))");
        },
    }
}

/// Submitting looks for the submit button and clicks it.
pub proof fn law_submitting_presses_the_button(dialect: Dialect)
    ensures
        holds_in_order(
            submit_script(dialect),
            r#"document.querySelector('button[type="submit"], input[type="submit"]')"#@,
            "if (btn) { btn.click();"@,
        ),
{
    match dialect {
        Dialect::Backend => {
            lemma_submit_form_of_backend();
            reveal_strlit(
                r#"document.querySelector('button[type="submit"], input[type="submit"]')"#
            );
            reveal_strlit("if (btn) { btn.click();");
        },
        Dialect::Session => {
            lemma_submit_form_of_session();
            reveal_strlit(
                r#"document.querySelector('button[type="submit"], input[type="submit"]')"#
            );
            reveal_strlit("if (btn) { btn.click();");
        },
    }
}

/// The counting script takes the resources of the page and counts those whose
/// response has not ended.
pub proof fn law_requests_without_response_are_counted()
    ensures
        holds_in_order(
            scripts::PENDING_REQUESTS@,
            "performance.getEntriesByType('resource')"@,
            ".filter(r => r.responseEnd === 0).length"@,
        ),
{
    lemma_pending_requests();
    reveal_strlit("performance.getEntriesByType('resource')");
    reveal_strlit(".filter(r => r.responseEnd === 0).length");
}

/// The reading script takes each item under its own key and hands all of them
/// over.
pub proof fn law_storage_is_read_item_by_item()
    ensures
        holds_in_order(
            scripts::READ_STORAGE@,
            "const key = localStorage.key(i);"@,
            "storage[key] = localStorage.getItem(key);"@,
        ),
        holds_in_order(
            scripts::READ_STORAGE@,
            "storage[key] = localStorage.getItem(key);"@,
            "return JSON.stringify(storage);"@,
        ),
{
    lemma_read_storage();
    reveal_strlit("const key = localStorage.key(i);");
    reveal_strlit("storage[key] = localStorage.getItem(key);");
    reveal_strlit("return JSON.stringify(storage);");
}

} // verus!
