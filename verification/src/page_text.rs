//! The visible text of a page, cut to a length that can be passed on.

use vstd::prelude::*;
use vstd::utf8::{encode_scalar, encode_utf8, is_char_boundary};

use crate::json::{json_outcome, Json, JsonView};
use crate::reply::{read_returned_text_or, returned_text_or};
use crate::step::{Dialect, Step, StepView};
use crate::text::{decimal, decimal_text};

verus! {

/// How many bytes of a page's text are passed on.
pub const MAX_BYTES: usize = 8_000;

/// The longest beginning of a text whose UTF-8 form has at most `limit` bytes.
pub open spec fn longest_beginning(text: Seq<char>, limit: nat) -> Seq<char>
    decreases text.len(),
{
    if text.len() == 0 || encode_utf8(text).len() <= limit {
        text
    } else {
        longest_beginning(text.drop_last(), limit)
    }
}

/// A page's text as it is passed on.
pub open spec fn text_report(text: Seq<char>) -> Seq<char> {
    if text.len() == 0 {
        "Page has no visible text content."@
    } else if encode_utf8(text).len() > MAX_BYTES {
        longest_beginning(text, MAX_BYTES as nat) + "\n[truncated — "@ + decimal(
            encode_utf8(text).len(),
        ) + " chars total]"@
    } else {
        text
    }
}

/// The text of the page in a reply.
pub open spec fn body_text(dialect: Dialect, reply: JsonView) -> Seq<char> {
    returned_text_or(dialect, reply, ""@)
}

/// The outcome when the visible text of the page has been asked for.
pub open spec fn after_reading(dialect: Dialect, reply: Result<JsonView, Seq<char>>) -> StepView {
    StepView::Done {
        outcome: match reply {
            Ok(value) => Ok(text_report(body_text(dialect, value))),
            Err(message) => Err(message),
        },
    }
}

/// The UTF-8 form of two texts in a row.
proof fn lemma_encode_concat(a: Seq<char>, b: Seq<char>)
    ensures
        encode_utf8(a + b) == encode_utf8(a) + encode_utf8(b),
    decreases a.len(),
{
    if a.len() == 0 {
        assert(a + b == b);
    } else {
        lemma_encode_concat(a.drop_first(), b);
        assert((a + b).drop_first() == a.drop_first() + b);
        assert((a + b)[0] == a[0]);
    }
}

/// One character takes from one to four bytes.
proof fn lemma_last_character(text: Seq<char>)
    requires
        text.len() > 0,
    ensures
        encode_utf8(text.drop_last()).len() < encode_utf8(text).len(),
        encode_utf8(text).len() <= encode_utf8(text.drop_last()).len() + 4,
{
    let last = seq![text.last()];
    assert(text == text.drop_last() + last);
    lemma_encode_concat(text.drop_last(), last);
    assert(last.drop_first() == Seq::<char>::empty());
    assert(encode_utf8(last) == encode_scalar(text.last() as u32) + encode_utf8(last.drop_first()));
}

/// The end of a beginning is a boundary between characters.
proof fn lemma_beginning_ends_at_boundary(a: Seq<char>, b: Seq<char>)
    ensures
        is_char_boundary(encode_utf8(a + b), encode_utf8(a).len() as int),
    decreases a.len(),
{
    broadcast use vstd::utf8::encode_utf8_valid_utf8;

    if a.len() > 0 {
        let rest = a.drop_first();
        let bytes = encode_utf8(a + b);
        lemma_beginning_ends_at_boundary(rest, b);
        lemma_encode_concat(a, b);
        assert((a + b).drop_first() == rest + b);
        assert((a + b)[0] == a[0]);
        vstd::utf8::encode_utf8_first_scalar(a + b);
        assert(vstd::utf8::pop_first_scalar(bytes) == encode_utf8(rest + b));
    }
}

/// A beginning that fits, where one more character would not, is the longest.
proof fn lemma_longest(a: Seq<char>, c: char, b: Seq<char>, limit: nat)
    requires
        encode_utf8(a).len() <= limit,
        encode_utf8(a.push(c)).len() > limit,
    ensures
        longest_beginning(a.push(c) + b, limit) == a,
    decreases b.len(),
{
    let text = a.push(c) + b;
    lemma_encode_concat(a.push(c), b);
    if b.len() == 0 {
        assert(text == a.push(c));
        assert(text.drop_last() == a);
        assert(longest_beginning(a, limit) == a);
    } else {
        assert(text.drop_last() == a.push(c) + b.drop_last());
        lemma_longest(a, c, b.drop_last(), limit);
    }
}

/// The longest beginning of a text that fits.
fn cut_text(text: &str) -> (head: String)
    requires
        encode_utf8(text@).len() > MAX_BYTES,
    ensures
        head@ == longest_beginning(text@, MAX_BYTES as nat),
{
    broadcast use vstd::utf8::encode_utf8_valid_utf8;

    let ghost bytes = encode_utf8(text@);
    let mut cut: usize = MAX_BYTES;
    while !text.is_char_boundary(cut)
        invariant
            cut <= MAX_BYTES,
            bytes == encode_utf8(text@),
            vstd::utf8::valid_utf8(bytes),
            forall|k: int| cut < k <= MAX_BYTES ==> !is_char_boundary(bytes, k),
        decreases cut,
    {
        assert(is_char_boundary(bytes, 0));
        cut -= 1;
    }
    let (head, tail) = text.split_at(cut);
    proof {
        vstd::utf8::encode_utf8_decode_utf8(text@);
        vstd::utf8::encode_utf8_decode_utf8(head@);
        vstd::utf8::encode_utf8_decode_utf8(tail@);
        vstd::utf8::decode_utf8_split(bytes, cut as int);
        assert(text@ == head@ + tail@);
        assert(encode_utf8(head@).len() == cut);
        assert(tail@.len() > 0) by {
            if tail@.len() == 0 {
                assert(text@ == head@);
            }
        }
        let c = tail@[0];
        let rest = tail@.drop_first();
        assert(text@ == head@.push(c) + rest);
        lemma_beginning_ends_at_boundary(head@.push(c), rest);
        assert(head@.push(c).drop_last() == head@);
        lemma_last_character(head@.push(c));
        lemma_longest(head@, c, rest, MAX_BYTES as nat);
    }
    head.to_owned()
}

/// A page's text as it is passed on.
pub fn report_text(text: String) -> (report: String)
    ensures
        report@ == text_report(text@),
{
    if text.as_str().is_empty() {
        return "Page has no visible text content.".to_owned();
    }
    let length: usize = text.as_str().as_bytes().len();
    if length > MAX_BYTES {
        cut_text(text.as_str()).concat("\n[truncated — ").concat(
            decimal_text(length as u64).as_str(),
        ).concat(" chars total]")
    } else {
        text
    }
}

/// The outcome when the visible text of the page has been asked for.
pub fn text_read(dialect: Dialect, reply: Result<Json, String>) -> (step: Step)
    ensures
        step@ == after_reading(dialect, json_outcome(reply)),
{
    match reply {
        Ok(value) => Step::Done {
            outcome: Ok(report_text(read_returned_text_or(dialect, &value, ""))),
        },
        Err(message) => Step::Done { outcome: Err(message) },
    }
}

/// The longest beginning that fits is a beginning, fits, and leaves no more than
/// three bytes of the limit unused.
proof fn lemma_longest_beginning(text: Seq<char>, limit: nat)
    ensures
        longest_beginning(text, limit).is_prefix_of(text),
        encode_utf8(longest_beginning(text, limit)).len() <= limit,
        encode_utf8(text).len() > limit ==> encode_utf8(longest_beginning(text, limit)).len() + 4
            > limit,
    decreases text.len(),
{
    if text.len() > 0 && encode_utf8(text).len() > limit {
        lemma_longest_beginning(text.drop_last(), limit);
        lemma_last_character(text);
        let kept = longest_beginning(text, limit);
        assert(kept == text.drop_last().take(kept.len() as int));
        assert(kept == text.take(kept.len() as int));
    }
}

/// The longest beginning that fits is cut behind its last character: with one
/// more it would not fit.
pub proof fn lemma_cut(text: Seq<char>, limit: nat)
    requires
        encode_utf8(text).len() > limit,
    ensures
        ({
            let kept = longest_beginning(text, limit).len() as int;
            &&& 0 <= kept < text.len()
            &&& longest_beginning(text, limit) == text.take(kept)
            &&& encode_utf8(text.take(kept)).len() <= limit
            &&& encode_utf8(text.take(kept + 1)).len() > limit
        }),
    decreases text.len(),
{
    lemma_longest_beginning(text, limit);
    let kept = longest_beginning(text, limit).len() as int;
    if encode_utf8(text.drop_last()).len() > limit {
        lemma_cut(text.drop_last(), limit);
        assert(text.drop_last().take(kept) == text.take(kept));
        assert(text.drop_last().take(kept + 1) == text.take(kept + 1));
    } else {
        assert(longest_beginning(text.drop_last(), limit) == text.drop_last());
        assert(text.take(kept + 1) == text);
        assert(text.take(kept) == text.drop_last());
    }
}

/// A long text is passed on as its own beginning, of at most the permitted
/// number of bytes and at most three bytes less, followed by a note of its whole
/// length. It is never cut inside a character.
pub proof fn law_long_text_keeps_its_beginning(text: Seq<char>)
    requires
        encode_utf8(text).len() > MAX_BYTES,
    ensures
        longest_beginning(text, MAX_BYTES as nat).is_prefix_of(text),
        MAX_BYTES - 4 < encode_utf8(longest_beginning(text, MAX_BYTES as nat)).len() <= MAX_BYTES,
        text_report(text) == longest_beginning(text, MAX_BYTES as nat) + "\n[truncated — "@
            + decimal(encode_utf8(text).len()) + " chars total]"@,
{
    lemma_longest_beginning(text, MAX_BYTES as nat);
}

/// A text of permitted length is passed on unchanged.
pub proof fn law_short_text_is_kept(text: Seq<char>)
    requires
        0 < text.len(),
        encode_utf8(text).len() <= MAX_BYTES,
    ensures
        text_report(text) == text,
{
}

} // verus!
