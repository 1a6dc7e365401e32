//! Texts as string literals in a script: how they are written between single
//! quotes, and that a literal says its text again when the script is read.

use vstd::prelude::*;

use crate::json::{escaped, escaped_char, quoted};
use crate::text::chars_of;

verus! {

/// A character as it stands in a literal between single quotes. What would end
/// the literal, and what would end its line, is escaped.
pub open spec fn singly_escaped_char(c: char) -> Seq<char> {
    if c == '\'' {
        seq!['\\', '\'']
    } else if c == '\\' {
        seq!['\\', '\\']
    } else if c == '\n' {
        seq!['\\', 'n']
    } else if c == '\r' {
        seq!['\\', 'r']
    } else if c == '\u{2028}' {
        seq!['\\', 'u', '2', '0', '2', '8']
    } else if c == '\u{2029}' {
        seq!['\\', 'u', '2', '0', '2', '9']
    } else {
        seq![c]
    }
}

/// A text as it stands between the quotes of a single-quoted literal.
pub open spec fn singly_escaped(text: Seq<char>) -> Seq<char>
    decreases text.len(),
{
    if text.len() == 0 {
        text
    } else {
        singly_escaped_char(text[0]) + singly_escaped(text.skip(1))
    }
}

/// A text as a literal in single quotes.
pub open spec fn singly_quoted(text: Seq<char>) -> Seq<char> {
    seq!['\''] + singly_escaped(text) + seq!['\'']
}

/// A text as a literal in single quotes.
pub fn single_quoted_literal(text: &str) -> (literal: String)
    ensures
        literal@ == singly_quoted(text@),
{
    let chars = chars_of(text);
    let mut literal = String::new();
    literal.push('\'');
    let mut i: usize = 0;
    assert(chars@.skip(0) == chars@);
    while i < chars.len()
        invariant
            i <= chars@.len(),
            literal@ + singly_escaped(chars@.skip(i as int)) == seq!['\''] + singly_escaped(chars@),
        decreases chars@.len() - i,
    {
        let ghost before = literal@;
        let ghost rest = chars@.skip(i as int);
        let c = chars[i];
        assert(rest[0] == c);
        assert(rest.skip(1) == chars@.skip(i + 1));
        if c == '\'' {
            literal.push('\\');
            literal.push('\'');
        } else if c == '\\' {
            literal.push('\\');
            literal.push('\\');
        } else if c == '\n' {
            literal.push('\\');
            literal.push('n');
        } else if c == '\r' {
            literal.push('\\');
            literal.push('r');
        } else if c == '\u{2028}' || c == '\u{2029}' {
            literal.push('\\');
            literal.push('u');
            literal.push('2');
            literal.push('0');
            literal.push('2');
            literal.push(if c == '\u{2028}' { '8' } else { '9' });
        } else {
            literal.push(c);
        }
        i += 1;
        assert(literal@ == before + singly_escaped_char(c));
        assert(literal@ + singly_escaped(chars@.skip(i as int)) == before + (singly_escaped_char(c)
            + singly_escaped(chars@.skip(i as int))));
    }
    literal.push('\'');
    literal
}

/// Where a string literal closes, when its content is read from position `at`:
/// a backslash takes the next character with it, and a line that ends before
/// the quote comes leaves the literal open.
pub open spec fn closing_quote(script: Seq<char>, quote: char, at: int) -> Option<int>
    decreases script.len() + 2 - at,
{
    if at < 0 || at >= script.len() || script[at] == '\n' || script[at] == '\r' {
        None
    } else if script[at] == quote {
        Some(at)
    } else if script[at] == '\\' {
        closing_quote(script, quote, at + 2)
    } else {
        closing_quote(script, quote, at + 1)
    }
}

/// The value of a hexadecimal digit.
pub open spec fn hex_value(c: char) -> int {
    if '0' <= c && c <= '9' {
        c as int - 48
    } else {
        c as int - 87
    }
}

/// The character that a backslash and the given character stand for.
pub open spec fn meant_by(c: char) -> char {
    if c == 'n' {
        '\n'
    } else if c == 'r' {
        '\r'
    } else if c == 't' {
        '\t'
    } else if c == 'b' {
        '\u{8}'
    } else if c == 'f' {
        '\u{c}'
    } else {
        c
    }
}

/// The text that the content of a literal says.
pub open spec fn unescaped(content: Seq<char>) -> Seq<char>
    decreases content.len(),
{
    if content.len() == 0 {
        content
    } else if content[0] != '\\' || content.len() == 1 {
        seq![content[0]] + unescaped(content.skip(1))
    } else if content[1] == 'u' && content.len() >= 6 {
        seq![
            (4096 * hex_value(content[2]) + 256 * hex_value(content[3]) + 16 * hex_value(content[4])
                + hex_value(content[5])) as char,
        ] + unescaped(content.skip(6))
    } else {
        seq![meant_by(content[1])] + unescaped(content.skip(2))
    }
}

/// The text of the string literal that begins at a position of a script; none
/// where no literal begins there or where it is not closed on its line.
pub open spec fn literal_at(script: Seq<char>, at: int) -> Option<Seq<char>> {
    if 0 <= at < script.len() && (script[at] == '"' || script[at] == '\'') {
        match closing_quote(script, script[at], at + 1) {
            Some(end) => Some(unescaped(script.subrange(at + 1, end))),
            None => None,
        }
    } else {
        None
    }
}

/// A piece of the content of a literal stands for one character.
spec fn stands_for(piece: Seq<char>, c: char, quote: char) -> bool {
    ||| piece == seq![c] && c != quote && c != '\\' && c != '\n' && c != '\r'
    ||| piece.len() == 2 && piece[0] == '\\' && piece[1] != 'u' && meant_by(piece[1]) == c
    ||| {
        &&& piece.len() == 6 && piece[0] == '\\' && piece[1] == 'u'
        &&& forall|k: int| 2 <= k < 6 ==> '0' <= #[trigger] piece[k] && piece[k] != '\\'
        &&& (4096 * hex_value(piece[2]) + 256 * hex_value(piece[3]) + 16 * hex_value(piece[4])
            + hex_value(piece[5])) == c as int
    }
}

/// Reading a literal passes over a piece of its content.
proof fn lemma_piece_is_passed(
    before: Seq<char>,
    piece: Seq<char>,
    after: Seq<char>,
    c: char,
    quote: char,
)
    requires
        stands_for(piece, c, quote),
        quote == '"' || quote == '\'',
    ensures
        closing_quote(before + piece + after, quote, before.len() as int) == closing_quote(
            before + piece + after,
            quote,
            (before.len() + piece.len()) as int,
        ),
        unescaped(piece + after) == seq![c] + unescaped(after),
{
    let script = before + piece + after;
    let at = before.len() as int;
    assert forall|k: int| 0 <= k < piece.len() implies script[at + k] == piece[k] by {}
    let content = piece + after;
    assert forall|k: int| 0 <= k < piece.len() implies content[k] == piece[k] by {}
    assert(content.skip(piece.len() as int) == after);
    if piece.len() == 6 {
        assert(script[at] == piece[0]);
        assert(script[at + 2] == piece[2]);
        assert(script[at + 3] == piece[3]);
        assert(script[at + 4] == piece[4]);
        assert(script[at + 5] == piece[5]);
        reveal_with_fuel(closing_quote, 6);
        assert(content[0] == piece[0] && content[1] == piece[1]);
        assert((c as int) as char == c);
    } else {
        assert(script[at] == piece[0]);
        assert(content[0] == piece[0]);
        if piece.len() == 2 {
            assert(content[1] == piece[1]);
        }
    }
}

proof fn lemma_escaped_char_stands(c: char)
    ensures
        stands_for(escaped_char(c), c, '"'),
        stands_for(singly_escaped_char(c), c, '\''),
{
    let piece = escaped_char(c);
    if piece.len() == 6 {
        let n = c as int;
        assert(n < 32);
        assert(16 * (n / 16) + n % 16 == n);
        assert(hex_value(piece[2]) == 0 && hex_value(piece[3]) == 0);
        assert(hex_value(piece[4]) == n / 16);
        assert(hex_value(piece[5]) == n % 16);
    }
}

/// Content between double quotes is read to its end and says its text.
proof fn lemma_content_is_read(before: Seq<char>, text: Seq<char>, after: Seq<char>)
    ensures
        closing_quote(before + escaped(text) + seq!['"'] + after, '"', before.len() as int) == Some(
            (before.len() + escaped(text).len()) as int,
        ),
        unescaped(escaped(text)) == text,
    decreases text.len(),
{
    let script = before + escaped(text) + seq!['"'] + after;
    if text.len() == 0 {
        assert(script[before.len() as int] == '"');
    } else {
        let piece = escaped_char(text[0]);
        let rest = escaped(text.skip(1));
        lemma_escaped_char_stands(text[0]);
        lemma_piece_is_passed(before, piece, rest + seq!['"'] + after, text[0], '"');
        lemma_piece_is_passed(before, piece, rest, text[0], '"');
        lemma_content_is_read(before + piece, text.skip(1), after);
        assert(script == before + piece + (rest + seq!['"'] + after));
        assert(script == before + piece + rest + seq!['"'] + after);
        assert(text == seq![text[0]] + text.skip(1));
    }
}

/// Content between single quotes is read to its end and says its text.
proof fn lemma_single_content_is_read(before: Seq<char>, text: Seq<char>, after: Seq<char>)
    ensures
        closing_quote(
            before + singly_escaped(text) + seq!['\''] + after,
            '\'',
            before.len() as int,
        ) == Some((before.len() + singly_escaped(text).len()) as int),
        unescaped(singly_escaped(text)) == text,
    decreases text.len(),
{
    let script = before + singly_escaped(text) + seq!['\''] + after;
    if text.len() == 0 {
        assert(script[before.len() as int] == '\'');
    } else {
        let piece = singly_escaped_char(text[0]);
        let rest = singly_escaped(text.skip(1));
        lemma_escaped_char_stands(text[0]);
        lemma_piece_is_passed(before, piece, rest + seq!['\''] + after, text[0], '\'');
        lemma_piece_is_passed(before, piece, rest, text[0], '\'');
        lemma_single_content_is_read(before + piece, text.skip(1), after);
        assert(script == before + piece + (rest + seq!['\''] + after));
        assert(script == before + piece + rest + seq!['\''] + after);
        assert(text == seq![text[0]] + text.skip(1));
    }
}

/// A text written as a literal in double quotes is read back as that text,
/// whatever it holds and whatever stands around it: the literal closes at its
/// own last character, on its line.
pub proof fn law_literal_says_its_text(before: Seq<char>, text: Seq<char>, after: Seq<char>)
    ensures
        literal_at(before + quoted(text) + after, before.len() as int) == Some(text),
        closing_quote(before + quoted(text) + after, '"', before.len() as int + 1) == Some(
            before.len() + quoted(text).len() - 1,
        ),
{
    let script = before + quoted(text) + after;
    let at = before.len() as int;
    lemma_content_is_read(before + seq!['"'], text, after);
    assert(script == before + seq!['"'] + escaped(text) + seq!['"'] + after);
    assert(script[at] == '"');
    assert(script.subrange(at + 1, at + quoted(text).len() - 1) == escaped(text));
}

/// A text written as a literal in single quotes is read back as that text,
/// whatever it holds and whatever stands around it: the literal closes at its
/// own last character, on its line.
pub proof fn law_single_quoted_literal_says_its_text(
    before: Seq<char>,
    text: Seq<char>,
    after: Seq<char>,
)
    ensures
        literal_at(before + singly_quoted(text) + after, before.len() as int) == Some(text),
        closing_quote(before + singly_quoted(text) + after, '\'', before.len() as int + 1) == Some(
            before.len() + singly_quoted(text).len() - 1,
        ),
{
    let script = before + singly_quoted(text) + after;
    let at = before.len() as int;
    lemma_single_content_is_read(before + seq!['\''], text, after);
    assert(script == before + seq!['\''] + singly_escaped(text) + seq!['\''] + after);
    assert(script[at] == '\'');
    assert(script.subrange(at + 1, at + singly_quoted(text).len() - 1) == singly_escaped(text));
}

/// A literal in double quotes holds no control character.
pub proof fn law_literal_has_no_control_character(text: Seq<char>)
    ensures
        forall|i: int| 0 <= i < quoted(text).len() ==> (#[trigger] quoted(text)[i]) as nat >= 32,
{
    lemma_content_has_no_control_character(text);
}

proof fn lemma_content_has_no_control_character(text: Seq<char>)
    ensures
        forall|i: int| 0 <= i < escaped(text).len() ==> (#[trigger] escaped(text)[i]) as nat >= 32,
    decreases text.len(),
{
    if text.len() > 0 {
        lemma_content_has_no_control_character(text.skip(1));
        let first = escaped_char(text[0]);
        assert forall|i: int| 0 <= i < first.len() implies (#[trigger] first[i]) as nat >= 32 by {}
        assert forall|i: int| 0 <= i < escaped(text).len() implies (#[trigger] escaped(
            text,
        )[i]) as nat >= 32 by {
            if i >= first.len() {
                assert(escaped(text)[i] == escaped(text.skip(1))[i - first.len()]);
            }
        }
    }
}

/// Different texts are written as different literals, with quotes of either
/// kind.
pub proof fn law_literals_tell_texts_apart(a: Seq<char>, b: Seq<char>)
    requires
        a != b,
    ensures
        quoted(a) != quoted(b),
        singly_quoted(a) != singly_quoted(b),
{
    let nothing = Seq::<char>::empty();
    law_literal_says_its_text(nothing, a, nothing);
    law_literal_says_its_text(nothing, b, nothing);
    law_single_quoted_literal_says_its_text(nothing, a, nothing);
    law_single_quoted_literal_says_its_text(nothing, b, nothing);
}

} // verus!
