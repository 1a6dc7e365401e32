//! Text as sequences of characters: search, replacement, trimming and decimal
//! numbers.

use vstd::prelude::*;

verus! {

/// `String::push` appends the given character to the end of the string.
pub assume_specification[ String::push ](text: &mut String, c: char)
    ensures
        final(text)@ == old(text)@.push(c),
;

/// The lower-case form of a text, as `str::to_lowercase` gives it.
pub uninterp spec fn lowercase_of(text: Seq<char>) -> Seq<char>;

/// Every character of the text is an ASCII character.
pub open spec fn is_ascii_text(text: Seq<char>) -> bool {
    forall|i: int| 0 <= i < text.len() ==> (#[trigger] text[i] as nat) < 128
}

/// An ASCII character, a capital letter turned into the small one.
pub open spec fn ascii_lower(c: char) -> char {
    if 'A' <= c && c <= 'Z' {
        (c as u8 + 32) as char
    } else {
        c
    }
}

/// The lower-case form of a text: for an ASCII text letter by letter, for any
/// other as `str::to_lowercase` gives it.
pub open spec fn lowered(text: Seq<char>) -> Seq<char> {
    if is_ascii_text(text) {
        text.map_values(|c: char| ascii_lower(c))
    } else {
        lowercase_of(text)
    }
}

/// Calls `str::to_lowercase`, which maps a text to its Unicode lower-case form
/// without regard to the locale. The result is a function of the text alone,
/// named `lowercase_of`. In an ASCII text the letters A to Z become a to z and
/// everything else stays.
#[verifier::external_body]
fn lowercase(text: &str) -> (lower: String)
    ensures
        lower@ == lowercase_of(text@),
        is_ascii_text(text@) ==> lower@ == text@.map_values(|c: char| ascii_lower(c)),
{
    text.to_lowercase()
}

/// The lower-case form of a text.
pub fn to_lower(text: &str) -> (lower: String)
    ensures
        lower@ == lowered(text@),
{
    lowercase(text)
}

/// `needle` stands in `text` at position `at`.
pub open spec fn found_at(text: Seq<char>, needle: Seq<char>, at: int) -> bool {
    &&& 0 <= at
    &&& at + needle.len() <= text.len()
    &&& text.subrange(at, at + needle.len()) == needle
}

/// `needle` stands somewhere in `text`.
pub open spec fn occurs_in(text: Seq<char>, needle: Seq<char>) -> bool {
    exists|at: int| found_at(text, needle, at)
}

/// `text` with every match of `from`, taken from the left and without overlap,
/// replaced by `to`.
pub open spec fn replaced(text: Seq<char>, from: Seq<char>, to: Seq<char>) -> Seq<char>
    decreases text.len(),
{
    if text.len() == 0 || from.len() == 0 {
        text
    } else if found_at(text, from, 0) {
        to + replaced(text.skip(from.len() as int), from, to)
    } else {
        seq![text[0]] + replaced(text.skip(1), from, to)
    }
}

/// `text` without the run of `c` that ends it.
pub open spec fn trimmed_end(text: Seq<char>, c: char) -> Seq<char>
    decreases text.len(),
{
    if text.len() > 0 && text.last() == c {
        trimmed_end(text.drop_last(), c)
    } else {
        text
    }
}

/// The decimal digit for a number below ten.
pub open spec fn digit(n: nat) -> char {
    ((48 + n) as u8) as char
}

/// A number in decimal notation, without leading zeros.
pub open spec fn decimal(n: nat) -> Seq<char>
    decreases n,
{
    if n < 10 {
        seq![digit(n)]
    } else {
        decimal(n / 10).push(digit(n % 10))
    }
}

/// The texts in order, with `separator` between neighbours.
pub open spec fn joined(parts: Seq<Seq<char>>, separator: Seq<char>) -> Seq<char>
    decreases parts.len(),
{
    if parts.len() == 0 {
        seq![]
    } else if parts.len() == 1 {
        parts[0]
    } else {
        joined(parts.drop_last(), separator) + separator + parts.last()
    }
}

/// The order of texts by character, the shorter first where one begins the
/// other.
pub open spec fn text_less(a: Seq<char>, b: Seq<char>) -> bool
    decreases a.len(),
{
    if b.len() == 0 {
        false
    } else if a.len() == 0 {
        true
    } else {
        a[0] < b[0] || (a[0] == b[0] && text_less(a.skip(1), b.skip(1)))
    }
}

/// The views of a list of texts.
pub open spec fn texts(list: Seq<String>) -> Seq<Seq<char>> {
    list.map_values(|text: String| text@)
}

/// The view of an optional text.
pub open spec fn optional_text(text: Option<String>) -> Option<Seq<char>> {
    match text {
        Some(text) => Some(text@),
        None => None,
    }
}

/// The view of an optional borrowed text.
pub open spec fn optional_str(text: Option<&str>) -> Option<Seq<char>> {
    match text {
        Some(text) => Some(text@),
        None => None,
    }
}

/// The view of a text or of the message that stands in its place.
pub open spec fn outcome_text(outcome: Result<String, String>) -> Result<Seq<char>, Seq<char>> {
    match outcome {
        Ok(text) => Ok(text@),
        Err(message) => Err(message@),
    }
}

/// A copy of an optional text.
pub fn copy_optional(text: &Option<String>) -> (copy: Option<String>)
    ensures
        optional_text(copy) == optional_text(*text),
{
    match text {
        Some(text) => Some(text.clone()),
        None => None,
    }
}

/// Whether two texts hold the same characters.
pub fn same_text(a: &str, b: &str) -> (same: bool)
    ensures
        same == (a@ == b@),
{
    a.to_owned() == b.to_owned()
}

/// The characters of a text.
pub fn chars_of(text: &str) -> (chars: Vec<char>)
    ensures
        chars@ == text@,
{
    let mut chars: Vec<char> = Vec::new();
    for c in it: text.chars()
        invariant
            it.seq() == text@,
            chars@ == text@.take(it.index() as int),
    {
        chars.push(c);
    }
    chars
}

/// Whether `needle` stands in `text` at position `at`.
fn matches_at(text: &Vec<char>, needle: &Vec<char>, at: usize) -> (found: bool)
    requires
        at <= text@.len(),
    ensures
        found == found_at(text@, needle@, at as int),
{
    let length: usize = text.len();
    if length - at < needle.len() {
        return false;
    }
    let mut i: usize = 0;
    while i < needle.len()
        invariant
            i <= needle@.len(),
            at + needle@.len() <= length,
            length == text@.len(),
            forall|k: int| 0 <= k < i ==> text@[at + k] == needle@[k],
        decreases needle@.len() - i,
    {
        if text[at + i] != needle[i] {
            proof {
                assert(text@.subrange(at as int, at + needle@.len())[i as int] == text@[at + i]);
            }
            return false;
        }
        i += 1;
    }
    assert(text@.subrange(at as int, at + needle@.len()) == needle@);
    true
}

/// Whether `text` begins with `prefix`.
pub fn starts_with(text: &str, prefix: &str) -> (found: bool)
    ensures
        found == found_at(text@, prefix@, 0),
{
    matches_at(&chars_of(text), &chars_of(prefix), 0)
}

/// Whether `needle` stands somewhere in `text`.
pub fn contains(text: &str, needle: &str) -> (found: bool)
    ensures
        found == occurs_in(text@, needle@),
{
    let chars = chars_of(text);
    let pattern = chars_of(needle);
    let mut at: usize = 0;
    while at < chars.len()
        invariant
            chars@ == text@,
            pattern@ == needle@,
            at <= chars@.len(),
            forall|k: int| 0 <= k < at ==> !found_at(text@, needle@, k),
        decreases chars@.len() - at,
    {
        if matches_at(&chars, &pattern, at) {
            return true;
        }
        at += 1;
    }
    matches_at(&chars, &pattern, at)
}

/// `text` with every match of `from` replaced by `to`.
pub fn replace(text: &str, from: &str, to: &str) -> (result: String)
    requires
        from@.len() > 0,
    ensures
        result@ == replaced(text@, from@, to@),
{
    let chars = chars_of(text);
    let pattern = chars_of(from);
    let mut result = String::new();
    let mut at: usize = 0;
    assert(chars@.skip(0) == chars@);
    while at < chars.len()
        invariant
            at <= chars@.len(),
            pattern@ == from@,
            from@.len() > 0,
            result@ + replaced(chars@.skip(at as int), from@, to@) == replaced(
                chars@,
                from@,
                to@,
            ),
        decreases chars@.len() - at,
    {
        let ghost rest = chars@.skip(at as int);
        let ghost before = result@;
        if matches_at(&chars, &pattern, at) {
            proof {
                assert(rest.subrange(0, from@.len() as int) == chars@.subrange(
                    at as int,
                    at + from@.len(),
                ));
                assert(found_at(rest, from@, 0));
                assert(rest.skip(from@.len() as int) == chars@.skip(at + from@.len()));
            }
            result.append(to);
            at += pattern.len();
            assert(result@ + replaced(chars@.skip(at as int), from@, to@) == before + (to@
                + replaced(chars@.skip(at as int), from@, to@)));
        } else {
            proof {
                if found_at(rest, from@, 0) {
                    assert(rest.subrange(0, from@.len() as int) == chars@.subrange(
                        at as int,
                        at + from@.len(),
                    ));
                }
                assert(rest.skip(1) == chars@.skip(at + 1));
            }
            result.push(chars[at]);
            at += 1;
            assert(result@ + replaced(chars@.skip(at as int), from@, to@) == before + (
            seq![rest[0]] + replaced(chars@.skip(at as int), from@, to@)));
        }
    }
    assert(result@ + Seq::<char>::empty() == result@);
    result
}

/// `text` without the run of `c` that ends it.
pub fn trim_end(text: &str, c: char) -> (result: String)
    ensures
        result@ == trimmed_end(text@, c),
{
    let chars = chars_of(text);
    let mut end: usize = chars.len();
    assert(chars@.take(end as int) == chars@);
    while end > 0 && chars[end - 1] == c
        invariant
            end <= chars@.len(),
            trimmed_end(chars@.take(end as int), c) == trimmed_end(chars@, c),
        decreases end,
    {
        assert(chars@.take(end as int).drop_last() == chars@.take(end - 1));
        end -= 1;
    }
    let mut result = String::new();
    let mut i: usize = 0;
    while i < end
        invariant
            i <= end <= chars@.len(),
            result@ == chars@.take(i as int),
        decreases end - i,
    {
        result.push(chars[i]);
        i += 1;
    }
    result
}

/// A number in decimal notation.
pub fn decimal_text(n: u64) -> (text: String)
    ensures
        text@ == decimal(n as nat),
    decreases n,
{
    if n < 10 {
        let mut text = String::new();
        text.push((48 + n as u8) as char);
        text
    } else {
        let mut text = decimal_text(n / 10);
        text.push((48 + (n % 10) as u8) as char);
        text
    }
}

/// Trimming leaves a text that does not end in the trimmed character, and only
/// takes that character away.
pub proof fn lemma_trimmed_end(text: Seq<char>, c: char)
    ensures
        trimmed_end(text, c).len() > 0 ==> trimmed_end(text, c).last() != c,
        trimmed_end(text, c).len() <= text.len(),
        trimmed_end(text, c) == text.take(trimmed_end(text, c).len() as int),
        forall|i: int| trimmed_end(text, c).len() <= i < text.len() ==> text[i] == c,
    decreases text.len(),
{
    if text.len() > 0 && text.last() == c {
        lemma_trimmed_end(text.drop_last(), c);
        let kept = trimmed_end(text, c).len() as int;
        assert(text.drop_last().take(kept) == text.take(kept));
        assert forall|i: int| kept <= i < text.len() implies text[i] == c by {
            if i < text.len() - 1 {
                assert(text.drop_last()[i] == text[i]);
            }
        }
    } else {
        assert(text.take(text.len() as int) == text);
    }
}

/// A text occurs in another exactly where the other can be taken apart around
/// it.
pub proof fn law_occurrence_takes_the_text_apart(text: Seq<char>, needle: Seq<char>)
    ensures
        occurs_in(text, needle) <==> exists|before: Seq<char>, after: Seq<char>|
            text == #[trigger] (before + needle + after),
        forall|before: Seq<char>, after: Seq<char>|
            text == #[trigger] (before + needle + after) ==> found_at(
                text,
                needle,
                before.len() as int,
            ),
{
    if occurs_in(text, needle) {
        let at = choose|at: int| found_at(text, needle, at);
        let before = text.take(at);
        let after = text.skip(at + needle.len());
        assert(text == before + needle + after);
    }
    assert forall|before: Seq<char>, after: Seq<char>|
        text == #[trigger] (before + needle + after) implies found_at(
        text,
        needle,
        before.len() as int,
    ) by {
        let at = before.len() as int;
        assert(text.subrange(at, at + needle.len()) == needle);
    }
}

/// A text in which nothing is to be replaced stays as it is.
pub proof fn law_replacing_nothing_changes_nothing(
    text: Seq<char>,
    from: Seq<char>,
    to: Seq<char>,
)
    requires
        !occurs_in(text, from),
    ensures
        replaced(text, from, to) == text,
    decreases text.len(),
{
    if text.len() > 0 && from.len() > 0 {
        let rest = text.skip(1);
        assert(!found_at(text, from, 0));
        if occurs_in(rest, from) {
            let at = choose|at: int| found_at(rest, from, at);
            assert(text.subrange(at + 1, at + 1 + from.len()) == rest.subrange(
                at,
                at + from.len(),
            ));
            assert(found_at(text, from, at + 1));
        }
        law_replacing_nothing_changes_nothing(rest, from, to);
        assert(text == seq![text[0]] + rest);
    }
}

/// The first match is replaced, what stands before it stays, and what follows it
/// is treated in the same way.
pub proof fn law_first_match_is_replaced(
    before: Seq<char>,
    after: Seq<char>,
    from: Seq<char>,
    to: Seq<char>,
)
    requires
        from.len() > 0,
        forall|at: int| 0 <= at < before.len() ==> !found_at(before + from + after, from, at),
    ensures
        replaced(before + from + after, from, to) == before + to + replaced(after, from, to),
    decreases before.len(),
{
    let text = before + from + after;
    if before.len() == 0 {
        assert(text.subrange(0, from.len() as int) == from);
        assert(text.skip(from.len() as int) == after);
        assert(before + to + replaced(after, from, to) == to + replaced(after, from, to));
    } else {
        let rest = before.skip(1);
        assert(text.skip(1) == rest + from + after);
        assert forall|at: int| 0 <= at < rest.len() implies !found_at(
            rest + from + after,
            from,
            at,
        ) by {
            if found_at(rest + from + after, from, at) {
                assert(text.subrange(at + 1, at + 1 + from.len()) == (rest + from
                    + after).subrange(at, at + from.len()));
                assert(found_at(text, from, at + 1));
            }
        }
        law_first_match_is_replaced(rest, after, from, to);
        assert(!found_at(text, from, 0));
        assert(text[0] == before[0]);
        assert(before + to + replaced(after, from, to) == seq![before[0]] + (rest + to + replaced(
            after,
            from,
            to,
        )));
    }
}

/// Trimming takes away exactly the run of the character that ends the text.
pub proof fn law_trimming_takes_the_last_run(text: Seq<char>, c: char, run: nat)
    requires
        text.len() > 0 ==> text.last() != c,
    ensures
        trimmed_end(text + Seq::new(run, |i: int| c), c) == text,
    decreases run,
{
    let all = text + Seq::new(run, |i: int| c);
    if run == 0 {
        assert(all == text);
    } else {
        let fewer = Seq::new((run - 1) as nat, |i: int| c);
        assert(all.drop_last() == text + fewer);
        assert(all.last() == c);
        law_trimming_takes_the_last_run(text, c, (run - 1) as nat);
    }
}

/// The number that a row of decimal digits stands for.
pub open spec fn digits_value(digits: Seq<char>) -> int
    decreases digits.len(),
{
    if digits.len() == 0 {
        0
    } else {
        10 * digits_value(digits.drop_last()) + (digits.last() as int - '0' as int)
    }
}

/// The decimal notation of a number consists of digits, does not begin with a
/// needless zero, and stands for that number.
pub proof fn law_decimal_stands_for_its_number(n: nat)
    ensures
        digits_value(decimal(n)) == n,
        decimal(n).len() > 0,
        forall|i: int| 0 <= i < decimal(n).len() ==> '0' <= #[trigger] decimal(n)[i] <= '9',
        decimal(n)[0] == '0' ==> n == 0,
    decreases n,
{
    let digits = decimal(n);
    reveal_with_fuel(digits_value, 2);
    assert(digit(n % 10) as int - '0' as int == n % 10);
    if n < 10 {
        assert(digits.drop_last() == Seq::<char>::empty());
        assert(digits.last() == digit(n));
    } else {
        law_decimal_stands_for_its_number(n / 10);
        assert(digits.drop_last() == decimal(n / 10));
        assert(digits.last() == digit(n % 10));
    }
}

/// Lowering an ASCII text moves its capital letters to the small ones, 32 places
/// on, and leaves every other character as it is; so two ASCII texts that differ
/// in the case of their letters only have one lower-case form.
pub proof fn law_lowering_only_moves_capitals(text: Seq<char>, at: int)
    requires
        is_ascii_text(text),
        0 <= at < text.len(),
    ensures
        lowered(text).len() == text.len(),
        65 <= text[at] as int <= 90 ==> lowered(text)[at] as int == text[at] as int + 32,
        !(65 <= text[at] as int <= 90) ==> lowered(text)[at] == text[at],
        lowered(lowered(text)) == lowered(text),
{
    let lower = lowered(text);
    assert forall|i: int| 0 <= i < lower.len() implies (#[trigger] lower[i] as nat) < 128
        && ascii_lower(lower[i]) == lower[i] by {
        assert((text[i] as nat) < 128);
    }
    assert(lowered(lower) =~= lower);
}

/// A list that is joined in two parts has one separator between them, and a
/// single text stands alone.
pub proof fn law_joining_parts(
    left: Seq<Seq<char>>,
    right: Seq<Seq<char>>,
    separator: Seq<char>,
    text: Seq<char>,
)
    requires
        left.len() > 0,
        right.len() > 0,
    ensures
        joined(left + right, separator) == joined(left, separator) + separator + joined(
            right,
            separator,
        ),
        joined(seq![text], separator) == text,
        joined(seq![], separator) == Seq::<char>::empty(),
    decreases right.len(),
{
    let all = left + right;
    assert(all.last() == right.last());
    if right.len() == 1 {
        assert(all.drop_last() == left);
        assert(right[0] == right.last());
    } else {
        assert(all.drop_last() == left + right.drop_last());
        law_joining_parts(left, right.drop_last(), separator, text);
        assert(joined(all, separator) == joined(left, separator) + separator + (joined(
            right.drop_last(),
            separator,
        ) + separator + right.last()));
    }
}

/// Texts are ordered by the first character in which they differ, and a text
/// comes before every longer one that it begins.
pub proof fn law_order_goes_by_the_first_difference(
    common: Seq<char>,
    small: char,
    great: char,
    rest: Seq<char>,
    other: Seq<char>,
)
    requires
        small < great,
    ensures
        text_less(common + seq![small] + rest, common + seq![great] + other),
        !text_less(common + seq![great] + other, common + seq![small] + rest),
        text_less(common, common + seq![great] + other),
        !text_less(common + seq![great] + other, common),
    decreases common.len(),
{
    let a = common + seq![small] + rest;
    let b = common + seq![great] + other;
    if common.len() == 0 {
        assert(a[0] == small && b[0] == great);
    } else {
        let shorter = common.skip(1);
        assert(a.skip(1) == shorter + seq![small] + rest);
        assert(b.skip(1) == shorter + seq![great] + other);
        assert(a[0] == common[0] && b[0] == common[0]);
        law_order_goes_by_the_first_difference(shorter, small, great, rest, other);
    }
}

} // verus!
