//! What the filling of a form comes to, from the page's list of fields to the
//! report.

use vstd::prelude::*;

use crate::command::{operation, BrowserCmdView};
use crate::form::{
    after_filling, after_last_key, answers_to, attempt, first_candidate, form_filling, form_tried,
    fresh_form, goes_by, is_candidate, law_only_matching_fields_are_filled, lemma_first_candidate,
    next_on_form, offers, picked, report_value, selector_of,
};
use crate::json::{json_parsed, json_text, quoted, JsonView};
use crate::laws::{answered, lemma_evaluation_runs, resumed, run, says, script_in};
use crate::literal::literal_at;
use crate::page::{fill_script, law_fill_script_holds_selector_and_value};
use crate::scripts;
use crate::step::{AfterCallView, Dialect, FormFieldView, FormFillingView, StepView};
use crate::text::{law_occurrence_takes_the_text_apart, lowered, occurs_in};
use crate::tools;

verus! {

/// A field goes by a key exactly if its name or its id equals the key, or its
/// label holds the key, without regard to case; it can be filled if it also has
/// a name or an id to be found by.
pub proof fn law_field_goes_by_name_id_or_label(
    dialect: Dialect,
    field: FormFieldView,
    key: Seq<char>,
)
    ensures
        goes_by(field, key) <==> (lowered(field.name) == lowered(key) || lowered(field.id)
            == lowered(key) || occurs_in(lowered(field.label), lowered(key))),
        is_candidate(dialect, key, field) <==> (lowered(field.name) == lowered(key) || lowered(
            field.id,
        ) == lowered(key) || occurs_in(lowered(field.label), lowered(key))) && (field.name.len() > 0
            || field.id.len() > 0),
{
}

/// A field that is filled for a key has a name or an id that equals the key, or a
/// label that holds it, without regard to case. No field is passed over that
/// has one and can be found, neither for this key nor for the keys before it.
pub proof fn law_filled_field_answers_to_its_key(form: FormFillingView)
    requires
        form.verdicts.len() <= form.entries.len(),
    ensures
        form_tried(next_on_form(form)) matches Some(next) ==> {
            let first = form.verdicts.len() as int;
            let at = next.verdicts.len() as int;
            let key = form.entries[at].0;
            let field = form.fields[next.field as int];
            &&& lowered(field.name) == lowered(key) || lowered(field.id) == lowered(key)
                || occurs_in(lowered(field.label), lowered(key))
            &&& field.name.len() > 0 || field.id.len() > 0
            &&& forall|k: int, f: int|
                #![trigger form.entries[k], form.fields[f]]
                first <= k <= at && (if k == first {
                    form.field as int
                } else {
                    0
                }) <= f < (if k == at {
                    next.field as int
                } else {
                    form.fields.len() as int
                }) ==> (form.fields[f].name.len() == 0 && form.fields[f].id.len() == 0) || (lowered(
                    form.fields[f].name,
                ) != lowered(form.entries[k].0) && lowered(form.fields[f].id) != lowered(
                    form.entries[k].0,
                ) && !occurs_in(lowered(form.fields[f].label), lowered(form.entries[k].0)))
        },
{
    law_only_matching_fields_are_filled(form);
    if let Some(next) = form_tried(next_on_form(form)) {
        let first = form.verdicts.len() as int;
        let at = next.verdicts.len() as int;
        assert forall|k: int, f: int|
            #![trigger form.entries[k], form.fields[f]]
            first <= k <= at && (if k == first {
                form.field as int
            } else {
                0
            }) <= f < (if k == at {
                next.field as int
            } else {
                form.fields.len() as int
            }) implies (form.fields[f].name.len() == 0 && form.fields[f].id.len() == 0) || (lowered(
            form.fields[f].name,
        ) != lowered(form.entries[k].0) && lowered(form.fields[f].id) != lowered(form.entries[k].0)
            && !occurs_in(lowered(form.fields[f].label), lowered(form.entries[k].0))) by {
            assert(!offers(form, k, f));
        }
    }
}

/// The field that is tried is found by its name, or by its id where it has no
/// name, and is given exactly the text that belongs to its key.
pub proof fn law_field_is_given_the_text_of_its_key(form: FormFillingView)
    requires
        form.trying(),
        form.fields[form.field as int].name.len() > 0 || form.fields[form.field as int].id.len()
            > 0,
    ensures
        ({
            let field = form.fields[form.field as int];
            let text = form.entries[form.verdicts.len() as int].1;
            let by_name = match form.dialect {
                Dialect::Backend => field.tag + "[name='"@ + field.name + "']"@,
                Dialect::Session => "input[name='"@ + field.name + "'], textarea[name='"@
                    + field.name + "'], select[name='"@ + field.name + "']"@,
            };
            let selector = if field.name.len() > 0 {
                by_name
            } else {
                "#"@ + field.id
            };
            match form.dialect {
                Dialect::Backend => {
                    &&& script_in(attempt(form)) matches Some(script)
                    &&& script == scripts::FILL_HEAD@ + quoted(selector) + scripts::FILL_MIDDLE@
                        + quoted(text) + scripts::FILL_TAIL@
                    &&& literal_at(script, scripts::FILL_HEAD@.len() as int) == Some(selector)
                    &&& literal_at(
                        script,
                        (scripts::FILL_HEAD@.len() + quoted(selector).len()
                            + scripts::FILL_MIDDLE@.len()) as int,
                    ) == Some(text)
                },
                Dialect::Session => attempt(form) == (StepView::Fill {
                    selector,
                    value: text,
                    form,
                }),
            }
        }),
{
    let selector = selector_of(form.dialect, form.fields[form.field as int])->Some_0;
    let text = form.entries[form.verdicts.len() as int].1;
    lemma_evaluation_runs(
        fill_script(Dialect::Backend, selector, text),
        AfterCallView::Filled { form },
    );
    law_fill_script_holds_selector_and_value(Dialect::Backend, selector, text);
}

/// The text of a member, the empty text where it is none.
pub open spec fn text_of_member(value: JsonView, name: Seq<char>) -> Seq<char> {
    match value.get(name) {
        Some(JsonView::Str(text)) => text,
        _ => Seq::empty(),
    }
}

/// Filling a form begins with the page's own list of forms. Of the first form
/// every field is taken as it is described, and of the data every key, with its
/// text or, where it is none, the notation of its value.
pub proof fn law_form_is_read_as_it_is_described(
    dialect: Dialect,
    reply: JsonView,
    listing: Seq<char>,
    forms: Seq<JsonView>,
    fields: Seq<JsonView>,
    members: Seq<(Seq<char>, JsonView)>,
    submit: bool,
)
    requires
        says(reply, listing),
        json_parsed(listing) == Ok::<JsonView, Seq<char>>(JsonView::Array(forms)),
        forms.len() > 0,
        forms[0].get("fields"@) == Some(JsonView::Array(fields)),
    ensures
        ({
            let form = fresh_form(dialect, fields, members, submit);
            &&& answered(
                form_filling(dialect, JsonView::Object(members), submit),
                Ok(reply),
            ) == next_on_form(form)
            &&& form.dialect == dialect && form.submit == submit
            &&& form.verdicts.len() == 0 && form.field == 0
            &&& form.fields.len() == fields.len()
            &&& form.entries.len() == members.len()
            &&& forall|i: int|
                0 <= i < fields.len() ==> (#[trigger] form.fields[i]).name == text_of_member(
                    fields[i],
                    "name"@,
                ) && form.fields[i].label == text_of_member(fields[i], "label"@)
                    && form.fields[i].id == text_of_member(fields[i], "id"@) && form.fields[i].tag
                    == text_of_member(fields[i], "tagName"@)
            &&& forall|i: int|
                0 <= i < members.len() ==> (#[trigger] form.entries[i]).0 == members[i].0
                    && form.entries[i].1 == match members[i].1 {
                    JsonView::Str(text) => text,
                    other => json_text(other),
                }
        }),
        script_in(form_filling(dialect, JsonView::Object(members), submit)) == Some(
            match dialect {
                Dialect::Backend => scripts::DISCOVER_FORMS@,
                Dialect::Session => tools::scripts::DISCOVER_FORMS@,
            },
        ),
        operation(BrowserCmdView::FillFormSmart { data: JsonView::Object(members), submit })
            == Some(form_filling(Dialect::Backend, JsonView::Object(members), submit)),
{
    reveal_strlit("");
    assert(""@ == Seq::<char>::empty());
    lemma_evaluation_runs(
        match dialect {
            Dialect::Backend => scripts::DISCOVER_FORMS@,
            Dialect::Session => tools::scripts::DISCOVER_FORMS@,
        },
        AfterCallView::Discovered { dialect, data: JsonView::Object(members), submit },
    );
}

/// The document that a report is.
pub open spec fn is_report(
    step: StepView,
    filled: Seq<Seq<char>>,
    skipped: Seq<Seq<char>>,
    submitted: bool,
) -> bool {
    step == (StepView::Done {
        outcome: Ok(
            json_text(
                JsonView::Object(
                    seq![
                        (
                            "filled"@,
                            JsonView::Array(
                                Seq::new(filled.len(), |i: int| JsonView::Str(filled[i])),
                            ),
                        ),
                        (
                            "skipped"@,
                            JsonView::Array(
                                Seq::new(skipped.len(), |i: int| JsonView::Str(skipped[i])),
                            ),
                        ),
                        ("submitted"@, JsonView::Bool(submitted)),
                    ],
                ),
            ),
        ),
    })
}

proof fn lemma_report(filled: Seq<Seq<char>>, skipped: Seq<Seq<char>>, submitted: bool)
    ensures
        is_report(
            StepView::Done { outcome: Ok(json_text(report_value(filled, skipped, submitted))) },
            filled,
            skipped,
            submitted,
        ),
{
    assert(crate::json::string_array(filled)->Array_0 == Seq::new(
        filled.len(),
        |i: int| JsonView::Str(filled[i]),
    ));
    assert(crate::json::string_array(skipped)->Array_0 == Seq::new(
        skipped.len(),
        |i: int| JsonView::Str(skipped[i]),
    ));
}

/// Where the page has no form, where what it says is no list of forms, and where
/// the data is no object, that is told and nothing is filled.
pub proof fn law_what_cannot_be_filled_is_told(
    dialect: Dialect,
    reply: JsonView,
    listing: Seq<char>,
    data: JsonView,
    submit: bool,
    message: Seq<char>,
)
    requires
        says(reply, listing),
    ensures
        ({
            let told = answered(form_filling(dialect, data, submit), Ok(reply));
            &&& json_parsed(listing) == Err::<JsonView, Seq<char>>(message) ==> told == (
            StepView::Done { outcome: Err(message) })
            &&& json_parsed(listing) matches Ok(forms) ==> {
                &&& !(forms is Array) ==> told == (StepView::Done {
                    outcome: Err("No forms found"@),
                })
                &&& forms is Array && forms->Array_0.len() == 0 ==> is_report(
                    told,
                    Seq::empty(),
                    Seq::empty(),
                    false,
                )
                &&& forms is Array && forms->Array_0.len() > 0 && !(forms->Array_0[0].get(
                    "fields"@,
                ) matches Some(JsonView::Array(_))) ==> told == (StepView::Done {
                    outcome: Err("Invalid form structure"@),
                })
                &&& forms is Array && forms->Array_0.len() > 0 && (forms->Array_0[0].get(
                    "fields"@,
                ) matches Some(JsonView::Array(_))) && !(data is Object) ==> told == (
                StepView::Done { outcome: Err("Data must be an object"@) })
            }
        }),
        answered(form_filling(dialect, data, submit), Err(message)) == (StepView::Done {
            outcome: Err(message),
        }),
{
    lemma_report(Seq::empty(), Seq::empty(), false);
}

/// How many of the verdicts are the wanted one.
pub open spec fn count_of(verdicts: Seq<bool>, wanted: bool) -> nat
    decreases verdicts.len(),
{
    if verdicts.len() == 0 {
        0
    } else if verdicts.last() == wanted {
        count_of(verdicts.drop_last(), wanted) + 1
    } else {
        count_of(verdicts.drop_last(), wanted)
    }
}

/// The keys with the wanted verdict are all listed, in the order of the data: a
/// key stands behind as many as have that verdict before it.
pub proof fn law_keys_are_listed_in_order(
    entries: Seq<(Seq<char>, Seq<char>)>,
    verdicts: Seq<bool>,
    wanted: bool,
)
    requires
        verdicts.len() <= entries.len(),
    ensures
        picked(entries, verdicts, wanted).len() == count_of(verdicts, wanted),
        forall|i: int|
            0 <= i < verdicts.len() && #[trigger] verdicts[i] == wanted ==> count_of(
                verdicts.take(i),
                wanted,
            ) < count_of(verdicts, wanted) && picked(entries, verdicts, wanted)[count_of(
                verdicts.take(i),
                wanted,
            ) as int] == entries[i].0,
    decreases verdicts.len(),
{
    if verdicts.len() > 0 {
        let rest = verdicts.drop_last();
        law_keys_are_listed_in_order(entries, rest, wanted);
        assert forall|i: int| 0 <= i < verdicts.len() && #[trigger] verdicts[i] == wanted implies
            count_of(verdicts.take(i), wanted) < count_of(verdicts, wanted) && picked(
            entries,
            verdicts,
            wanted,
        )[count_of(verdicts.take(i), wanted) as int] == entries[i].0 by {
            if i < rest.len() {
                assert(rest[i] == verdicts[i]);
                assert(rest.take(i) == verdicts.take(i));
            } else {
                assert(verdicts.take(i) == rest);
            }
        }
    }
}

/// When every key is decided, the form is submitted only if that was asked for;
/// the report lists the keys by their verdicts and tells of a submission exactly
/// if its call went well, after half a second for the page.
pub proof fn law_decided_form_is_submitted_on_demand(
    form: FormFillingView,
    reply: JsonView,
    message: Seq<char>,
)
    ensures
        ({
            let last = after_last_key(form);
            let filled = picked(form.entries, form.verdicts, true);
            let skipped = picked(form.entries, form.verdicts, false);
            &&& !form.submit ==> is_report(last, filled, skipped, false)
            &&& form.submit ==> script_in(last) == Some(
                match form.dialect {
                    Dialect::Backend => scripts::SUBMIT_FORM@,
                    Dialect::Session => tools::scripts::SUBMIT_FORM@,
                },
            )
            &&& form.submit ==> is_report(answered(last, Err(message)), filled, skipped, false)
            &&& form.submit ==> (answered(last, Ok(reply)) matches StepView::Sleep { millis, .. }
                && millis == 500)
            &&& form.submit ==> is_report(
                resumed(answered(last, Ok(reply))),
                filled,
                skipped,
                true,
            )
        }),
{
    let filled = picked(form.entries, form.verdicts, true);
    let skipped = picked(form.entries, form.verdicts, false);
    lemma_report(filled, skipped, true);
    lemma_report(filled, skipped, false);
    lemma_evaluation_runs(
        match form.dialect {
            Dialect::Backend => scripts::SUBMIT_FORM@,
            Dialect::Session => tools::scripts::SUBMIT_FORM@,
        },
        AfterCallView::Submitted { form },
    );
}

/// A key has a field on the page that goes by it and can be found.
pub open spec fn has_field(fields: Seq<FormFieldView>, key: Seq<char>) -> bool {
    exists|f: int|
        0 <= f < fields.len() && (lowered((#[trigger] fields[f]).name) == lowered(key) || lowered(
            fields[f].id,
        ) == lowered(key) || occurs_in(lowered(fields[f].label), lowered(key))) && (
        fields[f].name.len() > 0 || fields[f].id.len() > 0)
}

/// The verdicts on the keys that are left, where every attempt succeeds.
pub open spec fn fair_verdicts(form: FormFillingView) -> Seq<bool> {
    Seq::new(
        (form.entries.len() - form.verdicts.len()) as nat,
        |i: int| has_field(form.fields, form.entries[form.verdicts.len() + i].0),
    )
}

proof fn lemma_fair_rest(form: FormFillingView, verdict: bool)
    requires
        form.verdicts.len() < form.entries.len(),
    ensures
        ({
            let next = FormFillingView { verdicts: form.verdicts.push(verdict), field: 0, ..form };
            let fair = fair_verdicts(form);
            &&& fair.len() > 0
            &&& fair[0] == has_field(form.fields, form.entries[form.verdicts.len() as int].0)
            &&& fair_verdicts(next) == fair.skip(1)
            &&& fair[0] == verdict ==> next.verdicts + fair_verdicts(next) == form.verdicts + fair
        }),
{
    let next = FormFillingView { verdicts: form.verdicts.push(verdict), field: 0, ..form };
    let fair = fair_verdicts(form);
    assert(fair_verdicts(next) =~= fair.skip(1));
    if fair[0] == verdict {
        assert(next.verdicts + fair_verdicts(next) =~= form.verdicts + fair);
    }
}

proof fn lemma_candidate_is_field(dialect: Dialect, fields: Seq<FormFieldView>, key: Seq<char>)
    ensures
        first_candidate(dialect, key, fields, 0) is Some <==> has_field(fields, key),
{
    lemma_first_candidate(dialect, key, fields, 0);
    match first_candidate(dialect, key, fields, 0) {
        Some(f) => {
            assert(is_candidate(dialect, key, fields[f as int]));
        },
        None => {
            if has_field(fields, key) {
                let f = choose|f: int|
                    0 <= f < fields.len() && (lowered((#[trigger] fields[f]).name) == lowered(key)
                        || lowered(fields[f].id) == lowered(key) || occurs_in(
                        lowered(fields[f].label),
                        lowered(key),
                    )) && (fields[f].name.len() > 0 || fields[f].id.len() > 0);
                assert(is_candidate(dialect, key, fields[f]));
            }
        },
    }
}

proof fn lemma_successful_attempt(
    form: FormFillingView,
    replies: Seq<Result<JsonView, Seq<char>>>,
)
    requires
        form.dialect == Dialect::Backend,
        replies.len() > 0,
        replies[0] is Ok,
    ensures
        run(attempt(form), replies) == run(
            next_on_form(
                FormFillingView { verdicts: form.verdicts.push(true), field: 0, ..form },
            ),
            replies.skip(1),
        ),
{
}

proof fn lemma_count_from_front(verdicts: Seq<bool>, wanted: bool)
    requires
        verdicts.len() > 0,
    ensures
        count_of(verdicts, wanted) == count_of(verdicts.skip(1), wanted) + if verdicts[0]
            == wanted {
            1nat
        } else {
            0
        },
    decreases verdicts.len(),
{
    reveal_with_fuel(count_of, 2);
    if verdicts.len() == 1 {
        assert(verdicts.skip(1).len() == 0);
        assert(verdicts.drop_last().len() == 0);
    } else {
        lemma_count_from_front(verdicts.drop_last(), wanted);
        assert(verdicts.drop_last().skip(1) == verdicts.skip(1).drop_last());
        assert(verdicts.skip(1).last() == verdicts.last());
    }
}

/// Where every attempt succeeds, exactly the keys that have a field are filled,
/// with one call each.
pub proof fn law_every_key_with_a_field_is_filled(
    form: FormFillingView,
    replies: Seq<Result<JsonView, Seq<char>>>,
)
    requires
        form.dialect == Dialect::Backend,
        form.verdicts.len() <= form.entries.len(),
        form.field == 0,
        forall|i: int| 0 <= i < replies.len() ==> (#[trigger] replies[i]) is Ok,
        replies.len() == count_of(fair_verdicts(form), true),
    ensures
        run(next_on_form(form), replies) == after_last_key(
            FormFillingView { verdicts: form.verdicts + fair_verdicts(form), ..form },
        ),
    decreases form.entries.len() - form.verdicts.len(),
{
    let fair = fair_verdicts(form);
    if form.verdicts.len() == form.entries.len() {
        assert(form.verdicts + fair =~= form.verdicts);
        assert(resumed(after_last_key(form)) == after_last_key(form));
    } else {
        let key = form.entries[form.verdicts.len() as int].0;
        lemma_candidate_is_field(form.dialect, form.fields, key);
        match first_candidate(form.dialect, key, form.fields, 0) {
            Some(field) => {
                lemma_fair_rest(form, true);
                lemma_count_from_front(fair, true);
                lemma_successful_attempt(FormFillingView { field, ..form }, replies);
                let next = FormFillingView { verdicts: form.verdicts.push(true), field: 0, ..form };
                law_every_key_with_a_field_is_filled(next, replies.skip(1));
            },
            None => {
                lemma_fair_rest(form, false);
                lemma_count_from_front(fair, true);
                let next = FormFillingView { verdicts: form.verdicts.push(false), field: 0, ..form };
                law_every_key_with_a_field_is_filled(next, replies);
            },
        }
    }
}

/// An attempt that succeeds decides its key as filled; one that fails leaves the
/// key open, and the fields behind the one that was tried are left to try.
pub proof fn law_attempt_decides_its_key(form: FormFillingView)
    requires
        form.trying(),
    ensures
        after_filling(form, true) == next_on_form(
            FormFillingView { verdicts: form.verdicts + seq![true], field: 0, ..form },
        ),
        after_filling(form, false) == next_on_form(
            FormFillingView { field: form.field + 1, ..form },
        ),
{
    assert(form.verdicts + seq![true] == form.verdicts.push(true));
}

/// A field answers to a key where its name or its id is the very key, or where
/// its label can be taken apart around the key; a name or an id that only holds
/// the key does not count.
pub proof fn law_only_a_label_may_hold_more_than_the_key(
    name: Seq<char>,
    label: Seq<char>,
    id: Seq<char>,
    key: Seq<char>,
)
    ensures
        answers_to(name, label, id, key) <==> name == key || id == key || exists|
            before: Seq<char>,
            after: Seq<char>,
        |
            label == #[trigger] (before + key + after),
{
    law_occurrence_takes_the_text_apart(label, key);
}

} // verus!
