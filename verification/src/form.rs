//! Filling a form from a set of named values.

use vstd::prelude::*;

use crate::json::{
    item_views, json_outcome, json_parsed, json_text, json_to_text, lemma_array_view,
    lemma_object_view, lemma_string_array_wf, lemma_three_members_wf, member_views,
    object_of_three, parse_json, spells, string_array, Json, JsonView,
};
use crate::page::{fill_script, write_fill_script};
use crate::reply::{evaluate, evaluation, read_returned_text_or, returned_text_or};
use crate::scripts;
use crate::step::{
    AfterCall, AfterCallView, AfterFill, AfterSleep, AfterSleepView, Dialect, FormField,
    FormFieldView, FormFilling, FormFillingView, Step, StepView,
};
use crate::text::{contains, lowered, occurs_in, optional_text, same_text, to_lower};
use crate::tools;

verus! {

/// How long a submitted page is left alone, in milliseconds.
pub const REST_MILLIS: u64 = 500;

/// The script that lists the forms of the page.
pub open spec fn discover_script(dialect: Dialect) -> Seq<char> {
    match dialect {
        Dialect::Backend => scripts::DISCOVER_FORMS@,
        Dialect::Session => tools::scripts::DISCOVER_FORMS@,
    }
}

/// The script that submits the form.
pub open spec fn submit_script(dialect: Dialect) -> Seq<char> {
    match dialect {
        Dialect::Backend => scripts::SUBMIT_FORM@,
        Dialect::Session => tools::scripts::SUBMIT_FORM@,
    }
}

/// A field goes by the key: its name or its id is the key, or its label holds
/// the key, all without regard to case.
pub open spec fn goes_by(field: FormFieldView, key: Seq<char>) -> bool {
    answers_to(lowered(field.name), lowered(field.label), lowered(field.id), lowered(key))
}

/// The name or the id is the key, or the label holds the key.
pub open spec fn answers_to(
    name: Seq<char>,
    label: Seq<char>,
    id: Seq<char>,
    key: Seq<char>,
) -> bool {
    name == key || occurs_in(label, key) || id == key
}

/// The selector that finds a field: by its name, else by its id.
pub open spec fn selector_of(dialect: Dialect, field: FormFieldView) -> Option<Seq<char>> {
    if field.name.len() > 0 {
        Some(
            match dialect {
                Dialect::Backend => field.tag + "[name='"@ + field.name + "']"@,
                Dialect::Session => "input[name='"@ + field.name + "'], textarea[name='"@
                    + field.name + "'], select[name='"@ + field.name + "']"@,
            },
        )
    } else if field.id.len() > 0 {
        Some("#"@ + field.id)
    } else {
        None
    }
}

/// A field goes by the key and can be found again.
pub open spec fn is_candidate(dialect: Dialect, key: Seq<char>, field: FormFieldView) -> bool {
    goes_by(field, key) && selector_of(dialect, field) is Some
}

/// The first candidate for the key at or after a position.
pub open spec fn first_candidate(
    dialect: Dialect,
    key: Seq<char>,
    fields: Seq<FormFieldView>,
    from: nat,
) -> Option<nat>
    decreases fields.len() - from,
{
    if from >= fields.len() {
        None
    } else if is_candidate(dialect, key, fields[from as int]) {
        Some(from)
    } else {
        first_candidate(dialect, key, fields, from + 1)
    }
}

/// The decided keys with the given verdict, in their order.
pub open spec fn picked(
    entries: Seq<(Seq<char>, Seq<char>)>,
    verdicts: Seq<bool>,
    wanted: bool,
) -> Seq<Seq<char>>
    decreases verdicts.len(),
{
    if verdicts.len() == 0 {
        seq![]
    } else {
        let rest = picked(entries, verdicts.drop_last(), wanted);
        if verdicts.last() == wanted {
            rest.push(entries[verdicts.len() - 1].0)
        } else {
            rest
        }
    }
}

/// What is told of a form that was filled.
pub open spec fn report_value(
    filled: Seq<Seq<char>>,
    skipped: Seq<Seq<char>>,
    submitted: bool,
) -> JsonView {
    JsonView::Object(
        seq![
            ("filled"@, string_array(filled)),
            ("skipped"@, string_array(skipped)),
            ("submitted"@, JsonView::Bool(submitted)),
        ],
    )
}

/// The outcome of filling a form.
pub open spec fn form_outcome(form: FormFillingView, submitted: bool) -> StepView {
    StepView::Done {
        outcome: Ok(
            json_text(
                report_value(
                    picked(form.entries, form.verdicts, true),
                    picked(form.entries, form.verdicts, false),
                    submitted,
                ),
            ),
        ),
    }
}

/// What follows when every key is decided.
pub open spec fn after_last_key(form: FormFillingView) -> StepView {
    if form.submit {
        evaluation(submit_script(form.dialect), AfterCallView::Submitted { form })
    } else {
        form_outcome(form, false)
    }
}

/// The attempt to fill the field that is being tried.
pub open spec fn attempt(form: FormFillingView) -> StepView {
    let selector = selector_of(form.dialect, form.fields[form.field as int])->Some_0;
    let value = form.entries[form.verdicts.len() as int].1;
    match form.dialect {
        Dialect::Backend => evaluation(
            fill_script(Dialect::Backend, selector, value),
            AfterCallView::Filled { form },
        ),
        Dialect::Session => StepView::Fill { selector, value, form },
    }
}

/// The next thing to do on a form: the next candidate is tried; a key without
/// one is skipped.
pub open spec fn next_on_form(form: FormFillingView) -> StepView
    decreases form.entries.len() - form.verdicts.len(),
{
    if form.verdicts.len() >= form.entries.len() {
        after_last_key(form)
    } else {
        let key = form.entries[form.verdicts.len() as int].0;
        match first_candidate(form.dialect, key, form.fields, form.field) {
            Some(field) => attempt(FormFillingView { field, ..form }),
            None => next_on_form(
                FormFillingView { verdicts: form.verdicts.push(false), field: 0, ..form },
            ),
        }
    }
}

/// What follows when a field has been filled: on success the next key, else the
/// next candidate.
pub open spec fn after_filling(form: FormFillingView, filled: bool) -> StepView {
    if filled {
        next_on_form(FormFillingView { verdicts: form.verdicts.push(true), field: 0, ..form })
    } else {
        next_on_form(FormFillingView { field: form.field + 1, ..form })
    }
}

/// What follows when the form has been submitted.
pub open spec fn after_submitting(form: FormFillingView, submitted: bool) -> StepView {
    if submitted {
        StepView::Sleep { millis: REST_MILLIS, next: AfterSleepView::Rested { form } }
    } else {
        form_outcome(form, false)
    }
}

/// A member that is a string, or the empty text.
pub open spec fn str_or_empty(value: JsonView, key: Seq<char>) -> Seq<char> {
    match value.get_str(key) {
        Some(text) => text,
        None => ""@,
    }
}

/// The field that an entry in a list of fields describes.
pub open spec fn described_field(value: JsonView) -> FormFieldView {
    FormFieldView {
        name: str_or_empty(value, "name"@),
        label: str_or_empty(value, "label"@),
        id: str_or_empty(value, "id"@),
        tag: str_or_empty(value, "tagName"@),
    }
}

/// The text that a value is filled in as: a string as it is, anything else in
/// JSON notation.
pub open spec fn fill_text(value: JsonView) -> Seq<char> {
    match value {
        JsonView::Str(text) => text,
        _ => json_text(value),
    }
}

/// The form at the start of its filling.
pub open spec fn fresh_form(
    dialect: Dialect,
    fields: Seq<JsonView>,
    members: Seq<(Seq<char>, JsonView)>,
    submit: bool,
) -> FormFillingView {
    FormFillingView {
        dialect,
        entries: members.map_values(|entry: (Seq<char>, JsonView)| (entry.0, fill_text(entry.1))),
        fields: fields.map_values(|field: JsonView| described_field(field)),
        submit,
        verdicts: seq![],
        field: 0,
    }
}

/// What follows from the list of forms: the first of them is filled.
pub open spec fn after_listing(
    dialect: Dialect,
    forms: JsonView,
    data: JsonView,
    submit: bool,
) -> StepView {
    match forms {
        JsonView::Array(forms) => if forms.len() == 0 {
            StepView::Done { outcome: Ok(json_text(report_value(seq![], seq![], false))) }
        } else {
            match forms[0].get("fields"@) {
                Some(JsonView::Array(fields)) => match data {
                    JsonView::Object(members) => next_on_form(
                        fresh_form(dialect, fields, members, submit),
                    ),
                    _ => StepView::Done { outcome: Err("Data must be an object"@) },
                },
                _ => StepView::Done { outcome: Err("Invalid form structure"@) },
            }
        },
        _ => StepView::Done { outcome: Err("No forms found"@) },
    }
}

/// What follows when the forms of the page have been asked for.
pub open spec fn after_discovery(
    dialect: Dialect,
    data: JsonView,
    submit: bool,
    reply: Result<JsonView, Seq<char>>,
) -> StepView {
    match reply {
        Ok(value) => match json_parsed(returned_text_or(dialect, value, "[]"@)) {
            Ok(forms) => after_listing(dialect, forms, data, submit),
            Err(message) => StepView::Done { outcome: Err(message) },
        },
        Err(message) => StepView::Done { outcome: Err(message) },
    }
}

/// A report is well-formed.
proof fn lemma_report_wf(filled: Seq<Seq<char>>, skipped: Seq<Seq<char>>, submitted: bool)
    ensures
        report_value(filled, skipped, submitted).wf(),
{
    reveal_strlit("filled");
    reveal_strlit("skipped");
    reveal_strlit("submitted");
    assert("skipped"@.skip(1)[0] == 'k');
    assert("submitted"@.skip(1)[0] == 'u');
    reveal_with_fuel(crate::text::text_less, 2);
    lemma_string_array_wf(filled);
    lemma_string_array_wf(skipped);
    lemma_three_members_wf(
        ("filled"@, string_array(filled)),
        ("skipped"@, string_array(skipped)),
        ("submitted"@, JsonView::Bool(submitted)),
    );
}

/// Whether the name or the id is the key, or the label holds the key.
pub fn does_answer_to(name: &str, label: &str, id: &str, key: &str) -> (found: bool)
    ensures
        found == answers_to(name@, label@, id@, key@),
{
    same_text(name, key) || contains(label, key) || same_text(id, key)
}

/// Whether a field goes by the key.
pub fn field_goes_by(field: &FormField, key: &str) -> (found: bool)
    ensures
        found == goes_by(field@, key@),
{
    does_answer_to(
        to_lower(field.name.as_str()).as_str(),
        to_lower(field.label.as_str()).as_str(),
        to_lower(field.id.as_str()).as_str(),
        to_lower(key).as_str(),
    )
}

/// The selector that finds a field.
pub fn field_selector(dialect: Dialect, field: &FormField) -> (selector: Option<String>)
    ensures
        optional_text(selector) == selector_of(dialect, field@),
{
    let name = field.name.as_str();
    if !name.is_empty() {
        match dialect {
            Dialect::Backend => Some(
                field.tag.clone().concat("[name='").concat(name).concat("']"),
            ),
            Dialect::Session => Some(
                "input[name='".to_owned().concat(name).concat("'], textarea[name='").concat(
                    name,
                ).concat("'], select[name='").concat(name).concat("']"),
            ),
        }
    } else if !field.id.as_str().is_empty() {
        Some("#".to_owned().concat(field.id.as_str()))
    } else {
        None
    }
}

/// The decided keys with the given verdict, as an array of strings.
fn pick_keys(form: &FormFilling, wanted: bool) -> (keys: Json)
    requires
        form@.verdicts.len() <= form@.entries.len(),
    ensures
        keys@ == string_array(picked(form@.entries, form@.verdicts, wanted)),
{
    let ghost entries = form@.entries;
    let ghost verdicts = form@.verdicts;
    let mut keys: Vec<Json> = Vec::new();
    let mut i: usize = 0;
    assert(item_views(keys@) == string_array(picked(entries, verdicts.take(0), wanted))->Array_0);
    while i < form.verdicts.len()
        invariant
            i <= form.verdicts@.len(),
            entries == form@.entries,
            verdicts == form@.verdicts,
            verdicts.len() <= entries.len(),
            item_views(keys@) == string_array(
                picked(entries, verdicts.take(i as int), wanted),
            )->Array_0,
        decreases form.verdicts@.len() - i,
    {
        let ghost before = picked(entries, verdicts.take(i as int), wanted);
        assert(verdicts.take(i + 1).drop_last() == verdicts.take(i as int));
        assert(verdicts.take(i + 1).last() == form.verdicts@[i as int]);
        assert(entries[i as int].0 == form.entries@[i as int].0@);
        if form.verdicts[i] == wanted {
            let ghost old_keys = keys@;
            keys.push(Json::Str(form.entries[i].0.clone()));
            assert(item_views(keys@) == item_views(old_keys).push(JsonView::Str(entries[i as int].0)));
            assert(string_array(before.push(entries[i as int].0))->Array_0 == string_array(
                before,
            )->Array_0.push(JsonView::Str(entries[i as int].0)));
        }
        i += 1;
    }
    proof {
        assert(verdicts.take(verdicts.len() as int) == verdicts);
        lemma_array_view(keys);
    }
    Json::Array(keys)
}

/// What is told of a form that was filled.
fn report(filled: Json, skipped: Json, submitted: bool) -> (text: String)
    requires
        exists|a: Seq<Seq<char>>, b: Seq<Seq<char>>|
            filled@ == string_array(a) && skipped@ == string_array(b),
    ensures
        forall|a: Seq<Seq<char>>, b: Seq<Seq<char>>|
            filled@ == string_array(a) && skipped@ == string_array(b) ==> text@ == json_text(
                #[trigger] report_value(a, b, submitted),
            ),
{
    proof {
        let (a, b) = choose|a: Seq<Seq<char>>, b: Seq<Seq<char>>|
            filled@ == string_array(a) && skipped@ == string_array(b);
        lemma_report_wf(a, b, submitted);
    }
    json_to_text(
        object_of_three(
            ("filled", filled),
            ("skipped", skipped),
            ("submitted", Json::Bool(submitted)),
        ),
    )
}

/// The outcome of filling a form.
fn finish_form(form: &FormFilling, submitted: bool) -> (step: Step)
    requires
        form@.decided(),
    ensures
        step@ == form_outcome(form@, submitted),
{
    let filled = pick_keys(form, true);
    let skipped = pick_keys(form, false);
    Step::Done { outcome: Ok(report(filled, skipped, submitted)) }
}

/// What follows when every key is decided.
fn last_key_decided(form: FormFilling) -> (step: Step)
    requires
        form@.decided(),
    ensures
        step@ == after_last_key(form@),
        step@.wf(),
{
    if form.submit {
        let script = match form.dialect {
            Dialect::Backend => scripts::SUBMIT_FORM.to_owned(),
            Dialect::Session => tools::scripts::SUBMIT_FORM.to_owned(),
        };
        evaluate(script, AfterCall::Submitted { form })
    } else {
        finish_form(&form, false)
    }
}

/// The attempt to fill the field that is being tried.
fn try_field(form: FormFilling, selector: String) -> (step: Step)
    requires
        form@.trying(),
        selector_of(form@.dialect, form@.fields[form@.field as int]) == Some(selector@),
    ensures
        step@ == attempt(form@),
        step@.wf(),
{
    let value = form.entries[form.verdicts.len()].1.clone();
    assert(form@.entries[form@.verdicts.len() as int].1 == value@);
    match form.dialect {
        Dialect::Backend => evaluate(
            write_fill_script(Dialect::Backend, selector.as_str(), value.as_str()),
            AfterCall::Filled { form },
        ),
        Dialect::Session => Step::Fill { selector, value, next: AfterFill { form } },
    }
}

/// The next thing to do on a form.
fn go_on(start: FormFilling) -> (step: Step)
    requires
        start@.verdicts.len() <= start@.entries.len(),
    ensures
        step@ == next_on_form(start@),
        step@.wf(),
{
    let mut form = start;
    while form.verdicts.len() < form.entries.len()
        invariant
            form@.verdicts.len() <= form@.entries.len(),
            next_on_form(form@) == next_on_form(start@),
        decreases form@.entries.len() - form@.verdicts.len(),
    {
        let ghost at = form@;
        let ghost key = at.entries[at.verdicts.len() as int].0;
        let mut field: usize = form.field;
        while field < form.fields.len()
            invariant
                form@ == at,
                form@.verdicts.len() < form@.entries.len(),
                key == at.entries[at.verdicts.len() as int].0,
                next_on_form(at) == next_on_form(start@),
                first_candidate(at.dialect, key, at.fields, field as nat) == first_candidate(
                    at.dialect,
                    key,
                    at.fields,
                    at.field,
                ),
            decreases form.fields@.len() - field,
        {
            assert(form@.fields[field as int] == form.fields@[field as int]@);
            assert(key == form.entries@[form.verdicts@.len() as int].0@);
            if field_goes_by(
                &form.fields[field],
                form.entries[form.verdicts.len()].0.as_str(),
            ) {
                if let Some(selector) = field_selector(form.dialect, &form.fields[field]) {
                    form.field = field;
                    assert(form@ == (FormFillingView { field: field as nat, ..at }));
                    return try_field(form, selector);
                }
            }
            field += 1;
        }
        form.verdicts.push(false);
        form.field = 0;
        assert(form@ == (FormFillingView { verdicts: at.verdicts.push(false), field: 0, ..at }));
    }
    last_key_decided(form)
}

/// What follows when a field has been filled.
pub fn tried(form: FormFilling, filled: bool) -> (step: Step)
    requires
        form@.trying(),
    ensures
        step@ == after_filling(form@, filled),
        step@.wf(),
{
    let ghost at = form@;
    let mut form = form;
    if filled {
        form.verdicts.push(true);
        form.field = 0;
        assert(form@ == (FormFillingView { verdicts: at.verdicts.push(true), field: 0, ..at }));
    } else {
        assert(form.field < form.fields.len());
        form.field = form.field + 1;
        assert(form@ == (FormFillingView { field: at.field + 1, ..at }));
    }
    go_on(form)
}

impl AfterFill {
    /// Goes on when the caller has tried to fill the field.
    pub fn resume(self, filled: bool) -> (step: Step)
        requires
            self.form@.trying(),
        ensures
            step@ == after_filling(self.form@, filled),
            step@.wf(),
    {
        tried(self.form, filled)
    }
}

/// What follows when the form has been submitted.
pub fn submitted(form: FormFilling, reply: Result<Json, String>) -> (step: Step)
    requires
        form@.decided(),
    ensures
        step@ == after_submitting(form@, reply is Ok),
        step@.wf(),
{
    match reply {
        Ok(_) => Step::Sleep { millis: REST_MILLIS, next: AfterSleep::Rested { form } },
        Err(_) => finish_form(&form, false),
    }
}

/// The outcome when the page had time to react to the submitted form.
pub fn rested(form: FormFilling) -> (step: Step)
    requires
        form@.decided(),
    ensures
        step@ == form_outcome(form@, true),
        step@.wf(),
{
    finish_form(&form, true)
}

/// A member that is a string, or the empty text.
fn read_str_or_empty(value: &Json, key: &str) -> (text: String)
    ensures
        text@ == str_or_empty(value@, key@),
{
    match value.get_str(key) {
        Some(text) => text.to_owned(),
        None => "".to_owned(),
    }
}

/// The fields that a list of fields describes.
fn read_fields(list: &Vec<Json>) -> (fields: Vec<FormField>)
    ensures
        fields@.map_values(|field: FormField| field@) == item_views(list@).map_values(
            |field: JsonView| described_field(field),
        ),
{
    let mut fields: Vec<FormField> = Vec::new();
    let mut i: usize = 0;
    while i < list.len()
        invariant
            i <= list@.len(),
            fields@.len() == i,
            forall|k: int| 0 <= k < i ==> (#[trigger] fields@[k])@ == described_field(list@[k]@),
        decreases list@.len() - i,
    {
        let value = &list[i];
        fields.push(
            FormField {
                name: read_str_or_empty(value, "name"),
                label: read_str_or_empty(value, "label"),
                id: read_str_or_empty(value, "id"),
                tag: read_str_or_empty(value, "tagName"),
            },
        );
        i += 1;
    }
    assert(fields@.map_values(|field: FormField| field@) == item_views(list@).map_values(
        |field: JsonView| described_field(field),
    ));
    fields
}

/// The keys of the data with the texts to fill in.
fn read_entries(members: Vec<(String, Json)>) -> (entries: Vec<(String, String)>)
    requires
        JsonView::Object(member_views(members@)).wf(),
    ensures
        entries@.map_values(|entry: (String, String)| (entry.0@, entry.1@)) == member_views(
            members@,
        ).map_values(|entry: (Seq<char>, JsonView)| (entry.0, fill_text(entry.1))),
{
    let ghost trees = member_views(members@);
    let mut entries: Vec<(String, String)> = Vec::new();
    for entry in it: members
        invariant
            it.seq() == members@,
            trees == member_views(members@),
            JsonView::Object(trees).wf(),
            entries@.len() == it.index(),
            forall|k: int|
                0 <= k < entries@.len() ==> (#[trigger] entries@[k]).0@ == trees[k].0
                    && entries@[k].1@ == fill_text(trees[k].1),
    {
        assert(trees[it.index() as int] == (entry.0@, entry.1@));
        assert(trees[it.index() as int].1.wf());
        let value = match entry.1 {
            Json::Str(text) => text,
            other => json_to_text(other),
        };
        entries.push((entry.0, value));
    }
    assert(entries@.map_values(|entry: (String, String)| (entry.0@, entry.1@)) == trees.map_values(
        |entry: (Seq<char>, JsonView)| (entry.0, fill_text(entry.1)),
    ));
    entries
}

/// What follows from the list of forms: the first of them is filled.
pub fn listed(dialect: Dialect, forms: Json, data: Json, submit: bool) -> (step: Step)
    requires
        data@.wf(),
    ensures
        step@ == after_listing(dialect, forms@, data@, submit),
        step@.wf(),
{
    match forms {
        Json::Array(forms) => {
            proof {
                lemma_array_view(forms);
            }
            if forms.len() == 0 {
                let nothing: Vec<Json> = Vec::new();
                let nothing_either: Vec<Json> = Vec::new();
                proof {
                    lemma_array_view(nothing);
                    lemma_array_view(nothing_either);
                    assert(item_views(nothing@) == string_array(seq![])->Array_0);
                    assert(item_views(nothing_either@) == string_array(seq![])->Array_0);
                }
                Step::Done {
                    outcome: Ok(report(Json::Array(nothing), Json::Array(nothing_either), false)),
                }
            } else {
                match forms[0].get("fields") {
                    Some(Json::Array(fields)) => match data {
                        Json::Object(members) => {
                            proof {
                                lemma_array_view(*fields);
                                lemma_object_view(members);
                            }
                            let form = FormFilling {
                                dialect,
                                entries: read_entries(members),
                                fields: read_fields(fields),
                                submit,
                                verdicts: Vec::new(),
                                field: 0,
                            };
                            go_on(form)
                        },
                        _ => Step::Done { outcome: Err("Data must be an object".to_owned()) },
                    },
                    _ => Step::Done { outcome: Err("Invalid form structure".to_owned()) },
                }
            }
        },
        _ => Step::Done { outcome: Err("No forms found".to_owned()) },
    }
}

/// What follows when the forms of the page have been asked for.
pub fn discovered(
    dialect: Dialect,
    data: Json,
    submit: bool,
    reply: Result<Json, String>,
) -> (step: Step)
    requires
        data@.wf(),
    ensures
        step@ == after_discovery(dialect, data@, submit, json_outcome(reply)),
        step@.wf(),
        json_outcome(reply) matches Ok(value) ==> forall|forms: JsonView| #[trigger]
            spells(returned_text_or(dialect, value, "[]"@), forms) ==> step@ == after_listing(
                dialect,
                forms,
                data@,
                submit,
            ),
{
    match reply {
        Ok(value) => match parse_json(
            read_returned_text_or(dialect, &value, "[]").as_str(),
        ) {
            Ok(forms) => listed(dialect, forms, data, submit),
            Err(message) => Step::Done { outcome: Err(message) },
        },
        Err(message) => Step::Done { outcome: Err(message) },
    }
}

/// The step that begins the filling of the page's first form.
pub open spec fn form_filling(dialect: Dialect, data: JsonView, submit: bool) -> StepView {
    evaluation(
        discover_script(dialect),
        AfterCallView::Discovered { dialect, data, submit },
    )
}

/// The step that begins the filling of the page's first form.
pub fn fill_form(dialect: Dialect, data: Json, submit: bool) -> (step: Step)
    requires
        data@.wf(),
    ensures
        step@ == form_filling(dialect, data@, submit),
        step@.wf(),
{
    let script = match dialect {
        Dialect::Backend => scripts::DISCOVER_FORMS.to_owned(),
        Dialect::Session => tools::scripts::DISCOVER_FORMS.to_owned(),
    };
    evaluate(script, AfterCall::Discovered { dialect, data, submit })
}

/// The keys of the data, in their order.
pub open spec fn keys_of(entries: Seq<(Seq<char>, Seq<char>)>) -> Seq<Seq<char>> {
    entries.map_values(|entry: (Seq<char>, Seq<char>)| entry.0)
}

/// A report tells of every key that is decided exactly once: as filled in where
/// the verdict says so, as skipped elsewhere.
pub proof fn law_every_key_is_filled_or_skipped(
    entries: Seq<(Seq<char>, Seq<char>)>,
    verdicts: Seq<bool>,
)
    requires
        verdicts.len() <= entries.len(),
    ensures
        picked(entries, verdicts, true).to_multiset().add(
            picked(entries, verdicts, false).to_multiset(),
        ) == keys_of(entries).take(verdicts.len() as int).to_multiset(),
        forall|i: int|
            0 <= i < verdicts.len() ==> picked(entries, verdicts, verdicts[i]).contains(
                (#[trigger] entries[i]).0,
            ),
    decreases verdicts.len(),
{
    broadcast use vstd::seq_lib::group_to_multiset_ensures;

    let keys = keys_of(entries);
    if verdicts.len() > 0 {
        let rest = verdicts.drop_last();
        let last = entries[verdicts.len() - 1].0;
        law_every_key_is_filled_or_skipped(entries, rest);
        assert(keys.take(verdicts.len() as int) == keys.take(rest.len() as int).push(last));
        assert(picked(entries, verdicts, true).to_multiset().add(
            picked(entries, verdicts, false).to_multiset(),
        ) =~= keys.take(verdicts.len() as int).to_multiset());
        assert forall|i: int| 0 <= i < verdicts.len() implies picked(
            entries,
            verdicts,
            verdicts[i],
        ).contains((#[trigger] entries[i]).0) by {
            let before = picked(entries, rest, verdicts[i]);
            let after = picked(entries, verdicts, verdicts[i]);
            if i < rest.len() {
                assert(rest[i] == verdicts[i]);
                let at = choose|at: int| 0 <= at < before.len() && before[at] == entries[i].0;
                assert(after[at] == entries[i].0);
            } else {
                assert(after.last() == entries[i].0);
            }
        }
    } else {
        assert(keys.take(0).to_multiset() =~= vstd::multiset::Multiset::empty());
        assert(picked(entries, verdicts, true).to_multiset().add(
            picked(entries, verdicts, false).to_multiset(),
        ) =~= keys.take(0).to_multiset());
    }
}

/// The first candidate is one, and no field between the start and it is.
pub proof fn lemma_first_candidate(
    dialect: Dialect,
    key: Seq<char>,
    fields: Seq<FormFieldView>,
    from: nat,
)
    ensures
        match first_candidate(dialect, key, fields, from) {
            Some(at) => {
                &&& from <= at < fields.len()
                &&& is_candidate(dialect, key, fields[at as int])
                &&& forall|k: int| from <= k < at ==> !is_candidate(dialect, key, #[trigger] fields[k])
            },
            None => forall|k: int|
                from <= k < fields.len() ==> !is_candidate(dialect, key, #[trigger] fields[k]),
        },
    decreases fields.len() - from,
{
    if from < fields.len() && !is_candidate(dialect, key, fields[from as int]) {
        lemma_first_candidate(dialect, key, fields, from + 1);
    }
}

/// The form that a step is about to fill a field of.
pub open spec fn form_tried(step: StepView) -> Option<FormFillingView> {
    match step {
        StepView::Fill { form, .. } => Some(form),
        StepView::Call { next: AfterCallView::Filled { form }, .. } => Some(form),
        _ => None,
    }
}

/// A field is a candidate for a key.
pub open spec fn offers(form: FormFillingView, key: int, field: int) -> bool {
    is_candidate(form.dialect, form.entries[key].0, form.fields[field])
}

/// A field is filled only with the value of a key that it goes by, and no
/// candidate is passed over: what was passed over on the way to the field, for
/// its key and for the keys before it, are fields that are no candidates, and
/// those keys are skipped.
pub proof fn law_only_matching_fields_are_filled(form: FormFillingView)
    requires
        form.verdicts.len() <= form.entries.len(),
    ensures
        form_tried(next_on_form(form)) matches Some(next) ==> {
            let first = form.verdicts.len() as int;
            let at = next.verdicts.len() as int;
            &&& next == (FormFillingView { verdicts: next.verdicts, field: next.field, ..form })
            &&& next.trying()
            &&& offers(form, at, next.field as int)
            &&& next_on_form(form) == attempt(next)
            &&& form.verdicts.is_prefix_of(next.verdicts)
            &&& forall|key: int| first <= key < at ==> !#[trigger] next.verdicts[key]
            &&& forall|key: int, field: int|
                first <= key <= at && (if key == first {
                    form.field as int
                } else {
                    0
                }) <= field < (if key == at {
                    next.field as int
                } else {
                    form.fields.len() as int
                }) ==> !#[trigger] offers(form, key, field)
        },
    decreases form.entries.len() - form.verdicts.len(),
{
    if form.verdicts.len() < form.entries.len() {
        let key = form.entries[form.verdicts.len() as int].0;
        lemma_first_candidate(form.dialect, key, form.fields, form.field);
        if first_candidate(form.dialect, key, form.fields, form.field) is None {
            let skipped = FormFillingView {
                verdicts: form.verdicts.push(false),
                field: 0,
                ..form
            };
            law_only_matching_fields_are_filled(skipped);
            assert forall|key: int, field: int| offers(skipped, key, field) == #[trigger] offers(
                form,
                key,
                field,
            ) by {}
            if let Some(next) = form_tried(next_on_form(form)) {
                assert forall|key: int, field: int|
                    form.verdicts.len() <= key <= next.verdicts.len() && (if key
                        == form.verdicts.len() {
                        form.field as int
                    } else {
                        0
                    }) <= field < (if key == next.verdicts.len() {
                        next.field as int
                    } else {
                        form.fields.len() as int
                    }) implies !#[trigger] offers(form, key, field) by {
                    assert(offers(skipped, key, field) == offers(form, key, field));
                }
            }
        }
    }
}

/// A form is done with only when every key that is left has no candidate left;
/// those keys are skipped.
pub proof fn law_no_key_is_given_up_early(form: FormFillingView)
    requires
        form.verdicts.len() <= form.entries.len(),
    ensures
        form_tried(next_on_form(form)) is None ==> {
            let first = form.verdicts.len() as int;
            let skipped = Seq::new(
                (form.entries.len() - form.verdicts.len()) as nat,
                |i: int| false,
            );
            let last = FormFillingView {
                verdicts: form.verdicts + skipped,
                field: if form.decided() {
                    form.field
                } else {
                    0
                },
                ..form
            };
            &&& next_on_form(form) == after_last_key(last)
            &&& forall|key: int, field: int|
                first <= key < form.entries.len() && (if key == first {
                    form.field as int
                } else {
                    0
                }) <= field < form.fields.len() ==> !#[trigger] offers(form, key, field)
        },
    decreases form.entries.len() - form.verdicts.len(),
{
    let left = (form.entries.len() - form.verdicts.len()) as nat;
    let skipped = Seq::new(left, |i: int| false);
    if form.verdicts.len() < form.entries.len() {
        let key = form.entries[form.verdicts.len() as int].0;
        lemma_first_candidate(form.dialect, key, form.fields, form.field);
        if first_candidate(form.dialect, key, form.fields, form.field) is None {
            let next = FormFillingView { verdicts: form.verdicts.push(false), field: 0, ..form };
            law_no_key_is_given_up_early(next);
            let rest = Seq::new((left - 1) as nat, |i: int| false);
            assert(next.verdicts + rest == form.verdicts + skipped);
            assert forall|key: int, field: int| offers(next, key, field) == #[trigger] offers(
                form,
                key,
                field,
            ) by {}
        }
    } else {
        assert(form.verdicts + skipped == form.verdicts);
    }
}

} // verus!
