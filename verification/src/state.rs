//! Saving the state of a browser session and restoring it.

use vstd::prelude::*;

use crate::json::{
    empty_object, json_outcome, json_parsed, json_text, json_to_text, lemma_array_view,
    lemma_lasting_value, lemma_member_read_back, lemma_object_view, lemma_one_member_wf, lemma_two_members_wf, object_of_one, object_of_two,
    notes_down, parse_json, spells, Json, JsonView,
};
use crate::literal::{
    law_single_quoted_literal_says_its_text, literal_at, single_quoted_literal, singly_quoted,
};
use crate::reply::{evaluate, evaluation, read_returned_text_or, returned_text_or};
use crate::scripts;
use crate::step::{
    optional_json, planned, AfterCall, AfterCallView, Dialect, PlannedCall, PlannedCallView, Step,
    StepView,
};

verus! {

/// The value, or null where there is none.
pub open spec fn or_null(value: Option<JsonView>) -> JsonView {
    match value {
        Some(value) => value,
        None => JsonView::Null,
    }
}

/// The saved state: the cookies and the local storage, null where the page gave
/// none.
pub open spec fn saved_state(cookies: Option<JsonView>, storage: Option<JsonView>) -> JsonView {
    JsonView::Object(
        seq![("cookies"@, or_null(cookies)), ("localStorage"@, or_null(storage))],
    )
}

/// The step that begins to save the state.
pub open spec fn saving() -> StepView {
    StepView::Call {
        method: "Network.getAllCookies"@,
        params: JsonView::Object(seq![]),
        next: AfterCallView::CookiesRead,
    }
}

/// What follows when the cookies have been asked for.
pub open spec fn after_cookies(reply: Result<JsonView, Seq<char>>) -> StepView {
    match reply {
        Ok(value) => evaluation(
            scripts::READ_STORAGE@,
            AfterCallView::StorageRead { cookies: value.get("cookies"@) },
        ),
        Err(message) => StepView::Done { outcome: Err(message) },
    }
}

/// What follows when the local storage has been asked for. Storage that cannot
/// be read is left out.
pub open spec fn after_storage(
    cookies: Option<JsonView>,
    reply: Result<JsonView, Seq<char>>,
) -> StepView {
    StepView::Done {
        outcome: match reply {
            Ok(value) => {
                let storage = match json_parsed(
                    returned_text_or(Dialect::Backend, value, "{}"@),
                ) {
                    Ok(storage) => Some(storage),
                    Err(_) => None,
                };
                Ok(json_text(saved_state(cookies, storage)))
            },
            Err(message) => Err(message),
        },
    }
}

/// The script that stores one item.
pub open spec fn store_script(key: Seq<char>, value: Seq<char>) -> Seq<char> {
    scripts::STORE_ITEM_HEAD@ + singly_quoted(key) + scripts::STORE_ITEM_MIDDLE@ + singly_quoted(
        value,
    ) + scripts::STORE_ITEM_TAIL@
}

/// The call that sets one cookie.
pub open spec fn cookie_call(cookie: JsonView) -> PlannedCallView {
    PlannedCallView { method: "Network.setCookie"@, params: cookie }
}

/// The call that stores one item; a value that is no string is stored as the
/// empty text.
pub open spec fn store_call(key: Seq<char>, value: JsonView) -> PlannedCallView {
    let text = match value.as_str() {
        Some(text) => text,
        None => ""@,
    };
    PlannedCallView {
        method: "Runtime.evaluate"@,
        params: JsonView::Object(seq![("expression"@, JsonView::Str(store_script(key, text)))]),
    }
}

/// The calls that set the cookies.
pub open spec fn cookie_calls(cookies: Option<JsonView>) -> Seq<PlannedCallView> {
    match cookies {
        Some(JsonView::Array(cookies)) => cookies.map_values(
            |cookie: JsonView| cookie_call(cookie),
        ),
        _ => seq![],
    }
}

/// The calls that fill the local storage.
pub open spec fn storage_calls(storage: Option<JsonView>) -> Seq<PlannedCallView> {
    match storage {
        Some(JsonView::Object(items)) => items.map_values(
            |item: (Seq<char>, JsonView)| store_call(item.0, item.1),
        ),
        _ => seq![],
    }
}

/// The calls that restore a saved state: first the cookies, then the local
/// storage, each in its order.
pub open spec fn restore_calls(state: JsonView) -> Seq<PlannedCallView> {
    cookie_calls(state.get("cookies"@)) + storage_calls(state.get("localStorage"@))
}

/// What is left to do when these calls are left. What comes of a call does not
/// matter.
pub open spec fn restoring(calls: Seq<PlannedCallView>) -> StepView {
    if calls.len() == 0 {
        StepView::Done { outcome: Ok("{\"restored\": true}"@) }
    } else {
        StepView::Call {
            method: calls[0].method,
            params: calls[0].params,
            next: AfterCallView::Restoring { calls: calls.skip(1) },
        }
    }
}

/// The step that begins to restore the state in a text.
pub open spec fn restoration(text: Seq<char>) -> StepView {
    match json_parsed(text) {
        Ok(state) => restoring(restore_calls(state)),
        Err(message) => StepView::Done { outcome: Err("Invalid state JSON: "@ + message) },
    }
}

/// The step that begins to save the state.
pub fn save_session_state() -> (step: Step)
    ensures
        step@ == saving(),
        step@.wf(),
{
    Step::Call {
        method: "Network.getAllCookies".to_owned(),
        params: empty_object(),
        next: AfterCall::CookiesRead,
    }
}

/// What follows when the cookies have been asked for.
pub fn cookies_read(reply: Result<Json, String>) -> (step: Step)
    requires
        crate::step::reply_wf(json_outcome(reply)),
    ensures
        step@ == after_cookies(json_outcome(reply)),
        step@.wf(),
{
    match reply {
        Ok(value) => evaluate(
            scripts::READ_STORAGE.to_owned(),
            AfterCall::StorageRead { cookies: value.into_member("cookies") },
        ),
        Err(message) => Step::Done { outcome: Err(message) },
    }
}

/// The saved state in JSON notation.
pub fn state_text(cookies: Option<Json>, storage: Option<Json>) -> (text: String)
    requires
        or_null(optional_json(cookies)).wf(),
        or_null(optional_json(storage)).wf(),
    ensures
        text@ == json_text(saved_state(optional_json(cookies), optional_json(storage))),
{
    proof {
        reveal_strlit("cookies");
        reveal_strlit("localStorage");
        lemma_two_members_wf(
            ("cookies"@, or_null(optional_json(cookies))),
            ("localStorage"@, or_null(optional_json(storage))),
        );
    }
    let cookies = match cookies {
        Some(cookies) => cookies,
        None => Json::Null,
    };
    let storage = match storage {
        Some(storage) => storage,
        None => Json::Null,
    };
    json_to_text(object_of_two(("cookies", cookies), ("localStorage", storage)))
}

/// What follows when the local storage has been asked for.
pub fn storage_read(cookies: Option<Json>, reply: Result<Json, String>) -> (step: Step)
    requires
        or_null(optional_json(cookies)).wf(),
    ensures
        step@ == after_storage(optional_json(cookies), json_outcome(reply)),
        step@.wf(),
        json_outcome(reply) matches Ok(value) ==> forall|storage: JsonView| #[trigger]
            spells(returned_text_or(Dialect::Backend, value, "{}"@), storage) ==> step@ == (
            StepView::Done {
                outcome: Ok(json_text(saved_state(optional_json(cookies), Some(storage)))),
            }),
{
    match reply {
        Ok(value) => {
            let storage = match parse_json(
                read_returned_text_or(Dialect::Backend, &value, "{}").as_str(),
            ) {
                Ok(storage) => Some(storage),
                Err(_) => None,
            };
            Step::Done { outcome: Ok(state_text(cookies, storage)) }
        },
        Err(message) => Step::Done { outcome: Err(message) },
    }
}

/// The call that stores one item.
fn plan_store(key: &str, value: &Json) -> (call: PlannedCall)
    ensures
        call@ == store_call(key@, value@),
        call@.params.wf(),
{
    let text = match value.as_str() {
        Some(text) => text,
        None => "",
    };
    let script = scripts::STORE_ITEM_HEAD.to_owned().concat(
        single_quoted_literal(key).as_str(),
    ).concat(scripts::STORE_ITEM_MIDDLE).concat(single_quoted_literal(text).as_str()).concat(
        scripts::STORE_ITEM_TAIL,
    );
    proof {
        lemma_one_member_wf(("expression"@, JsonView::Str(script@)));
    }
    PlannedCall {
        method: "Runtime.evaluate".to_owned(),
        params: object_of_one("expression", Json::Str(script)),
    }
}

/// The planned calls are well-formed: their parameters are.
pub open spec fn calls_wf(calls: Seq<PlannedCallView>) -> bool {
    forall|i: int| 0 <= i < calls.len() ==> (#[trigger] calls[i]).params.wf()
}

/// The calls that restore a saved state.
pub fn plan_restoration(state: Json) -> (calls: Vec<PlannedCall>)
    requires
        state@.wf(),
    ensures
        planned(calls@) == restore_calls(state@),
        calls_wf(planned(calls@)),
{
    proof {
        reveal_strlit("cookies");
        reveal_strlit("localStorage");
        assert("cookies"@.len() != "localStorage"@.len());
    }
    let ghost cookie_tree = state@.get("cookies"@);
    let ghost storage_tree = state@.get("localStorage"@);
    let (cookies, storage) = state.into_two_members("cookies", "localStorage");
    let mut calls: Vec<PlannedCall> = Vec::new();
    if let Some(Json::Array(cookies)) = cookies {
        let ghost trees = crate::json::item_views(cookies@);
        proof {
            lemma_array_view(cookies);
            crate::json::lemma_items_wf(trees);
        }
        for cookie in it: cookies
            invariant
                it.seq() == cookies@,
                trees == crate::json::item_views(cookies@),
                forall|i: int| 0 <= i < trees.len() ==> (#[trigger] trees[i]).wf(),
                calls@.len() == it.index(),
                forall|i: int|
                    0 <= i < calls@.len() ==> (#[trigger] calls@[i])@ == cookie_call(trees[i]),
        {
            assert(trees[it.index() as int] == cookie@);
            calls.push(PlannedCall { method: "Network.setCookie".to_owned(), params: cookie });
        }
        assert(cookie_calls(cookie_tree) == trees.map_values(
            |cookie: JsonView| cookie_call(cookie),
        ));
    }
    assert(planned(calls@) == cookie_calls(cookie_tree));
    assert(calls_wf(planned(calls@)));
    let ghost first = cookie_calls(cookie_tree);
    if let Some(Json::Object(items)) = storage {
        let ghost trees = crate::json::member_views(items@);
        proof {
            lemma_object_view(items);
        }
        for item in it: items
            invariant
                it.seq() == items@,
                trees == crate::json::member_views(items@),
                calls@.len() == first.len() + it.index(),
                calls_wf(planned(calls@)),
                forall|i: int| 0 <= i < first.len() ==> (#[trigger] calls@[i])@ == first[i],
                forall|i: int|
                    first.len() <= i < calls@.len() ==> (#[trigger] calls@[i])@ == store_call(
                        trees[i - first.len()].0,
                        trees[i - first.len()].1,
                    ),
        {
            let ghost before = planned(calls@);
            assert(trees[it.index() as int] == (item.0@, item.1@));
            calls.push(plan_store(item.0.as_str(), &item.1));
            assert(planned(calls@) == before.push(calls@.last()@));
        }
        assert(storage_calls(storage_tree) == trees.map_values(
            |item: (Seq<char>, JsonView)| store_call(item.0, item.1),
        ));
    }
    assert(planned(calls@) == first + storage_calls(storage_tree));
    calls
}

/// What is left to do when these calls are left.
pub fn restore_next(calls: Vec<PlannedCall>) -> (step: Step)
    requires
        calls_wf(planned(calls@)),
    ensures
        step@ == restoring(planned(calls@)),
        step@.wf(),
{
    let ghost all = planned(calls@);
    let mut calls = calls;
    if calls.len() == 0 {
        Step::Done { outcome: Ok("{\"restored\": true}".to_owned()) }
    } else {
        let call = calls.remove(0);
        assert(planned(calls@) == all.skip(1));
        assert(call@ == all[0]);
        Step::Call { method: call.method, params: call.params, next: AfterCall::Restoring { calls } }
    }
}

/// The step that begins to restore the state in a text. A text that holds a
/// state in compact notation is restored as that state, but for the last bit of
/// numbers with a fraction or an exponent.
pub fn restore_session_state(text: &str) -> (step: Step)
    ensures
        step@ == restoration(text@),
        step@.wf(),
        forall|state: JsonView| #[trigger]
            spells(text@, state) ==> step@ == restoring(restore_calls(state)),
        forall|state: JsonView| #[trigger]
            notes_down(text@, state) ==> step@ == restoring(restore_calls(state.read_back())),
{
    match parse_json(text) {
        Ok(state) => restore_next(plan_restoration(state)),
        Err(message) => Step::Done {
            outcome: Err("Invalid state JSON: ".to_owned().concat(message.as_str())),
        },
    }
}

/// Restoring replays what was saved: a state with these cookies and this local
/// storage is restored by one call for each cookie, which hands the cookie over
/// as it was saved, and then one call for each item of the storage.
pub proof fn law_restoring_replays_what_was_saved(
    cookies: Seq<JsonView>,
    storage: Seq<(Seq<char>, JsonView)>,
)
    ensures
        restore_calls(
            saved_state(Some(JsonView::Array(cookies)), Some(JsonView::Object(storage))),
        ) == cookies.map_values(|cookie: JsonView| cookie_call(cookie)) + storage.map_values(
            |item: (Seq<char>, JsonView)| store_call(item.0, item.1),
        ),
{
    lemma_saved_members(Some(JsonView::Array(cookies)), Some(JsonView::Object(storage)));
}

/// The members of a saved state.
pub proof fn lemma_saved_members(cookies: Option<JsonView>, storage: Option<JsonView>)
    ensures
        saved_state(cookies, storage).get("cookies"@) == Some(or_null(cookies)),
        saved_state(cookies, storage).get("localStorage"@) == Some(or_null(storage)),
{
    reveal_strlit("cookies");
    reveal_strlit("localStorage");
    assert("cookies"@.len() != "localStorage"@.len());
    let members = saved_state(cookies, storage)->Object_0;
    reveal_with_fuel(crate::json::member, 3);
    assert(members.skip(1)[0] == ("localStorage"@, or_null(storage)));
}

/// Whatever numbers a saved state holds, restoring its text sets one cookie for
/// each that was saved, in their order, with every member as it was saved but
/// for the last bit of numbers with a fraction or an exponent; and then stores
/// every item of the local storage with exactly its saved text.
pub proof fn law_restoring_loses_at_most_last_bits(
    cookies: Seq<JsonView>,
    storage: Seq<(Seq<char>, JsonView)>,
)
    requires
        forall|i: int| 0 <= i < cookies.len() ==> (#[trigger] cookies[i]).wf(),
        JsonView::Object(storage).wf(),
        forall|i: int| 0 <= i < cookies.len() ==> (#[trigger] cookies[i]).numbers_readable(),
        forall|i: int| 0 <= i < cookies.len() ==> (#[trigger] cookies[i]).nests_within(125),
        forall|i: int| 0 <= i < storage.len() ==> (#[trigger] storage[i]).1 is Str,
    ensures
        ({
            let state = saved_state(
                Some(JsonView::Array(cookies)),
                Some(JsonView::Object(storage)),
            );
            &&& notes_down(json_text(state), state)
            &&& restore_calls(state.read_back()) == cookies.map_values(
                |cookie: JsonView| cookie_call(cookie.read_back()),
            ) + storage.map_values(|item: (Seq<char>, JsonView)| store_call(item.0, item.1))
        }),
        forall|i: int, key: Seq<char>|
            0 <= i < cookies.len() && (#[trigger] cookies[i].get(key) matches Some(value)
                && value.numbers_last()) ==> cookies[i].read_back().get(key) == cookies[i].get(key),
{
    let jar = JsonView::Array(cookies);
    let store = JsonView::Object(storage);
    let state = saved_state(Some(jar), Some(store));
    assert forall|i: int| 0 <= i < jar->Array_0.len() implies (#[trigger] jar->Array_0[i]).wf()
        && jar->Array_0[i].numbers_readable() && jar->Array_0[i].nests_within(125) by {
        assert(cookies[i].wf());
    }
    assert(jar.wf() && jar.numbers_readable() && jar.nests_within(126));
    assert forall|i: int| 0 <= i < storage.len() implies (
    #[trigger] storage[i]).1.numbers_readable() && storage[i].1.nests_within(125)
        && storage[i].1.read_back() == storage[i].1 by {
        assert(storage[i].1 is Str);
    }
    assert(store.numbers_readable() && store.nests_within(126));
    assert(store.read_back()->Object_0 == storage);
    lemma_saved_members(Some(jar), Some(store));
    lemma_member_read_back(state, "cookies"@);
    lemma_member_read_back(state, "localStorage"@);
    reveal_strlit("cookies");
    reveal_strlit("localStorage");
    lemma_two_members_wf(("cookies"@, jar), ("localStorage"@, store));
    let members = state->Object_0;
    assert(members[0] == ("cookies"@, jar) && members[1] == ("localStorage"@, store));
    assert forall|i: int| 0 <= i < members.len() implies (
    #[trigger] members[i]).1.numbers_readable() && members[i].1.nests_within(126) by {
        assert(i == 0 || i == 1);
    }
    assert(cookie_calls(Some(jar.read_back())) == cookies.map_values(
        |cookie: JsonView| cookie_call(cookie.read_back()),
    ));
    assert forall|i: int, key: Seq<char>|
        0 <= i < cookies.len() && (#[trigger] cookies[i].get(key) matches Some(value)
            && value.numbers_last()) implies cookies[i].read_back().get(key)
        == cookies[i].get(key) by {
        lemma_member_read_back(cookies[i], key);
        lemma_lasting_value(cookies[i].get(key)->Some_0);
    }
}

/// A saved state survives being written out and read back when the cookies and
/// the storage do, one level deeper.
pub proof fn law_saved_state_can_be_read_back(cookies: JsonView, storage: JsonView)
    requires
        cookies.wf() && cookies.numbers_last() && cookies.nests_within(126),
        storage.wf() && storage.numbers_last() && storage.nests_within(126),
    ensures
        saved_state(Some(cookies), Some(storage)).survives_text(),
{
    reveal_strlit("cookies");
    reveal_strlit("localStorage");
    lemma_two_members_wf(("cookies"@, cookies), ("localStorage"@, storage));
    let state = saved_state(Some(cookies), Some(storage));
    let members = state->Object_0;
    assert(members[0] == ("cookies"@, cookies) && members[1] == ("localStorage"@, storage));
    assert forall|i: int| 0 <= i < members.len() implies (#[trigger] members[i]).1.numbers_last()
        && members[i].1.nests_within(126) by {
        assert(i == 0 || i == 1);
    }
}

/// The storing script says exactly its key and its value, whatever they hold:
/// each of its two literals closes at its own end and is read as its text.
pub proof fn law_store_script_holds_key_and_value(key: Seq<char>, value: Seq<char>)
    ensures
        ({
            let script = store_script(key, value);
            let first = scripts::STORE_ITEM_HEAD@.len() as int;
            let second = first + singly_quoted(key).len() + scripts::STORE_ITEM_MIDDLE@.len();
            literal_at(script, first) == Some(key) && literal_at(script, second) == Some(value)
        }),
{
    let head = scripts::STORE_ITEM_HEAD@;
    let middle = scripts::STORE_ITEM_MIDDLE@;
    let tail = scripts::STORE_ITEM_TAIL@;
    law_single_quoted_literal_says_its_text(head, key, middle + singly_quoted(value) + tail);
    assert(store_script(key, value) == head + singly_quoted(key) + (middle + singly_quoted(value)
        + tail));
    law_single_quoted_literal_says_its_text(head + singly_quoted(key) + middle, value, tail);
}

} // verus!
