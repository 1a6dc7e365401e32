//! JSON values: their tree, how they are read and written.

use vstd::prelude::*;

use crate::text::{decimal, joined, optional_str, text_less, texts};

verus! {

/// `serde_json::Value`, carried as it is; `value_tree` says what it holds.
#[verifier::external_type_specification]
#[verifier::external_body]
pub struct ExValue(serde_json::Value);

/// `serde_json::Number`, carried as it is.
#[verifier::external_type_specification]
#[verifier::external_body]
pub struct ExNumber(serde_json::Number);

/// A JSON number with a fraction or an exponent, together with its notation.
#[derive(Debug, PartialEq)]
pub struct JsonFloat {
    number: serde_json::Number,
    notation: String,
}

impl View for JsonFloat {
    type V = Seq<char>;

    closed spec fn view(&self) -> Seq<char> {
        self.notation@
    }
}

/// A JSON value.
#[derive(Debug, PartialEq)]
pub enum Json {
    Null,
    Bool(bool),
    /// An integer from zero up.
    PosInt(u64),
    /// An integer below zero.
    NegInt(i64),
    Float(JsonFloat),
    Str(String),
    Array(Vec<Json>),
    /// The members of an object, in ascending order of their keys.
    Object(Vec<(String, Json)>),
}

/// The mathematical content of a JSON value.
pub enum JsonView {
    Null,
    Bool(bool),
    PosInt(u64),
    NegInt(i64),
    Float(Seq<char>),
    Str(Seq<char>),
    Array(Seq<JsonView>),
    Object(Seq<(Seq<char>, JsonView)>),
}

impl Json {
    /// The content of a value, level by level.
    pub open spec fn tree(self) -> JsonView
        decreases self,
    {
        match self {
            Json::Null => JsonView::Null,
            Json::Bool(b) => JsonView::Bool(b),
            Json::PosInt(n) => JsonView::PosInt(n),
            Json::NegInt(n) => JsonView::NegInt(n),
            Json::Float(number) => JsonView::Float(number@),
            Json::Str(text) => JsonView::Str(text@),
            Json::Array(items) => JsonView::Array(
                Seq::new(
                    items@.len(),
                    |i: int|
                        if 0 <= i < items@.len() {
                            items@[i].tree()
                        } else {
                            JsonView::Null
                        },
                ),
            ),
            Json::Object(members) => JsonView::Object(
                Seq::new(
                    members@.len(),
                    |i: int|
                        if 0 <= i < members@.len() {
                            (members@[i].0@, members@[i].1.tree())
                        } else {
                            (Seq::empty(), JsonView::Null)
                        },
                ),
            ),
        }
    }
}

impl View for Json {
    type V = JsonView;

    open spec fn view(&self) -> JsonView {
        self.tree()
    }
}

/// The views of a list of values.
pub open spec fn item_views(items: Seq<Json>) -> Seq<JsonView> {
    items.map_values(|item: Json| item@)
}

/// The views of the members of an object.
pub open spec fn member_views(members: Seq<(String, Json)>) -> Seq<(Seq<char>, JsonView)> {
    members.map_values(|entry: (String, Json)| (entry.0@, entry.1@))
}

/// The view of an array is the array of the views.
pub proof fn lemma_array_view(items: Vec<Json>)
    ensures
        Json::Array(items)@ == JsonView::Array(item_views(items@)),
{
    assert(Json::Array(items)@->Array_0 == item_views(items@));
}

/// The view of an object is the object of the views.
pub proof fn lemma_object_view(members: Vec<(String, Json)>)
    ensures
        Json::Object(members)@ == JsonView::Object(member_views(members@)),
{
    assert(Json::Object(members)@->Object_0 == member_views(members@));
}

/// The keys of the members stand in strictly ascending order.
pub open spec fn keys_ascend(members: Seq<(Seq<char>, JsonView)>) -> bool {
    forall|i: int, j: int|
        0 <= i < j < members.len() ==> text_less(#[trigger] members[i].0, #[trigger] members[j].0)
}

/// The value of the first member with the given key.
pub open spec fn member(members: Seq<(Seq<char>, JsonView)>, key: Seq<char>) -> Option<JsonView>
    decreases members.len(),
{
    if members.len() == 0 {
        None
    } else if members[0].0 == key {
        Some(members[0].1)
    } else {
        member(members.skip(1), key)
    }
}

impl JsonView {
    /// Object keys ascend, and negative integers are negative, at every level.
    pub open spec fn wf(self) -> bool
        decreases self,
    {
        match self {
            JsonView::NegInt(n) => n < 0,
            JsonView::Array(items) => forall|i: int|
                0 <= i < items.len() ==> (#[trigger] items[i]).wf(),
            JsonView::Object(members) => {
                &&& keys_ascend(members)
                &&& forall|i: int| 0 <= i < members.len() ==> (#[trigger] members[i]).1.wf()
            },
            _ => true,
        }
    }

    /// Every number with a fraction or an exponent is read back from its own
    /// notation. Integers always are.
    pub open spec fn numbers_last(self) -> bool
        decreases self,
    {
        match self {
            JsonView::Float(notation) => json_parsed(notation) == Ok::<JsonView, Seq<char>>(
                JsonView::Float(notation),
            ),
            JsonView::Array(items) => forall|i: int|
                0 <= i < items.len() ==> (#[trigger] items[i]).numbers_last(),
            JsonView::Object(members) => forall|i: int|
                0 <= i < members.len() ==> (#[trigger] members[i]).1.numbers_last(),
            _ => true,
        }
    }

    /// The notation of every number with a fraction or an exponent is read as
    /// such a number.
    pub open spec fn numbers_readable(self) -> bool
        decreases self,
    {
        match self {
            JsonView::Float(notation) => json_parsed(notation) matches Ok(JsonView::Float(_)),
            JsonView::Array(items) => forall|i: int|
                0 <= i < items.len() ==> (#[trigger] items[i]).numbers_readable(),
            JsonView::Object(members) => forall|i: int|
                0 <= i < members.len() ==> (#[trigger] members[i]).1.numbers_readable(),
            _ => true,
        }
    }

    /// The value with every number that has a fraction or an exponent replaced
    /// by what its notation is read as. All else is the same.
    pub open spec fn read_back(self) -> JsonView
        decreases self,
    {
        match self {
            JsonView::Float(notation) => match json_parsed(notation) {
                Ok(number) => number,
                Err(_) => self,
            },
            JsonView::Array(items) => JsonView::Array(
                Seq::new(
                    items.len(),
                    |i: int|
                        if 0 <= i < items.len() {
                            items[i].read_back()
                        } else {
                            JsonView::Null
                        },
                ),
            ),
            JsonView::Object(members) => JsonView::Object(
                Seq::new(
                    members.len(),
                    |i: int|
                        if 0 <= i < members.len() {
                            (members[i].0, members[i].1.read_back())
                        } else {
                            (Seq::empty(), JsonView::Null)
                        },
                ),
            ),
            _ => self,
        }
    }

    /// Arrays and objects nest at most `levels` deep.
    pub open spec fn nests_within(self, levels: nat) -> bool
        decreases self,
    {
        match self {
            JsonView::Array(items) => levels > 0 && forall|i: int|
                0 <= i < items.len() ==> (#[trigger] items[i]).nests_within((levels - 1) as nat),
            JsonView::Object(members) => levels > 0 && forall|i: int|
                0 <= i < members.len() ==> (#[trigger] members[i]).1.nests_within(
                    (levels - 1) as nat,
                ),
            _ => true,
        }
    }

    /// A value that its text gives back when it is parsed.
    pub open spec fn survives_text(self) -> bool {
        self.wf() && self.numbers_last() && self.nests_within(127)
    }

    /// The member of an object with the given key.
    pub open spec fn get(self, key: Seq<char>) -> Option<JsonView> {
        match self {
            JsonView::Object(members) => member(members, key),
            _ => None,
        }
    }

    /// The content of a string.
    pub open spec fn as_str(self) -> Option<Seq<char>> {
        match self {
            JsonView::Str(text) => Some(text),
            _ => None,
        }
    }

    /// The value of an integer that is not negative.
    pub open spec fn as_u64(self) -> Option<u64> {
        match self {
            JsonView::PosInt(n) => Some(n),
            _ => None,
        }
    }

    /// The value of a boolean.
    pub open spec fn as_bool(self) -> Option<bool> {
        match self {
            JsonView::Bool(b) => Some(b),
            _ => None,
        }
    }

    /// The string member of an object with the given key.
    pub open spec fn get_str(self, key: Seq<char>) -> Option<Seq<char>> {
        match self.get(key) {
            Some(value) => value.as_str(),
            None => None,
        }
    }
}

/// The items of a well-formed array are well-formed.
pub proof fn lemma_items_wf(items: Seq<JsonView>)
    requires
        JsonView::Array(items).wf(),
    ensures
        forall|i: int| 0 <= i < items.len() ==> (#[trigger] items[i]).wf(),
{
    let array = JsonView::Array(items);
    assert forall|i: int| 0 <= i < items.len() implies (#[trigger] items[i]).wf() by {
        assert(array->Array_0[i].wf());
    }
}

/// A value whose numbers last is read back as it is.
pub proof fn lemma_lasting_value(value: JsonView)
    requires
        value.numbers_last(),
    ensures
        value.numbers_readable(),
        value.read_back() == value,
    decreases value,
{
    match value {
        JsonView::Array(items) => {
            assert forall|i: int| 0 <= i < items.len() implies (
            #[trigger] items[i]).numbers_readable() && items[i].read_back() == items[i] by {
                assert(value->Array_0[i].numbers_last());
                assert(decreases_to!(value => value->Array_0));
                assert(decreases_to!(items => items[i]));
                lemma_lasting_value(items[i]);
            }
            assert(value.read_back()->Array_0 == items);
        },
        JsonView::Object(members) => {
            assert forall|i: int| 0 <= i < members.len() implies (
            #[trigger] members[i]).1.numbers_readable() && members[i].1.read_back()
                == members[i].1 by {
                assert(value->Object_0[i].1.numbers_last());
                assert(decreases_to!(value => value->Object_0));
                assert(decreases_to!(members => members[i]));
                assert(decreases_to!(members[i] => members[i].1));
                lemma_lasting_value(members[i].1);
            }
            assert(value.read_back()->Object_0 == members);
        },
        _ => {},
    }
}

/// A member of an object is read back with the object.
pub proof fn lemma_member_read_back(object: JsonView, key: Seq<char>)
    ensures
        object.get(key) matches Some(value) ==> object.read_back().get(key) == Some(
            value.read_back(),
        ),
        object is Object && object.get(key) is None ==> object.read_back().get(key) is None,
{
    if let JsonView::Object(members) = object {
        let again = object.read_back()->Object_0;
        lemma_members_read_back(members, again, key);
    }
}

proof fn lemma_members_read_back(
    members: Seq<(Seq<char>, JsonView)>,
    again: Seq<(Seq<char>, JsonView)>,
    key: Seq<char>,
)
    requires
        again.len() == members.len(),
        forall|i: int|
            0 <= i < members.len() ==> (#[trigger] again[i]) == (
                members[i].0,
                members[i].1.read_back(),
            ),
    ensures
        match member(members, key) {
            Some(value) => member(again, key) == Some(value.read_back()),
            None => member(again, key) is None,
        },
    decreases members.len(),
{
    if members.len() > 0 && members[0].0 != key {
        assert(again[0].0 == members[0].0);
        assert forall|i: int| 0 <= i < members.skip(1).len() implies (#[trigger] again.skip(1)[i])
            == (members.skip(1)[i].0, members.skip(1)[i].1.read_back()) by {
            assert(again[i + 1] == (members[i + 1].0, members[i + 1].1.read_back()));
        }
        lemma_members_read_back(members.skip(1), again.skip(1), key);
    } else if members.len() > 0 {
        assert(again[0] == (members[0].0, members[0].1.read_back()));
    }
}

/// An array of strings.
pub open spec fn string_array(items: Seq<Seq<char>>) -> JsonView {
    JsonView::Array(items.map_values(|item: Seq<char>| JsonView::Str(item)))
}

/// An array of strings is well-formed.
pub proof fn lemma_string_array_wf(items: Seq<Seq<char>>)
    ensures
        string_array(items).wf(),
{
    let array = string_array(items);
    assert forall|i: int| 0 <= i < array->Array_0.len() implies (
    #[trigger] array->Array_0[i]).wf() by {
        assert(array->Array_0[i] == JsonView::Str(items[i]));
    }
}

/// An object with one member is well-formed when its value is.
pub proof fn lemma_one_member_wf(a: (Seq<char>, JsonView))
    requires
        a.1.wf(),
    ensures
        JsonView::Object(seq![a]).wf(),
{
}

/// An object with two members is well-formed when their keys ascend and their
/// values are well-formed.
pub proof fn lemma_two_members_wf(a: (Seq<char>, JsonView), b: (Seq<char>, JsonView))
    requires
        text_less(a.0, b.0),
        a.1.wf(),
        b.1.wf(),
    ensures
        JsonView::Object(seq![a, b]).wf(),
{
    let members = seq![a, b];
    assert(members[0] == a && members[1] == b);
    assert(keys_ascend(members));
    assert forall|i: int| 0 <= i < members.len() implies (#[trigger] members[i]).1.wf() by {
        assert(members[i] == a || members[i] == b);
    }
}

/// An object with three members is well-formed when their keys ascend and
/// their values are well-formed.
pub proof fn lemma_three_members_wf(
    a: (Seq<char>, JsonView),
    b: (Seq<char>, JsonView),
    c: (Seq<char>, JsonView),
)
    requires
        text_less(a.0, b.0),
        text_less(a.0, c.0),
        text_less(b.0, c.0),
        a.1.wf(),
        b.1.wf(),
        c.1.wf(),
    ensures
        JsonView::Object(seq![a, b, c]).wf(),
{
    let members = seq![a, b, c];
    assert(members[0] == a && members[1] == b && members[2] == c);
    assert(keys_ascend(members));
    assert forall|i: int| 0 <= i < members.len() implies (#[trigger] members[i]).1.wf() by {
        assert(members[i] == a || members[i] == b || members[i] == c);
    }
}

/// A lower-case hexadecimal digit.
pub open spec fn hex_digit(n: nat) -> char {
    if n < 10 {
        ((48 + n) as u8) as char
    } else {
        ((87 + n) as u8) as char
    }
}

/// A character as it stands in a JSON string literal.
pub open spec fn escaped_char(c: char) -> Seq<char> {
    if c == '"' {
        seq!['\\', '"']
    } else if c == '\\' {
        seq!['\\', '\\']
    } else if c == '\u{8}' {
        seq!['\\', 'b']
    } else if c == '\t' {
        seq!['\\', 't']
    } else if c == '\n' {
        seq!['\\', 'n']
    } else if c == '\u{c}' {
        seq!['\\', 'f']
    } else if c == '\r' {
        seq!['\\', 'r']
    } else if (c as nat) < 32 {
        seq!['\\', 'u', '0', '0', hex_digit((c as nat) / 16), hex_digit((c as nat) % 16)]
    } else {
        seq![c]
    }
}

/// A text as it stands between the quotes of a JSON string literal.
pub open spec fn escaped(text: Seq<char>) -> Seq<char>
    decreases text.len(),
{
    if text.len() == 0 {
        text
    } else {
        escaped_char(text[0]) + escaped(text.skip(1))
    }
}

/// A text as a JSON string literal.
pub open spec fn quoted(text: Seq<char>) -> Seq<char> {
    seq!['"'] + escaped(text) + seq!['"']
}

/// A JSON value in compact notation.
pub open spec fn json_text(value: JsonView) -> Seq<char>
    decreases value,
{
    match value {
        JsonView::Null => "null"@,
        JsonView::Bool(b) => if b {
            "true"@
        } else {
            "false"@
        },
        JsonView::PosInt(n) => decimal(n as nat),
        JsonView::NegInt(n) => seq!['-'] + decimal((-n) as nat),
        JsonView::Float(notation) => notation,
        JsonView::Str(text) => quoted(text),
        JsonView::Array(items) => seq!['['] + joined(
            Seq::new(
                items.len(),
                |i: int|
                    if 0 <= i < items.len() {
                        json_text(items[i])
                    } else {
                        seq![]
                    },
            ),
            seq![','],
        ) + seq![']'],
        JsonView::Object(members) => seq!['{'] + joined(
            Seq::new(
                members.len(),
                |i: int|
                    if 0 <= i < members.len() {
                        quoted(members[i].0) + seq![':'] + json_text(members[i].1)
                    } else {
                        seq![]
                    },
            ),
            seq![','],
        ) + seq!['}'],
    }
}

/// The text is the compact notation of a value that it gives back when it is
/// parsed.
pub open spec fn spells(text: Seq<char>, value: JsonView) -> bool {
    value.survives_text() && text == json_text(value)
}

/// The text is the compact notation of a value whose numbers can be read and
/// which nests no deeper than the parser goes.
pub open spec fn notes_down(text: Seq<char>, value: JsonView) -> bool {
    &&& value.wf()
    &&& value.numbers_readable()
    &&& value.nests_within(127)
    &&& text == json_text(value)
}

/// What a `serde_json::Value` holds.
pub uninterp spec fn value_tree(value: serde_json::Value) -> JsonView;

/// The outcome of parsing a text as one JSON value: the value, or the parser's
/// message.
pub uninterp spec fn json_parsed(text: Seq<char>) -> Result<JsonView, Seq<char>>;

/// One level of a `serde_json::Value`.
pub enum ValueNode {
    Null,
    Bool(bool),
    PosInt(u64),
    NegInt(i64),
    Float(JsonFloat),
    Str(String),
    Array(Vec<serde_json::Value>),
    Object(Vec<(String, serde_json::Value)>),
}

impl ValueNode {
    /// The tree below the node.
    pub open spec fn tree(self) -> JsonView {
        match self {
            ValueNode::Null => JsonView::Null,
            ValueNode::Bool(b) => JsonView::Bool(b),
            ValueNode::PosInt(n) => JsonView::PosInt(n),
            ValueNode::NegInt(n) => JsonView::NegInt(n),
            ValueNode::Float(number) => JsonView::Float(number@),
            ValueNode::Str(text) => JsonView::Str(text@),
            ValueNode::Array(items) => JsonView::Array(
                items@.map_values(|item: serde_json::Value| value_tree(item)),
            ),
            ValueNode::Object(members) => JsonView::Object(
                members@.map_values(
                    |entry: (String, serde_json::Value)| (entry.0@, value_tree(entry.1)),
                ),
            ),
        }
    }

    /// What `JsonView::wf` asks of the node itself.
    pub open spec fn wf(self) -> bool {
        match self.tree() {
            JsonView::NegInt(n) => n < 0,
            JsonView::Object(members) => keys_ascend(members),
            _ => true,
        }
    }
}

/// Takes a `serde_json::Value` apart by one level. `Number::as_u64` answers for
/// the integers from zero up, `Number::as_i64` for the integers below; what is
/// left has a fraction or an exponent, and `Number::to_string` gives its
/// notation. The map behind an object hands its members out in ascending order
/// of their keys, each key once. This is so without the crate's features
/// `preserve_order`, `arbitrary_precision` and `raw_value`, none of which is
/// switched on.
#[verifier::external_body]
fn node_of_value(value: serde_json::Value) -> (node: ValueNode)
    ensures
        node.tree() == value_tree(value),
        node.wf(),
{
    match value {
        serde_json::Value::Null => ValueNode::Null,
        serde_json::Value::Bool(b) => ValueNode::Bool(b),
        serde_json::Value::Number(number) => match (number.as_u64(), number.as_i64()) {
            (Some(n), _) => ValueNode::PosInt(n),
            (None, Some(n)) => ValueNode::NegInt(n),
            _ => ValueNode::Float(JsonFloat { notation: number.to_string(), number }),
        },
        serde_json::Value::String(text) => ValueNode::Str(text),
        serde_json::Value::Array(items) => ValueNode::Array(items),
        serde_json::Value::Object(members) => ValueNode::Object(members.into_iter().collect()),
    }
}

/// Puts a `serde_json::Value` together from one level. The members are
/// collected into the map behind an object, which keeps them when their keys
/// ascend. A `JsonFloat` comes only from `node_of_value`, with the notation of
/// its number. The order of the members rests on `preserve_order` being off.
#[verifier::external_body]
fn value_of_node(node: ValueNode) -> (value: serde_json::Value)
    requires
        node.wf(),
    ensures
        value_tree(value) == node.tree(),
{
    match node {
        ValueNode::Null => serde_json::Value::Null,
        ValueNode::Bool(b) => serde_json::Value::Bool(b),
        ValueNode::PosInt(n) => serde_json::Value::from(n),
        ValueNode::NegInt(n) => serde_json::Value::from(n),
        ValueNode::Float(float) => serde_json::Value::Number(float.number),
        ValueNode::Str(text) => serde_json::Value::String(text),
        ValueNode::Array(items) => serde_json::Value::Array(items),
        ValueNode::Object(members) => serde_json::Value::Object(members.into_iter().collect()),
    }
}

/// Calls `Value::to_string`, which writes a value in compact JSON notation: no
/// blanks, the members of an object in the order of its map, strings escaped
/// where JSON asks for it and nowhere else. That the order of the map is the
/// ascending one, and that a number has the notation of its kind, rests on the
/// features `preserve_order` and `arbitrary_precision` being off.
#[verifier::external_body]
fn text_of_value(value: &serde_json::Value) -> (text: String)
    ensures
        text@ == json_text(value_tree(*value)),
{
    value.to_string()
}

/// Calls `serde_json::from_str`. Its outcome is a function of the text, named
/// `json_parsed`. The compact notation of a value, if it nests no deeper than
/// the parser's limit, is parsed back to that value, with each number that has
/// a fraction or an exponent as it is parsed from its own notation: without the
/// feature `float_roundtrip` the parser may miss the last bit of such a number.
/// With `arbitrary_precision` or `raw_value` numbers and some objects would be
/// read otherwise; neither is switched on.
#[verifier::external_body]
fn value_of_text(text: &str) -> (outcome: Result<serde_json::Value, String>)
    ensures
        match outcome {
            Ok(value) => json_parsed(text@) == Ok::<JsonView, Seq<char>>(value_tree(value)),
            Err(message) => json_parsed(text@) == Err::<JsonView, Seq<char>>(message@),
        },
        forall|tree: JsonView| #[trigger]
            notes_down(text@, tree) ==> outcome is Ok && value_tree(outcome->Ok_0)
                == tree.read_back(),
{
    serde_json::from_str(text).map_err(|error| error.to_string())
}

/// The JSON value that a `serde_json::Value` holds.
pub fn json_of_value(value: serde_json::Value) -> (json: Json)
    ensures
        json@ == value_tree(value),
        json@.wf(),
    decreases value_tree(value),
{
    let ghost tree = value_tree(value);
    match node_of_value(value) {
        ValueNode::Null => Json::Null,
        ValueNode::Bool(b) => Json::Bool(b),
        ValueNode::PosInt(n) => Json::PosInt(n),
        ValueNode::NegInt(n) => Json::NegInt(n),
        ValueNode::Float(number) => Json::Float(number),
        ValueNode::Str(text) => Json::Str(text),
        ValueNode::Array(items) => {
            let ghost trees = tree->Array_0;
            let mut list: Vec<Json> = Vec::new();
            for item in it: items
                invariant
                    it.seq() == items@,
                    tree == value_tree(value),
                    tree == JsonView::Array(trees),
                    trees == items@.map_values(|item: serde_json::Value| value_tree(item)),
                    list@.len() == it.index(),
                    forall|i: int| 0 <= i < list@.len() ==> (#[trigger] list@[i])@ == trees[i],
                    forall|i: int| 0 <= i < list@.len() ==> (#[trigger] trees[i]).wf(),
            {
                assert(value_tree(item) == trees[it.index() as int]);
                assert(decreases_to!(tree => tree->Array_0));
                assert(decreases_to!(trees => trees[it.index() as int]));
                list.push(json_of_value(item));
            }
            let json = Json::Array(list);
            assert(json@->Array_0 == trees);
            json
        },
        ValueNode::Object(members) => {
            let ghost trees = tree->Object_0;
            let mut list: Vec<(String, Json)> = Vec::new();
            for entry in it: members
                invariant
                    it.seq() == members@,
                    tree == value_tree(value),
                    tree == JsonView::Object(trees),
                    trees == members@.map_values(
                        |entry: (String, serde_json::Value)| (entry.0@, value_tree(entry.1)),
                    ),
                    list@.len() == it.index(),
                    forall|i: int|
                        0 <= i < list@.len() ==> (#[trigger] list@[i]).0@ == trees[i].0
                            && list@[i].1@ == trees[i].1,
                    forall|i: int| 0 <= i < list@.len() ==> (#[trigger] trees[i]).1.wf(),
            {
                assert(trees[it.index() as int] == (entry.0@, value_tree(entry.1)));
                assert(decreases_to!(tree => tree->Object_0));
                assert(decreases_to!(trees => trees[it.index() as int]));
                assert(decreases_to!(trees[it.index() as int] => trees[it.index() as int].1));
                list.push((entry.0, json_of_value(entry.1)));
            }
            let json = Json::Object(list);
            assert(json@->Object_0 == trees);
            json
        },
    }
}

/// The `serde_json::Value` that holds a JSON value.
pub fn value_of_json(json: Json) -> (value: serde_json::Value)
    requires
        json@.wf(),
    ensures
        value_tree(value) == json@,
    decreases json,
{
    match json {
        Json::Null => value_of_node(ValueNode::Null),
        Json::Bool(b) => value_of_node(ValueNode::Bool(b)),
        Json::PosInt(n) => value_of_node(ValueNode::PosInt(n)),
        Json::NegInt(n) => value_of_node(ValueNode::NegInt(n)),
        Json::Float(number) => value_of_node(ValueNode::Float(number)),
        Json::Str(text) => value_of_node(ValueNode::Str(text)),
        Json::Array(items) => {
            let ghost trees = item_views(items@);
            proof {
                lemma_array_view(items);
                lemma_items_wf(trees);
            }
            let mut list: Vec<serde_json::Value> = Vec::new();
            for item in it: items
                invariant
                    it.seq() == items@,
                    json == Json::Array(items),
                    forall|i: int| 0 <= i < trees.len() ==> (#[trigger] trees[i]).wf(),
                    trees == item_views(items@),
                    list@.len() == it.index(),
                    forall|i: int|
                        0 <= i < list@.len() ==> value_tree(#[trigger] list@[i]) == trees[i],
            {
                assert(trees[it.index() as int].wf());
                assert(decreases_to!(json => json->Array_0));
                list.push(value_of_json(item));
            }
            let node = ValueNode::Array(list);
            assert(node.tree()->Array_0 == trees);
            value_of_node(node)
        },
        Json::Object(members) => {
            let ghost trees = member_views(members@);
            proof {
                lemma_object_view(members);
            }
            let mut list: Vec<(String, serde_json::Value)> = Vec::new();
            for entry in it: members
                invariant
                    it.seq() == members@,
                    json == Json::Object(members),
                    keys_ascend(trees),
                    forall|i: int| 0 <= i < trees.len() ==> (#[trigger] trees[i]).1.wf(),
                    trees == member_views(members@),
                    list@.len() == it.index(),
                    forall|i: int|
                        0 <= i < list@.len() ==> (#[trigger] list@[i]).0@ == trees[i].0
                            && value_tree(list@[i].1) == trees[i].1,
            {
                assert(trees[it.index() as int] == (entry.0@, entry.1@));
                assert(decreases_to!(json => json->Object_0));
                assert(decreases_to!(members => members[it.index() as int]));
                assert(decreases_to!(entry => entry.1));
                list.push((entry.0, value_of_json(entry.1)));
            }
            let node = ValueNode::Object(list);
            assert(node.tree()->Object_0 == trees);
            value_of_node(node)
        },
    }
}

/// A JSON value in compact notation.
pub fn json_to_text(json: Json) -> (text: String)
    requires
        json@.wf(),
    ensures
        text@ == json_text(json@),
{
    text_of_value(&value_of_json(json))
}

/// A text as a JSON string literal.
pub fn string_literal(text: &str) -> (literal: String)
    ensures
        literal@ == quoted(text@),
{
    json_to_text(Json::Str(text.to_owned()))
}

/// The view of a value or of the message that stands in its place.
pub open spec fn json_outcome(outcome: Result<Json, String>) -> Result<JsonView, Seq<char>> {
    match outcome {
        Ok(json) => Ok(json@),
        Err(message) => Err(message@),
    }
}

/// Parses a text as one JSON value. The compact notation of a value is parsed
/// back to that value, but for the last bit of numbers with a fraction or an
/// exponent.
pub fn parse_json(text: &str) -> (outcome: Result<Json, String>)
    ensures
        json_outcome(outcome) == json_parsed(text@),
        outcome is Ok ==> outcome->Ok_0@.wf(),
        forall|tree: JsonView| #[trigger]
            spells(text@, tree) ==> json_outcome(outcome) == Ok::<JsonView, Seq<char>>(tree),
        forall|tree: JsonView| #[trigger]
            notes_down(text@, tree) ==> json_outcome(outcome) == Ok::<JsonView, Seq<char>>(
                tree.read_back(),
            ),
{
    proof {
        assert forall|tree: JsonView| #[trigger] spells(text@, tree) implies notes_down(text@, tree)
            && tree.read_back() == tree by {
            lemma_lasting_value(tree);
        }
    }
    match value_of_text(text) {
        Ok(value) => Ok(json_of_value(value)),
        Err(message) => Err(message),
    }
}

impl Json {
    /// The member of an object with the given key.
    pub fn get(&self, key: &str) -> (value: Option<&Json>)
        ensures
            match value {
                Some(value) => self@.get(key@) == Some(value@),
                None => self@.get(key@) is None,
            },
    {
        match self {
            Json::Object(members) => {
                let ghost trees = member_views(members@);
                proof {
                    lemma_object_view(*members);
                }
                let mut i: usize = 0;
                assert(trees.skip(0) == trees);
                while i < members.len()
                    invariant
                        i <= members@.len(),
                        trees == member_views(members@),
                        self@ == JsonView::Object(trees),
                        member(trees, key@) == member(trees.skip(i as int), key@),
                    decreases members@.len() - i,
                {
                    assert(trees.skip(i as int)[0] == trees[i as int]);
                    assert(trees.skip(i as int).skip(1) == trees.skip(i + 1));
                    if crate::text::same_text(members[i].0.as_str(), key) {
                        return Some(&members[i].1);
                    }
                    i += 1;
                }
                None
            },
            _ => None,
        }
    }

    /// The content of a string.
    pub fn as_str(&self) -> (text: Option<&str>)
        ensures
            optional_str(text) == self@.as_str(),
    {
        match self {
            Json::Str(text) => Some(text.as_str()),
            _ => None,
        }
    }

    /// The value of an integer that is not negative.
    pub fn as_u64(&self) -> (value: Option<u64>)
        ensures
            value == self@.as_u64(),
    {
        match self {
            Json::PosInt(n) => Some(*n),
            _ => None,
        }
    }

    /// The value of a boolean.
    pub fn as_bool(&self) -> (value: Option<bool>)
        ensures
            value == self@.as_bool(),
    {
        match self {
            Json::Bool(b) => Some(*b),
            _ => None,
        }
    }

    /// The string member of an object with the given key.
    pub fn get_str(&self, key: &str) -> (text: Option<&str>)
        ensures
            optional_str(text) == self@.get_str(key@),
    {
        match self.get(key) {
            Some(value) => value.as_str(),
            None => None,
        }
    }

    /// Takes the member with the given key out of an object.
    pub fn into_member(self, key: &str) -> (value: Option<Json>)
        ensures
            match value {
                Some(value) => self@.get(key@) == Some(value@) && (self@.wf() ==> value@.wf()),
                None => self@.get(key@) is None,
            },
    {
        let ghost whole = self@;
        match self {
            Json::Object(members) => {
                let ghost trees = member_views(members@);
                proof {
                    lemma_object_view(members);
                }
                assert(trees.skip(0) == trees);
                for entry in it: members
                    invariant
                        it.seq() == members@,
                        trees == member_views(members@),
                        whole == self@,
                        whole == JsonView::Object(trees),
                        member(trees, key@) == member(trees.skip(it.index() as int), key@),
                {
                    proof {
                        let i = it.index() as int;
                        assert(trees.skip(i)[0] == trees[i]);
                        assert(trees.skip(i).skip(1) == trees.skip(i + 1));
                    }
                    if crate::text::same_text(entry.0.as_str(), key) {
                        return Some(entry.1);
                    }
                }
                None
            },
            _ => None,
        }
    }
}

impl Json {
    /// Takes the members with two different keys out of an object.
    pub fn into_two_members(self, first: &str, second: &str) -> (values: (
        Option<Json>,
        Option<Json>,
    ))
        requires
            first@ != second@,
        ensures
            match values.0 {
                Some(value) => self@.get(first@) == Some(value@) && (self@.wf() ==> value@.wf()),
                None => self@.get(first@) is None,
            },
            match values.1 {
                Some(value) => self@.get(second@) == Some(value@) && (self@.wf() ==> value@.wf()),
                None => self@.get(second@) is None,
            },
    {
        let ghost whole = self@;
        let mut a: Option<Json> = None;
        let mut b: Option<Json> = None;
        match self {
            Json::Object(members) => {
                let ghost trees = member_views(members@);
                proof {
                    lemma_object_view(members);
                }
                assert(trees.skip(0) == trees);
                for entry in it: members
                    invariant
                        it.seq() == members@,
                        first@ != second@,
                        trees == member_views(members@),
                        whole == JsonView::Object(trees),
                        match a {
                            Some(value) => member(trees, first@) == Some(value@) && (whole.wf()
                                ==> value@.wf()),
                            None => member(trees, first@) == member(
                                trees.skip(it.index() as int),
                                first@,
                            ),
                        },
                        match b {
                            Some(value) => member(trees, second@) == Some(value@) && (whole.wf()
                                ==> value@.wf()),
                            None => member(trees, second@) == member(
                                trees.skip(it.index() as int),
                                second@,
                            ),
                        },
                {
                    proof {
                        let i = it.index() as int;
                        assert(trees.skip(i)[0] == trees[i]);
                        assert(trees.skip(i).skip(1) == trees.skip(i + 1));
                    }
                    if a.is_none() && crate::text::same_text(entry.0.as_str(), first) {
                        a = Some(entry.1);
                    } else if b.is_none() && crate::text::same_text(entry.0.as_str(), second) {
                        b = Some(entry.1);
                    }
                }
            },
            _ => {},
        }
        (a, b)
    }
}

/// An object without members.
pub fn empty_object() -> (json: Json)
    ensures
        json@ == JsonView::Object(seq![]),
        json@.survives_text(),
{
    let members: Vec<(String, Json)> = Vec::new();
    proof {
        lemma_object_view(members);
        assert(member_views(members@) == Seq::<(Seq<char>, JsonView)>::empty());
    }
    Json::Object(members)
}

/// An object with one member.
pub fn object_of_one(key: &str, value: Json) -> (json: Json)
    ensures
        json@ == JsonView::Object(seq![(key@, value@)]),
{
    let mut members: Vec<(String, Json)> = Vec::new();
    members.push((key.to_owned(), value));
    proof {
        lemma_object_view(members);
        assert(member_views(members@) == seq![(key@, value@)]);
    }
    Json::Object(members)
}

/// An object with two members.
pub fn object_of_two(first: (&str, Json), second: (&str, Json)) -> (json: Json)
    ensures
        json@ == JsonView::Object(seq![(first.0@, first.1@), (second.0@, second.1@)]),
{
    let mut members: Vec<(String, Json)> = Vec::new();
    members.push((first.0.to_owned(), first.1));
    members.push((second.0.to_owned(), second.1));
    proof {
        lemma_object_view(members);
        assert(member_views(members@) == seq![(first.0@, first.1@), (second.0@, second.1@)]);
    }
    Json::Object(members)
}

/// An object with three members.
pub fn object_of_three(first: (&str, Json), second: (&str, Json), third: (&str, Json)) -> (json:
    Json)
    ensures
        json@ == JsonView::Object(
            seq![(first.0@, first.1@), (second.0@, second.1@), (third.0@, third.1@)],
        ),
{
    let mut members: Vec<(String, Json)> = Vec::new();
    members.push((first.0.to_owned(), first.1));
    members.push((second.0.to_owned(), second.1));
    members.push((third.0.to_owned(), third.1));
    proof {
        lemma_object_view(members);
        assert(member_views(members@) == seq![
            (first.0@, first.1@),
            (second.0@, second.1@),
            (third.0@, third.1@),
        ]);
    }
    Json::Object(members)
}

/// An array of strings.
pub fn array_of_strings(items: Vec<String>) -> (json: Json)
    ensures
        json@ == string_array(texts(items@)),
        json@.wf(),
{
    let mut list: Vec<Json> = Vec::new();
    for item in it: items
        invariant
            it.seq() == items@,
            list@.len() == it.index(),
            forall|i: int|
                0 <= i < list@.len() ==> (#[trigger] list@[i])@ == JsonView::Str(items@[i]@),
    {
        list.push(Json::Str(item));
    }
    proof {
        lemma_array_view(list);
        assert(item_views(list@) == string_array(texts(items@))->Array_0);
        lemma_string_array_wf(texts(items@));
    }
    Json::Array(list)
}

/// No text comes before itself.
proof fn lemma_not_before_itself(text: Seq<char>)
    ensures
        !text_less(text, text),
    decreases text.len(),
{
    if text.len() > 0 {
        lemma_not_before_itself(text.skip(1));
    }
}

/// Every member of an object is found under its key, and nothing is found that
/// is no member.
pub proof fn law_members_are_found(members: Seq<(Seq<char>, JsonView)>)
    requires
        keys_ascend(members),
    ensures
        forall|i: int|
            0 <= i < members.len() ==> JsonView::Object(members).get(#[trigger] members[i].0)
                == Some(members[i].1),
        forall|key: Seq<char>|
            (#[trigger] JsonView::Object(members).get(key)) is Some ==> exists|i: int|
                0 <= i < members.len() && members[i] == (
                    key,
                    JsonView::Object(members).get(key)->Some_0,
                ),
    decreases members.len(),
{
    if members.len() > 0 {
        let rest = members.skip(1);
        assert(keys_ascend(rest)) by {
            assert forall|i: int, j: int| 0 <= i < j < rest.len() implies text_less(
                #[trigger] rest[i].0,
                #[trigger] rest[j].0,
            ) by {
                assert(rest[i] == members[i + 1] && rest[j] == members[j + 1]);
            }
        }
        law_members_are_found(rest);
        assert forall|i: int| 0 <= i < members.len() implies JsonView::Object(members).get(
            #[trigger] members[i].0,
        ) == Some(members[i].1) by {
            if i > 0 {
                assert(text_less(members[0].0, members[i].0));
                lemma_not_before_itself(members[i].0);
                assert(rest[i - 1] == members[i]);
                assert(JsonView::Object(rest).get(rest[i - 1].0) == Some(rest[i - 1].1));
            }
        }
        assert forall|key: Seq<char>|
            (#[trigger] JsonView::Object(members).get(key)) is Some implies exists|i: int|
            0 <= i < members.len() && members[i] == (
                key,
                JsonView::Object(members).get(key)->Some_0,
            ) by {
            let value = JsonView::Object(members).get(key)->Some_0;
            if members[0].0 != key {
                assert(JsonView::Object(rest).get(key) == Some(value));
                let i = choose|i: int| 0 <= i < rest.len() && rest[i] == (key, value);
                assert(members[i + 1] == (key, value));
            } else {
                assert(members[0] == (key, value));
            }
        }
    }
}

/// Only an object has members, only a string is text, only an integer from zero
/// up is a number to count with, only a boolean is a choice.
pub proof fn law_values_are_what_they_are(value: JsonView, key: Seq<char>)
    ensures
        value.get(key) is Some ==> value is Object,
        value.as_str() matches Some(text) ==> value == JsonView::Str(text),
        value.as_u64() matches Some(n) ==> value == JsonView::PosInt(n),
        value.as_bool() matches Some(b) ==> value == JsonView::Bool(b),
        value.get_str(key) matches Some(text) ==> value.get(key) == Some(JsonView::Str(text)),
        value is Str ==> value.as_str() is Some,
        value is PosInt ==> value.as_u64() is Some,
        value is Bool ==> value.as_bool() is Some,
        forall|text: Seq<char>|
            value.get(key) == Some(JsonView::Str(text)) ==> value.get_str(key) == Some(text),
{
}

} // verus!
