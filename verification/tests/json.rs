use rove_plugins::json::{
    array_of_strings, empty_object, json_of_value, json_to_text, object_of_one, object_of_three,
    object_of_two, parse_json, string_literal, value_of_json, Json,
};
use rove_plugins::text::{contains, decimal_text, replace, starts_with, to_lower, trim_end};

#[test]
fn compact_text_is_read_back() {
    for text in [
        "null",
        "true",
        "0",
        "18446744073709551615",
        "-9223372036854775808",
        r#""\"\\\b\f\n\r\t\u0001é""#,
        r#"{"a":[1,-2,"x",null],"b":{"":false}}"#,
        "[]",
        "{}",
    ] {
        assert_eq!(json_to_text(parse_json(text).unwrap()), text);
    }
}

#[test]
fn members_are_put_in_order() {
    assert_eq!(
        json_to_text(parse_json(r#" { "b" : 1 , "a" : 1.50, "B": 2 } "#).unwrap()),
        r#"{"B":2,"a":1.5,"b":1}"#
    );
}

#[test]
fn texts_that_are_no_json_are_refused() {
    assert_eq!(
        parse_json("{"),
        Err("EOF while parsing an object at line 1 column 1".to_string())
    );
    assert_eq!(
        parse_json("1 2"),
        Err("trailing characters at line 1 column 3".to_string())
    );
}

#[test]
fn a_value_of_the_parser_is_taken_over() {
    let value = serde_json::Value::Array(vec![
        serde_json::Value::Bool(true),
        serde_json::Value::from(7u64),
        serde_json::Value::from(-7i64),
        serde_json::Value::from(0.5f64),
        serde_json::Value::String("x".to_string()),
    ]);
    match json_of_value(value) {
        Json::Array(items) => {
            assert_eq!(items[0], Json::Bool(true));
            assert_eq!(items[1], Json::PosInt(7));
            assert_eq!(items[2], Json::NegInt(-7));
            assert!(matches!(items[3], Json::Float(_)));
            assert_eq!(items[4], Json::Str("x".to_string()));
        }
        other => panic!("{:?}", other),
    }
}

#[test]
fn members_are_found() {
    let json = parse_json(r#"{"a": "x", "b": 3, "c": true, "d": null}"#).unwrap();
    assert_eq!(json.get_str("a"), Some("x"));
    assert_eq!(json.get_str("b"), None);
    assert_eq!(json.get("b").unwrap().as_u64(), Some(3));
    assert_eq!(json.get("c").unwrap().as_bool(), Some(true));
    assert_eq!(json.get("d"), Some(&Json::Null));
    assert_eq!(json.get("e"), None);
    assert_eq!(Json::Null.get("a"), None);
    let (c, e) = json.into_two_members("c", "e");
    assert_eq!(c, Some(Json::Bool(true)));
    assert_eq!(e, None);
}

#[test]
fn objects_are_built() {
    assert_eq!(json_to_text(empty_object()), "{}");
    assert_eq!(json_to_text(object_of_one("a", Json::Null)), r#"{"a":null}"#);
    assert_eq!(
        json_to_text(object_of_two(("a", Json::Null), ("b", Json::Bool(false)))),
        r#"{"a":null,"b":false}"#
    );
    assert_eq!(
        json_to_text(object_of_three(
            ("a", Json::Null),
            ("b", Json::PosInt(1)),
            ("c", Json::NegInt(-1))
        )),
        r#"{"a":null,"b":1,"c":-1}"#
    );
    assert_eq!(
        json_to_text(array_of_strings(vec!["x".to_string(), "y".to_string()])),
        r#"["x","y"]"#
    );
}

#[test]
fn literals_escape_what_would_end_them() {
    assert_eq!(string_literal("a[name=\"x\"]"), r#""a[name=\"x\"]""#);
    assert_eq!(string_literal("\\\n\u{1f}é"), "\"\\\\\\n\\u001fé\"");
}

#[test]
fn texts_are_searched_and_changed() {
    assert!(contains("first name", "t n"));
    assert!(contains("x", ""));
    assert!(!contains("name", "names"));
    assert!(starts_with("ws://x", "ws://"));
    assert!(!starts_with("ws:/", "ws://"));
    assert_eq!(replace("aaab", "aa", "c"), "cab");
    assert_eq!(replace("it's", "'", "\\'"), "it\\'s");
    assert_eq!(trim_end("a//b///", '/'), "a//b");
    assert_eq!(trim_end("///", '/'), "");
    assert_eq!(decimal_text(0), "0");
    assert_eq!(decimal_text(18446744073709551615), "18446744073709551615");
    assert_eq!(to_lower("Straße ÀB1"), "straße àb1");
    assert_eq!(to_lower("E-Mail_Z9"), "e-mail_z9");
}

#[test]
fn different_texts_have_different_literals() {
    assert_ne!(string_literal("a\""), string_literal("a\\\""));
    assert_ne!(string_literal("\n"), string_literal("\\n"));
}

#[test]
fn a_value_is_handed_back_to_the_parser() {
    let json = parse_json(r#"{"a":[1.5,-2],"b":null}"#).unwrap();
    let value = value_of_json(json);
    assert_eq!(value["a"][0].as_f64(), Some(1.5));
    assert_eq!(value["a"][1].as_i64(), Some(-2));
    assert!(value["b"].is_null());
}
