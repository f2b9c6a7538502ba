use sbalite::json::{insert_entry, merge_entries, parse_json, remove_entry, Json, Number};

fn json(text: &str) -> Json {
    parse_json(text.as_bytes()).unwrap()
}

#[test]
fn json_text_is_read_kind_by_kind() {
    assert!(matches!(json("null"), Json::Null));
    assert!(matches!(json("true"), Json::Bool(true)));
    assert!(matches!(json("17"), Json::Number(Number::Unsigned(17))));
    assert!(matches!(json("-3"), Json::Number(Number::Negative(-3))));
    match json("1.50") {
        Json::Number(Number::Float(text)) => assert_eq!(text, "1.5"),
        other => panic!("unexpected {other:?}"),
    }
    assert_eq!(json("\"a\\u0062\"").as_text(), Some("ab"));
    match json("[1, [2]]") {
        Json::Array(items) => assert_eq!(items.len(), 2),
        other => panic!("unexpected {other:?}"),
    }
}

#[test]
fn what_is_no_json_is_not_read() {
    for text in ["", "{", "{]", "nul", "{} {}", "<html></html>", "'a'"] {
        assert!(parse_json(text.as_bytes()).is_none());
    }
    assert!(parse_json(&[b'"', 0xff, b'"']).is_none());
}

#[test]
fn fields_come_in_the_order_of_their_keys() {
    match json(r#"{"b": 1, "a": 2, "ab": 3, "B": 4}"#) {
        Json::Object(entries) => {
            let keys: Vec<&str> = entries.iter().map(|e| e.0.as_str()).collect();
            assert_eq!(keys, vec!["B", "a", "ab", "b"]);
        }
        other => panic!("unexpected {other:?}"),
    }
}

#[test]
fn the_last_of_two_equal_keys_counts() {
    let value = json(r#"{"a": "first", "a": "second"}"#);
    assert_eq!(value.get("a").unwrap().as_text(), Some("second"));
}

#[test]
fn fields_are_found_inserted_and_removed() {
    let value = json(r#"{"status": "UP", "n": 1}"#);
    assert_eq!(value.get("status").unwrap().as_text(), Some("UP"));
    assert!(value.get("missing").is_none());
    assert!(json("[]").get("status").is_none());
    let mut entries = match value {
        Json::Object(entries) => entries,
        other => panic!("unexpected {other:?}"),
    };
    insert_entry(&mut entries, "m".to_string(), Json::Null);
    insert_entry(&mut entries, "n".to_string(), Json::Bool(true));
    assert!(remove_entry(&mut entries, "status").is_some());
    assert!(remove_entry(&mut entries, "status").is_none());
    assert!(Json::Object(entries).same(&json(r#"{"m": null, "n": true}"#)));
}

#[test]
fn merged_entries_replace_those_under_the_same_key() {
    let (mut left, right) = match (json(r#"{"a": 1, "b": 2}"#), json(r#"{"b": 3, "c": 4}"#)) {
        (Json::Object(left), Json::Object(right)) => (left, right),
        other => panic!("unexpected {other:?}"),
    };
    merge_entries(&mut left, right);
    assert!(Json::Object(left).same(&json(r#"{"a": 1, "b": 3, "c": 4}"#)));
}

#[test]
fn equality_looks_at_contents() {
    let value = json(r#"{"a": [1, 2.5, {"b": "x"}], "c": null}"#);
    assert!(value.same(&value.clone()));
    assert!(value.same(&json(r#"{"c": null, "a": [1, 2.5, {"b": "x"}]}"#)));
    assert!(!value.same(&json(r#"{"a": [1, 2.5, {"b": "y"}], "c": null}"#)));
    assert!(!value.same(&json(r#"{"a": [1, 2.5], "c": null}"#)));
    assert!(!value.same(&json(r#"{"a": [1, 2.5, {"b": "x"}]}"#)));
    assert!(!json("1").same(&json("1.0")));
    assert!(!json("1").same(&json("-1")));
    assert!(!json("null").same(&json("false")));
    assert!(json("0.0").same(&json("-0.0")));
    assert!(!json("0").same(&json("-0.0")));
    assert!(!json("{}").same(&json("[]")));
}

#[test]
fn equality_is_that_of_the_parser() {
    let texts = [
        "null", "true", "0", "-0", "0.0", "-0.0", "1", "1.0", "1e0", "10e-1", "-1", "\"1\"",
        "[]", "[0]", "[0.0]", "[-0.0]", "{}", r#"{"a":0.0}"#, r#"{"a":-0.0}"#, r#"{"b":0.0}"#,
        "18446744073709551615", "18446744073709551616", "-9223372036854775808",
    ];
    for a in texts {
        for b in texts {
            let left: serde_json::Value = serde_json::from_str(a).unwrap();
            let right: serde_json::Value = serde_json::from_str(b).unwrap();
            assert_eq!(json(a).same(&json(b)), left == right);
        }
    }
}
