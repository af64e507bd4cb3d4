use couch_rs::json::{JsonNumber, JsonValue};

fn obj(pairs: Vec<(&str, JsonValue)>) -> JsonValue {
    JsonValue::Object(pairs.into_iter().map(|(k, v)| (k.to_string(), v)).collect())
}

fn text(s: &str) -> JsonValue {
    JsonValue::Text(s.to_string())
}

#[test]
fn scalars_render_canonically() {
    assert_eq!(JsonValue::Null.to_string(), "null");
    assert_eq!(JsonValue::Bool(true).to_string(), "true");
    assert_eq!(JsonValue::Bool(false).to_string(), "false");
    assert_eq!(JsonValue::Number(JsonNumber::from_u64(0)).to_string(), "0");
    assert_eq!(
        JsonValue::Number(JsonNumber::from_u64(1234567890)).to_string(),
        "1234567890"
    );
    assert_eq!(JsonValue::Number(JsonNumber::from_i64(-42)).to_string(), "-42");
    assert_eq!(
        JsonValue::Number(JsonNumber::from_i64(i64::MIN)).to_string(),
        "-9223372036854775808"
    );
    assert_eq!(text("hello").to_string(), r#""hello""#);
}

#[test]
fn strings_escape_quotes_and_control_characters() {
    assert_eq!(text(r#"say "hi""#).to_string(), r#""say \"hi\"""#);
    assert_eq!(text(r"a\b").to_string(), r#""a\\b""#);
    assert_eq!(text("line\nbreak").to_string(), r#""line\u000abreak""#);
}

#[test]
fn composites_render_without_spaces() {
    let value = obj(vec![
        ("list", JsonValue::Array(vec![JsonValue::Null, JsonValue::Bool(true), text("x")])),
        ("empty", JsonValue::Array(vec![])),
        ("nested", obj(vec![("k", JsonValue::Number(JsonNumber::from_u64(7)))])),
        ("none", obj(vec![])),
    ]);
    assert_eq!(
        value.to_string(),
        r#"{"list":[null,true,"x"],"empty":[],"nested":{"k":7},"none":{}}"#
    );
}

#[test]
fn deep_clone_is_structurally_equal() {
    let value = obj(vec![
        ("a", JsonValue::Array(vec![text("x"), JsonValue::Null])),
        ("b", obj(vec![("c", JsonValue::Bool(false))])),
    ]);
    assert_eq!(value.deep_clone(), value);
}
