use couch_rs::json::{JsonNumber, JsonValue};
use couch_rs::types::view::{decode_view_response, CouchFunc, CouchUpdate, CouchViews, ViewCollection};

fn obj(pairs: Vec<(&str, JsonValue)>) -> JsonValue {
    JsonValue::Object(pairs.into_iter().map(|(k, v)| (k.to_string(), v)).collect())
}

fn text(s: &str) -> JsonValue {
    JsonValue::Text(s.to_string())
}

fn num(n: u64) -> JsonValue {
    JsonValue::Number(JsonNumber {
        negative: false,
        magnitude: n,
    })
}

fn null_value_rows() -> JsonValue {
    obj(vec![
        ("total_rows", num(2)),
        ("offset", num(0)),
        (
            "rows",
            JsonValue::Array(vec![
                obj(vec![("key", text("aaa")), ("value", JsonValue::Null), ("id", text("aaa"))]),
                obj(vec![("key", text("bbb")), ("value", JsonValue::Null), ("id", text("bbb"))]),
            ]),
        ),
    ])
}

#[test]
fn null_values_decode_permissively_and_fail_strictly() {
    // The same response: a null value position decodes into the
    // permissive value type and is refused by the strict text type.
    let permissive: Result<ViewCollection<String, JsonValue, JsonValue>, _> =
        decode_view_response(200, null_value_rows());
    let collection = permissive.unwrap();
    assert_eq!(collection.rows.len(), 2);
    assert_eq!(collection.rows[0].key, "aaa");
    assert_eq!(collection.rows[0].value, JsonValue::Null);

    let strict: Result<ViewCollection<String, String, JsonValue>, _> =
        decode_view_response(200, null_value_rows());
    assert!(strict.is_err());
}

#[test]
fn absent_value_positions_read_as_null() {
    let body = obj(vec![(
        "rows",
        JsonValue::Array(vec![obj(vec![("key", JsonValue::Null), ("value", num(14))])]),
    )]);
    let decoded: ViewCollection<JsonValue, JsonValue, JsonValue> =
        decode_view_response(200, body).unwrap();
    assert_eq!(decoded.rows.len(), 1);
    // A reduce row has a null key and no id or doc.
    assert_eq!(decoded.rows[0].key, JsonValue::Null);
    assert_eq!(decoded.rows[0].value, num(14));
    assert_eq!(decoded.rows[0].id, None);
    assert!(decoded.rows[0].doc.is_none());
    assert_eq!(decoded.total_rows, None);
    assert_eq!(decoded.offset, None);
}

#[test]
fn included_documents_decode_strictly() {
    let body = obj(vec![
        ("total_rows", num(1)),
        ("offset", num(0)),
        (
            "rows",
            JsonValue::Array(vec![obj(vec![
                ("key", text("a")),
                ("value", JsonValue::Null),
                ("id", text("a")),
                ("doc", obj(vec![("_id", text("a")), ("_rev", text("1-r"))])),
            ])]),
        ),
    ]);
    let decoded: ViewCollection<String, JsonValue, JsonValue> =
        decode_view_response(200, body).unwrap();
    assert_eq!(decoded.total_rows, Some(1));
    assert_eq!(decoded.offset, Some(0));
    let doc = decoded.rows[0].doc.as_ref().unwrap();
    assert_eq!(doc, &obj(vec![("_id", text("a")), ("_rev", text("1-r"))]));
}

#[test]
fn a_failed_view_query_reports_its_status() {
    let body = obj(vec![("error", text("not_found")), ("reason", text("missing_named_view"))]);
    let decoded: Result<ViewCollection<String, JsonValue, JsonValue>, _> =
        decode_view_response(404, body);
    let err = decoded.unwrap_err();
    assert_eq!(err.status(), Some(404));
    assert!(err.is_not_found());
}

#[test]
fn couch_views_holds_named_functions() {
    let func = CouchFunc::new(
        "function (doc) { if (doc.CLIP == true) { emit(doc.CLIP); } }",
        None,
    );
    assert_eq!(func.map, "function (doc) { if (doc.CLIP == true) { emit(doc.CLIP); } }");
    assert_eq!(func.reduce, None);
    let reduced = CouchFunc::new("function (doc) { emit(doc._id, null); }", Some("_count"));
    assert_eq!(reduced.reduce, Some("_count".to_string()));
    let mut views = CouchViews::new("by_clip", func);
    views.add("counted", reduced);
    let _ = views;
}

#[test]
fn couch_update_holds_named_handlers() {
    let mut update = CouchUpdate::new("touch", "function (doc, req) { return [doc, 'ok']; }");
    update.add("stamp", "function (doc, req) { return [doc, 'stamped']; }");
    let _ = update;
}

#[test]
fn numeric_reduce_values_decode_into_integers() {
    // A count reducer emits a null key and a numeric value.
    let body = obj(vec![(
        "rows",
        JsonValue::Array(vec![obj(vec![("key", JsonValue::Null), ("value", num(2001))])]),
    )]);
    let decoded: ViewCollection<JsonValue, u64, JsonValue> =
        decode_view_response(200, body).unwrap();
    assert_eq!(decoded.rows[0].value, 2001);
}
