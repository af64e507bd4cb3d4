use couch_rs::json::{JsonNumber, JsonValue};
use couch_rs::types::find::{
    FindQuery, IndexSpec, NotEqual, SelectAll, SortDirection, SortSpec, SortSpecContent,
};

fn obj(pairs: Vec<(&str, JsonValue)>) -> JsonValue {
    JsonValue::Object(pairs.into_iter().map(|(k, v)| (k.to_string(), v)).collect())
}

fn text(s: &str) -> JsonValue {
    JsonValue::Text(s.to_string())
}

fn num(n: u64) -> JsonValue {
    JsonValue::Number(JsonNumber {
        negative: false,
        magnitude: n,
    })
}

#[test]
fn test_convert_to_value() {
    let mut sort = SortSpecContent::new();
    sort.insert("first_name", SortDirection::Desc);

    let mut query = FindQuery::find_all();
    query.limit = Some(10);
    query.skip = Some(20);
    query.sort = vec![SortSpec::Complex(sort)];
    let json = query.to_string();
    assert_eq!(
        r#"{"limit":10,"selector":{"_id":{"$ne":null}},"skip":20,"sort":[{"first_name":"desc"}]}"#,
        json
    );
}

#[test]
fn test_default_select_all() {
    let selector = FindQuery::find_all().as_value().to_string();
    assert_eq!(selector, r#"{"selector":{"_id":{"$ne":null}}}"#);
}

#[test]
fn test_from_json() {
    let query = FindQuery::new_from_value(obj(vec![
        ("selector", obj(vec![("thing", JsonValue::Bool(true))])),
        ("limit", num(1)),
        ("sort", JsonValue::Array(vec![obj(vec![("thing", text("desc"))])])),
    ]));

    let selector = query.selector.to_string();
    assert_eq!(selector, r#"{"thing":true}"#);
    assert_eq!(query.limit, Some(1));
    assert_eq!(query.sort.len(), 1);
    let first_sort = query.sort.first().unwrap();
    if let SortSpec::Complex(spec) = first_sort {
        assert!(spec.contains_key("thing"));
        let direction = spec.get("thing").unwrap();
        assert_eq!(direction, SortDirection::Desc);
    } else {
        panic!("unexpected sort spec");
    }
}

#[test]
fn builders_set_their_fields() {
    let query = FindQuery::find_all()
        .skip(10)
        .limit(10)
        .bookmark("bm")
        .update(true)
        .stable(false)
        .stale("ok")
        .execution_stats(true)
        .r(2)
        .fields(vec!["a".to_string()])
        .use_index(IndexSpec::DesignDocument("ix".to_string()));
    assert_eq!(query.skip, Some(10));
    assert_eq!(query.limit, Some(10));
    assert_eq!(query.bookmark, Some("bm".to_string()));
    assert_eq!(query.update, Some(true));
    assert_eq!(query.stable, Some(false));
    assert_eq!(query.stale, Some("ok".to_string()));
    assert_eq!(query.execution_stats, Some(true));
    assert_eq!(query.r, Some(2));
    assert_eq!(query.fields, Some(vec!["a".to_string()]));
    assert_eq!(
        query.use_index,
        Some(IndexSpec::DesignDocument("ix".to_string()))
    );
}

#[test]
fn full_query_serializes_in_wire_order() {
    let query = FindQuery::new(obj(vec![("thing", JsonValue::Bool(true))]))
        .limit(5)
        .skip(2)
        .bookmark("bm")
        .update(false)
        .use_index(IndexSpec::IndexName("design".to_string(), "ix".to_string()))
        .fields(vec!["f1".to_string(), "f2".to_string()]);
    let expected = r#"{"bookmark":"bm","fields":["f1","f2"],"limit":5,"selector":{"thing":true},"skip":2,"update":false,"use_index":["design","ix"]}"#;
    assert_eq!(query.to_string(), expected);
}

#[test]
fn select_all_renders_its_clause() {
    let custom = SelectAll {
        id: Some(NotEqual {
            ne: Some("x".to_string()),
        }),
    };
    assert_eq!(custom.as_value().to_string(), r#"{"_id":{"$ne":"x"}}"#);
    let empty = SelectAll { id: None };
    assert_eq!(empty.as_value().to_string(), "{}");
}

#[test]
fn sort_direction_reads_from_text() {
    assert_eq!(SortDirection::from("desc".to_string()), SortDirection::Desc);
    assert_eq!(SortDirection::from("asc".to_string()), SortDirection::Asc);
    assert_eq!(
        SortDirection::from("anything".to_string()),
        SortDirection::Asc
    );
}

#[test]
fn sort_spec_content_replaces_existing_keys() {
    let mut sort = SortSpecContent::new();
    sort.insert("a", SortDirection::Asc);
    sort.insert("b", SortDirection::Desc);
    sort.insert("a", SortDirection::Desc);
    assert_eq!(sort.get("a"), Some(SortDirection::Desc));
    assert_eq!(sort.get("b"), Some(SortDirection::Desc));
    assert_eq!(sort.get("c"), None);
    assert!(sort.contains_key("a"));
    assert!(!sort.contains_key("c"));
}
