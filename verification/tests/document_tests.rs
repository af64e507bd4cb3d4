use couch_rs::document::{
    AllDocsResponse, DocResponse, DocumentCollection, TypedCouchDocument, ID_FIELD, REV_FIELD,
};
use couch_rs::json::{JsonDecodable, JsonNumber, JsonValue};

fn obj(pairs: Vec<(&str, JsonValue)>) -> JsonValue {
    JsonValue::Object(pairs.into_iter().map(|(k, v)| (k.to_string(), v)).collect())
}

fn text(s: &str) -> JsonValue {
    JsonValue::Text(s.to_string())
}

struct TestDocument {
    pub _id: String,
    pub _rev: String,
}

impl JsonDecodable for TestDocument {
    // The ghost halves of the contract never run; a hand-written
    // implementation outside the verifier stubs them out.
    fn decodable_spec(_: JsonValue) -> bool {
        panic!()
    }

    fn decoded_spec(_: JsonValue) -> TestDocument {
        panic!()
    }

    fn from_json(v: JsonValue) -> Option<TestDocument> {
        match v {
            JsonValue::Object(entries) => {
                let mut id = String::new();
                let mut rev = String::new();
                for (k, val) in entries {
                    if let JsonValue::Text(s) = val {
                        if k == ID_FIELD {
                            id = s;
                        } else if k == REV_FIELD {
                            rev = s;
                        }
                    }
                }
                Some(TestDocument { _id: id, _rev: rev })
            }
            _ => None,
        }
    }
}

impl TypedCouchDocument for TestDocument {
    fn id_spec(&self) -> vstd::seq::Seq<char> {
        panic!()
    }

    fn rev_spec(&self) -> vstd::seq::Seq<char> {
        panic!()
    }

    fn writable_spec(&self) -> bool {
        panic!()
    }

    fn same_except_identity(_: TestDocument, _: TestDocument) -> bool {
        panic!()
    }

    fn same_except_identity_trans(_: TestDocument, _: TestDocument, _: TestDocument) {
        panic!()
    }

    fn get_id(&self) -> String {
        self._id.clone()
    }

    fn get_rev(&self) -> String {
        self._rev.clone()
    }

    fn set_id(&mut self, id: &str) {
        self._id = id.to_string();
    }

    fn set_rev(&mut self, rev: &str) {
        self._rev = rev.to_string();
    }

    fn merge_ids(&mut self, other: &Self) {
        self._id = other._id.clone();
        self._rev = other._rev.clone();
    }
}

#[test]
fn test_derive_couch_document() {
    let doc = TestDocument {
        _id: "1".to_string(),
        _rev: "2".to_string(),
    };
    let id = doc.get_id();
    let rev = doc.get_rev();
    assert_eq!(id, "1");
    assert_eq!(rev, "2");
}

#[test]
fn untyped_adapter_reads_canonical_fields() {
    let doc = obj(vec![("_id", text("abc")), ("_rev", text("1-x")), ("thing", JsonValue::Bool(true))]);
    assert_eq!(doc.get_id(), "abc");
    assert_eq!(doc.get_rev(), "1-x");
}

#[test]
fn untyped_adapter_defaults_on_absent_or_non_string_fields() {
    let doc = obj(vec![("_id", JsonValue::Number(JsonNumber { negative: false, magnitude: 7 }))]);
    assert_eq!(doc.get_id(), "");
    assert_eq!(doc.get_rev(), "");
    let not_an_object = JsonValue::Bool(true);
    assert_eq!(not_an_object.get_id(), "");
}

#[test]
fn untyped_adapter_writes_in_place() {
    let mut doc = obj(vec![("thing", JsonValue::Bool(true))]);
    doc.set_id("a");
    doc.set_rev("1-b");
    assert_eq!(doc.get_id(), "a");
    assert_eq!(doc.get_rev(), "1-b");
    doc.set_rev("2-c");
    assert_eq!(doc.get_id(), "a");
    assert_eq!(doc.get_rev(), "2-c");
}

#[test]
fn untyped_adapter_mutation_is_a_no_op_on_non_objects() {
    let mut doc = JsonValue::Null;
    doc.set_id("a");
    doc.set_rev("1-b");
    assert_eq!(doc, JsonValue::Null);
}

#[test]
fn identity_mutators_leave_the_body_alone() {
    let mut doc = obj(vec![("thing", JsonValue::Bool(true)), ("count", text("7"))]);
    doc.set_id("a");
    doc.set_rev("1-b");
    assert_eq!(
        doc,
        obj(vec![
            ("thing", JsonValue::Bool(true)),
            ("count", text("7")),
            ("_id", text("a")),
            ("_rev", text("1-b")),
        ])
    );
}

#[test]
fn merge_ids_takes_both_from_other() {
    let mut target = obj(vec![("_id", text("old")), ("_rev", text("1-a"))]);
    let source = obj(vec![("_id", text("new")), ("_rev", text("2-b"))]);
    target.merge_ids(&source);
    assert_eq!(target.get_id(), "new");
    assert_eq!(target.get_rev(), "2-b");
}

fn row(error: Option<&str>, doc: Option<JsonValue>) -> DocResponse<JsonValue> {
    DocResponse {
        id: None,
        key: None,
        value: None,
        error: error.map(|e| e.to_string()),
        doc,
    }
}

#[test]
fn collection_assembly_drops_error_and_internal_rows() {
    // Five raw rows: one error row, one design document, three ordinary.
    let response = AllDocsResponse {
        total_rows: Some(5),
        offset: Some(0),
        rows: vec![
            row(None, Some(obj(vec![("_id", text("a"))]))),
            row(Some("not_found"), None),
            row(None, Some(obj(vec![("_id", text("_design/views"))]))),
            row(None, Some(obj(vec![("_id", text("b"))]))),
            row(None, Some(obj(vec![("_id", text("c"))]))),
        ],
    };
    let collection = DocumentCollection::new(response);
    // total_rows counts the kept rows: 5 - 1 error - 1 internal.
    assert_eq!(collection.total_rows, 3);
    assert_eq!(collection.rows.len(), 3);
    assert_eq!(collection.rows[0].get_id(), "a");
    assert_eq!(collection.rows[1].get_id(), "b");
    assert_eq!(collection.rows[2].get_id(), "c");
    assert_eq!(collection.offset, Some(0));
    assert_eq!(collection.bookmark, None);
}

#[test]
fn collection_from_documents_keeps_everything() {
    let docs = vec![obj(vec![("_id", text("x"))]), obj(vec![("_id", text("y"))])];
    let collection = DocumentCollection::new_from_documents(docs, Some("bm".to_string()));
    assert_eq!(collection.total_rows, 2);
    assert_eq!(collection.offset, Some(0));
    assert_eq!(collection.bookmark, Some("bm".to_string()));
    assert_eq!(collection.get_data().len(), 2);
}

#[test]
fn collection_from_values_drops_undecodable_values() {
    // A value of unexpected shape is silently dropped, and total_rows
    // counts the entries actually included after that filtering.
    let values = vec![obj(vec![("_id", text("x"))]), JsonValue::Bool(true)];
    let collection: DocumentCollection<TestDocument> =
        DocumentCollection::new_from_values(values, None);
    assert_eq!(collection.total_rows, 1);
    assert_eq!(collection.rows.len(), 1);
    assert_eq!(collection.total_rows as usize, collection.rows.len());
    assert_eq!(collection.rows[0]._id, "x");
}

#[test]
fn default_collection_is_empty() {
    let collection: DocumentCollection<JsonValue> = Default::default();
    assert_eq!(collection.total_rows, 0);
    assert_eq!(collection.rows.len(), 0);
    assert_eq!(collection.offset, None);
    assert_eq!(collection.bookmark, None);
}
