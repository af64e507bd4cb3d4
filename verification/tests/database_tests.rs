use couch_rs::database::{
    complete_bulk_docs, complete_write, interpret_find_response, interpret_get_response,
    interpret_remove_response, BatchFetchState, DEFAULT_PAGE_SIZE,
};
use couch_rs::document::{DocumentCollection, TypedCouchDocument};
use couch_rs::error::{CouchError, CouchResultExt, STATUS_CONFLICT, STATUS_NOT_FOUND};
use couch_rs::json::JsonValue;

fn obj(pairs: Vec<(&str, JsonValue)>) -> JsonValue {
    JsonValue::Object(pairs.into_iter().map(|(k, v)| (k.to_string(), v)).collect())
}

fn text(s: &str) -> JsonValue {
    JsonValue::Text(s.to_string())
}

#[test]
fn create_assigns_identity_and_revision() {
    // A document created with an empty identity comes back holding the
    // server-assigned identity and exactly the reported revision.
    let mut doc = obj(vec![("thing", JsonValue::Bool(true))]);
    let body = obj(vec![
        ("ok", JsonValue::Bool(true)),
        ("id", text("generated-id")),
        ("rev", text("1-abc")),
    ]);
    let details = complete_write(&mut doc, 201, body).unwrap();
    assert_eq!(details.id, "generated-id");
    assert_eq!(details.rev, "1-abc");
    assert!(!doc.get_id().is_empty());
    assert_eq!(doc.get_id(), "generated-id");
    assert_eq!(doc.get_rev(), details.rev);
    // The caller's own fields survive the write untouched.
    assert_eq!(
        doc,
        obj(vec![
            ("thing", JsonValue::Bool(true)),
            ("_rev", text("1-abc")),
            ("_id", text("generated-id")),
        ])
    );
}

#[test]
fn create_keeps_a_caller_chosen_identity() {
    let mut doc = obj(vec![("_id", text("mine")), ("thing", JsonValue::Bool(true))]);
    let body = obj(vec![("id", text("mine")), ("rev", text("1-abc"))]);
    let details = complete_write(&mut doc, 201, body).unwrap();
    assert_eq!(doc.get_id(), "mine");
    assert_eq!(doc.get_rev(), details.rev);
}

#[test]
fn failed_write_leaves_the_document_alone() {
    let mut doc = obj(vec![("_id", text("mine")), ("_rev", text("1-a"))]);
    let body = obj(vec![
        ("error", text("conflict")),
        ("reason", text("Document update conflict.")),
    ]);
    let err = complete_write(&mut doc, 409, body).unwrap_err();
    assert_eq!(err.status(), Some(409));
    assert_eq!(doc.get_rev(), "1-a");
    assert_eq!(err.to_string(), "409: conflict: Document update conflict.");
}

#[test]
fn saving_twice_records_each_minted_revision() {
    // The server mints a new revision on every successful write, also when
    // the body is unchanged: the two recorded revisions differ.
    let mut doc = obj(vec![("_id", text("d")), ("thing", JsonValue::Bool(true))]);
    let first = complete_write(
        &mut doc,
        201,
        obj(vec![("id", text("d")), ("rev", text("1-aaa"))]),
    )
    .unwrap();
    let rev_after_first = doc.get_rev();
    let second = complete_write(
        &mut doc,
        201,
        obj(vec![("id", text("d")), ("rev", text("2-bbb"))]),
    )
    .unwrap();
    let rev_after_second = doc.get_rev();
    assert_ne!(first.rev, second.rev);
    assert_ne!(rev_after_first, rev_after_second);
    assert_eq!(rev_after_second, "2-bbb");
}

#[test]
fn bulk_write_duplicate_identity_first_wins() {
    // Two documents share an identity: the server accepts the first and
    // rejects the second as a conflict, position by position.
    let mut docs = vec![
        obj(vec![("_id", text("first")), ("thing", JsonValue::Bool(true))]),
        obj(vec![("_id", text("first")), ("thing", JsonValue::Bool(false))]),
    ];
    let body = JsonValue::Array(vec![
        obj(vec![
            ("ok", JsonValue::Bool(true)),
            ("id", text("first")),
            ("rev", text("1-xyz")),
        ]),
        obj(vec![
            ("id", text("first")),
            ("error", text("conflict")),
            ("reason", text("Document update conflict.")),
        ]),
    ]);
    let results = complete_bulk_docs(&mut docs, 201, body).unwrap();
    assert_eq!(results.len(), 2);
    let first_result = results[0].as_ref().unwrap();
    assert_eq!(first_result.rev, "1-xyz");
    assert_eq!(docs[0].get_rev(), "1-xyz");
    let second_result = results[1].as_ref().unwrap_err();
    assert_eq!(second_result.status(), Some(STATUS_CONFLICT));
    // The rejected document is exactly as submitted.
    assert_eq!(docs[1].get_rev(), "");
    assert_eq!(
        docs[1],
        obj(vec![("_id", text("first")), ("thing", JsonValue::Bool(false))])
    );
}

#[test]
fn bulk_write_answers_every_position_in_order() {
    let mut docs = vec![
        obj(vec![("_id", text("a"))]),
        obj(vec![("thing", JsonValue::Bool(true))]),
        obj(vec![("_id", text("c"))]),
    ];
    let body = JsonValue::Array(vec![
        obj(vec![("id", text("a")), ("rev", text("1-a"))]),
        obj(vec![("id", text("gen")), ("rev", text("1-b"))]),
        obj(vec![("id", text("c")), ("error", text("forbidden"))]),
    ]);
    let results = complete_bulk_docs(&mut docs, 201, body).unwrap();
    assert_eq!(results.len(), 3);
    assert!(results[0].is_ok());
    assert!(results[1].is_ok());
    assert!(results[2].is_err());
    // A non-empty identity is kept; an empty one takes the server's.
    assert_eq!(docs[0].get_id(), "a");
    assert_eq!(docs[1].get_id(), "gen");
    // The failed position names its document.
    match results[2].as_ref().unwrap_err() {
        CouchError::OperationFailed(details) => {
            assert_eq!(details.id, Some("c".to_string()));
        }
        other => panic!("unexpected failure shape: {other:?}"),
    }
}

#[test]
fn bulk_write_rejects_a_short_response() {
    let mut docs = vec![obj(vec![("_id", text("a"))]), obj(vec![("_id", text("b"))])];
    let body = JsonValue::Array(vec![obj(vec![("id", text("a")), ("rev", text("1-a"))])]);
    let err = complete_bulk_docs(&mut docs, 201, body).unwrap_err();
    assert!(matches!(err, CouchError::InvalidJson(_)));
    assert_eq!(docs[0].get_rev(), "");
}

#[test]
fn get_decodes_a_present_document() {
    let body = obj(vec![("_id", text("x")), ("_rev", text("3-c"))]);
    let doc: JsonValue = interpret_get_response(200, body).unwrap();
    assert_eq!(doc.get_id(), "x");
    assert_eq!(doc.get_rev(), "3-c");
}

#[test]
fn get_surfaces_not_found() {
    let body = obj(vec![("error", text("not_found")), ("reason", text("missing"))]);
    let err = interpret_get_response::<JsonValue>(404, body).unwrap_err();
    assert!(err.is_not_found());
    assert_eq!(err.status(), Some(STATUS_NOT_FOUND));
    assert_eq!(err.to_string(), "404: not_found: missing");
}

#[test]
fn into_option_turns_not_found_into_none() {
    let found: Result<u64, CouchError> = Ok(7);
    assert_eq!(found.into_option().unwrap(), Some(7));
    let absent: Result<u64, CouchError> =
        Err(CouchError::new("missing".to_string(), STATUS_NOT_FOUND));
    assert_eq!(absent.into_option().unwrap(), None);
    let conflict: Result<u64, CouchError> =
        Err(CouchError::new("conflict".to_string(), STATUS_CONFLICT));
    assert!(conflict.into_option().is_err());
}

#[test]
fn error_constructors_carry_their_details() {
    let err = CouchError::new_with_id(Some("doc".to_string()), "boom".to_string(), 400);
    match &err {
        CouchError::OperationFailed(details) => {
            assert_eq!(details.id, Some("doc".to_string()));
            assert_eq!(details.status, 400);
            assert_eq!(details.message, "boom");
        }
        other => panic!("unexpected failure shape: {other:?}"),
    }
    assert!(!err.is_not_found());
    assert_eq!(err.to_string(), "doc -> 400: boom");
}

#[test]
fn find_interpretation_assembles_documents_and_bookmark() {
    let body = obj(vec![
        (
            "docs",
            JsonValue::Array(vec![
                obj(vec![("_id", text("a")), ("_rev", text("1-a"))]),
                JsonValue::Bool(true),
            ]),
        ),
        ("bookmark", text("bm")),
    ]);
    let collection: DocumentCollection<JsonValue> = interpret_find_response(200, body).unwrap();
    // Against the permissive document type every value decodes, and the
    // count follows the kept rows.
    assert_eq!(collection.rows.len(), 2);
    assert_eq!(collection.total_rows, 2);
    assert_eq!(collection.offset, Some(0));
    assert_eq!(collection.bookmark, Some("bm".to_string()));

    let failed = obj(vec![("error", text("invalid_key")), ("reason", text("bad"))]);
    let err = interpret_find_response::<JsonValue>(400, failed).unwrap_err();
    assert_eq!(err.status(), Some(400));
    assert_eq!(err.to_string(), "400: invalid_key: bad");
}

#[test]
fn remove_reports_success_by_status() {
    assert!(interpret_remove_response(200));
    assert!(!interpret_remove_response(404));
}

#[test]
fn batched_fetch_visits_the_whole_store_in_offset_order() {
    // A store of 2001 documents, fetched with page size 0 (the default
    // size): pages of 1000, 1000 and 1 row, in non-decreasing offset
    // order, summing to exactly 2001.
    let store_size: u64 = 2001;
    let mut state = BatchFetchState::start(0, 0);
    assert_eq!(state.page_size, DEFAULT_PAGE_SIZE);
    let mut page_sizes: Vec<u64> = Vec::new();
    let mut offsets: Vec<u64> = Vec::new();
    let mut retrieved: u64 = 0;
    loop {
        let (limit, skip) = match state.next_request() {
            Some(req) => req,
            None => break,
        };
        offsets.push(skip);
        let remaining = store_size - skip;
        let rows = if remaining < limit { remaining } else { limit };
        page_sizes.push(rows);
        retrieved += rows;
        if !state.apply_page(rows) {
            break;
        }
    }
    assert_eq!(page_sizes, vec![1000, 1000, 1]);
    assert_eq!(offsets, vec![0, 1000, 2000]);
    for pair in offsets.windows(2) {
        assert!(pair[0] <= pair[1]);
    }
    assert_eq!(retrieved, 2001);
    assert_eq!(state.delivered, 2001);
}

#[test]
fn batched_fetch_keeps_an_explicit_page_size() {
    // A non-zero page size is used as given.
    let mut state = BatchFetchState::start(500, 25);
    assert_eq!(state.page_size, 500);
    assert_eq!(state.next_request(), Some((500, 25)));
    let first_full = state.apply_page(500);
    assert!(first_full);
    assert_eq!(state.next_request(), Some((500, 525)));
    let second_full = state.apply_page(17);
    assert!(!second_full);
    assert_eq!(state.next_request(), None);
    assert_eq!(state.delivered, 517);
}



