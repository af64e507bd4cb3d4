//! The decision half of the database operations: interpreting raw
//! transport answers and reconciling reported identity/revision back into
//! caller-owned documents. The transport itself stays outside this crate;
//! every function here is total over whatever status and body came back.

use crate::document::{decoded_values, DocumentCollection, DocumentCreatedDetails,
    TypedCouchDocument};
use crate::error::{CouchError, CouchResult, ErrorDetails, ErrorMessage, STATUS_CONFLICT};
use crate::json::{obj_take, JsonValue};
use vstd::prelude::*;
use vstd::string::StringExecFns;

verus! {

/// Whether an HTTP status reports success.
pub open spec fn status_success(status: u16) -> bool {
    200 <= status < 300
}

/// One per-document outcome of a bulk write, as the server shapes it: a
/// written item carries its identity and minted revision, a rejected one an
/// error name and reason.
#[derive(Debug, PartialEq, Eq)]
pub struct BulkOpOutcome {
    pub id: Option<String>,
    pub ok: Option<bool>,
    pub rev: Option<String>,
    pub error: Option<String>,
    pub reason: Option<String>,
}

impl BulkOpOutcome {
    /// Whether the server reports this item written: no error marker, and
    /// both identity and revision present.
    pub open spec fn success_spec(&self) -> bool {
        self.error is None && self.id is Some && self.rev is Some
    }
}

/// The message a rejected bulk item is reported with: the server's error
/// name and reason.
pub open spec fn bulk_failure_message(o: BulkOpOutcome) -> Seq<char> {
    (match o.error {
        Some(e) => e@,
        None => Seq::empty(),
    }) + ": "@ + (match o.reason {
        Some(r) => r@,
        None => Seq::empty(),
    })
}

/// How one position of a bulk write is reconciled: `before` is the document
/// as submitted, `after` as handed back, `outcome` the server's verdict for
/// this position, and `res` the per-item result. On success the reported
/// revision is written into the document, and the server-assigned identity
/// too when the document had none; a failed position leaves its document
/// untouched and surfaces a conflict failure carrying the server's message.
/// A failure the server gave no identity for carries none: its place in
/// the ordered output, which matches the input position for position,
/// is the caller's correlation key.
pub open spec fn reconciled<T: TypedCouchDocument>(
    before: T,
    after: T,
    outcome: BulkOpOutcome,
    res: CouchResult<DocumentCreatedDetails>,
) -> bool {
    if outcome.success_spec() {
        &&& res matches Ok(d) && d.id@ == outcome.id->0@ && d.rev@ == outcome.rev->0@
        &&& before.writable_spec() ==> after.rev_spec() == outcome.rev->0@
        &&& (before.writable_spec() && before.id_spec().len() > 0) ==> after.id_spec()
            == before.id_spec()
        &&& (before.writable_spec() && before.id_spec().len() == 0) ==> after.id_spec()
            == outcome.id->0@
        &&& !before.writable_spec() ==> after == before
        &&& after.writable_spec() == before.writable_spec()
        &&& T::same_except_identity(before, after)
    } else {
        &&& after == before
        &&& res matches Err(CouchError::OperationFailed(d)) && {
            &&& match (d.id, outcome.id) {
                (Some(a), Some(b)) => a@ == b@,
                (None, None) => true,
                _ => false,
            }
            &&& d.status == STATUS_CONFLICT
            &&& d.message@ == bulk_failure_message(outcome)
        }
    }
}

/// Merges the server's ordered bulk outcomes back into the submitted
/// documents, position by position: every input document yields exactly one
/// output entry, in input order; nothing is reordered, dropped or
/// coalesced. The server guarantees an outcome per submitted document,
/// which is the length premise.
pub fn bulk_docs_apply<T: TypedCouchDocument>(
    docs: &mut Vec<T>,
    outcomes: Vec<BulkOpOutcome>,
) -> (r: Vec<CouchResult<DocumentCreatedDetails>>)
    requires
        outcomes@.len() == old(docs)@.len(),
    ensures
        r@.len() == old(docs)@.len(),
        final(docs)@.len() == old(docs)@.len(),
        forall|i: int| 0 <= i < r@.len() ==> reconciled(
            old(docs)@[i],
            final(docs)@[i],
            outcomes@[i],
            r@[i],
        ),
{
    let ghost docs0 = docs@;
    let ghost outs0 = outcomes@;
    let mut outcomes = outcomes;
    let mut results: Vec<CouchResult<DocumentCreatedDetails>> = Vec::new();
    let mut i: usize = 0;
    let n_docs = docs.len();
    proof {
        assert(docs0.len() == n_docs);
        assert(outs0.skip(0) =~= outs0);
    }
    while outcomes.len() > 0
        invariant
            docs0.len() <= usize::MAX,
            outs0.len() == docs0.len(),
            docs@.len() == docs0.len(),
            i + outcomes@.len() == outs0.len(),
            outcomes@ == outs0.skip(i as int),
            results@.len() == i,
            forall|j: int| 0 <= j < i ==> reconciled(docs0[j], docs@[j], outs0[j], results@[j]),
            forall|j: int| i <= j < docs0.len() ==> docs@[j] == docs0[j],
        decreases outcomes@.len(),
    {
        let ghost k = i as int;
        let o = outcomes.remove(0);
        proof {
            assert(o == outs0[k]);
            assert(outcomes@ =~= outs0.skip(k + 1));
        }
        let BulkOpOutcome { id, ok: _, rev, error, reason } = o;
        match (error, id, rev) {
            (None, Some(id_text), Some(rev_text)) => {
                let was_empty = docs[i].get_id().as_str().is_empty();
                docs[i].set_rev(rev_text.as_str());
                let ghost mid = docs@[k];
                if was_empty {
                    docs[i].set_id(id_text.as_str());
                    proof {
                        T::same_except_identity_trans(docs0[k], mid, docs@[k]);
                    }
                }
                results.push(Ok(DocumentCreatedDetails { id: id_text, rev: rev_text }));
            },
            (error, id, _rev) => {
                let mut message = match error {
                    Some(e) => e,
                    None => String::new(),
                };
                message.append(": ");
                match reason {
                    Some(r) => message.append(r.as_str()),
                    None => {},
                }
                results.push(
                    Err(
                        CouchError::OperationFailed(
                            ErrorDetails { id, status: STATUS_CONFLICT, message },
                        ),
                    ),
                );
            },
        }
        i = i + 1;
    }
    results
}

/// What a successful write leaves behind in the document: the reported
/// revision, the reported identity where the document had none, and
/// everything else exactly as it was.
pub open spec fn write_applied<T: TypedCouchDocument>(
    before: T,
    after: T,
    details: DocumentCreatedDetails,
) -> bool {
    &&& before.writable_spec() ==> after.rev_spec() == details.rev@
    &&& (before.writable_spec() && before.id_spec().len() > 0) ==> after.id_spec()
        == before.id_spec()
    &&& (before.writable_spec() && before.id_spec().len() == 0) ==> after.id_spec() == details.id@
    &&& !before.writable_spec() ==> after == before
    &&& after.writable_spec() == before.writable_spec()
    &&& T::same_except_identity(before, after)
}

/// Writes the server-reported revision into the document, and the
/// server-assigned identity too when the document had none: the in-place
/// half of a successful `create`/`save`.
pub fn apply_write_details<T: TypedCouchDocument>(doc: &mut T, details: &DocumentCreatedDetails)
    ensures
        write_applied(*old(doc), *final(doc), *details),
{
    let was_empty = doc.get_id().as_str().is_empty();
    doc.set_rev(details.rev.as_str());
    let ghost mid = *doc;
    if was_empty {
        doc.set_id(details.id.as_str());
        proof {
            T::same_except_identity_trans(*old(doc), mid, *doc);
        }
    }
}



/// Re-saving a document leaves it holding each reported revision in turn:
/// the server mints a fresh revision on every successful write, so two
/// sequential successful saves that report distinct revisions leave
/// distinct revisions behind, body changed or not. Only the server can
/// promise the reported revisions differ, which is the premise here.
pub proof fn lemma_sequential_saves_record_distinct_revisions<T: TypedCouchDocument>(
    submitted: T,
    after_first: T,
    after_second: T,
    first: DocumentCreatedDetails,
    second: DocumentCreatedDetails,
)
    requires
        submitted.writable_spec(),
        write_applied(submitted, after_first, first),
        write_applied(after_first, after_second, second),
        first.rev@ != second.rev@,
    ensures
        after_first.rev_spec() != after_second.rev_spec(),
        after_second.rev_spec() == second.rev@,
        T::same_except_identity(submitted, after_second),
{
    T::same_except_identity_trans(submitted, after_first, after_second);
}

/// The message a failed response is reported with: the `error` and
/// `reason` texts of its body.
pub open spec fn error_reason_message(body: JsonValue) -> Seq<char> {
    (match body.opt_text_field("error"@) {
        Some(e) => e,
        None => Seq::empty(),
    }) + ": "@ + (match body.opt_text_field("reason"@) {
        Some(r) => r,
        None => Seq::empty(),
    })
}

/// Renders a failed response body's error and reason.
pub fn failure_message(body: JsonValue) -> (r: String)
    ensures
        r@ == error_reason_message(body),
{
    let mut first = String::new();
    let mut second = String::new();
    match body {
        JsonValue::Object(mut entries) => {
            let ghost entries0 = entries@;
            match obj_take(&mut entries, "error") {
                Some(JsonValue::Text(s)) => { first = s; },
                _ => {},
            }
            proof {
                reveal_strlit("error");
                reveal_strlit("reason");
                assert("error"@.len() == 5 && "reason"@.len() == 6);
                assert(crate::json::obj_lookup(entries@, "reason"@) == crate::json::obj_lookup(
                    entries0, "reason"@));
            }
            match obj_take(&mut entries, "reason") {
                Some(JsonValue::Text(s)) => { second = s; },
                _ => {},
            }
        },
        _ => {},
    }
    let mut message = first;
    message.append(": ");
    message.append(second.as_str());
    message
}

/// The identity and revision a successful write response carries, when its
/// body holds both, non-empty.
pub open spec fn write_response_details(body: JsonValue) -> Option<(Seq<char>, Seq<char>)> {
    match (body.opt_text_field("id"@), body.opt_text_field("rev"@)) {
        (Some(id), Some(rev)) => if id.len() > 0 && rev.len() > 0 {
            Some((id, rev))
        } else {
            None
        },
        _ => None,
    }
}

/// Interprets the raw answer of a single-document write: success is owed
/// exactly when the status reports success and the body carries a
/// non-empty identity and revision; a rejected request surfaces its status
/// and the server's message.
pub fn interpret_write_response(status: u16, body: JsonValue) -> (r: CouchResult<
    DocumentCreatedDetails,
>)
    ensures
        r is Ok <==> status_success(status) && write_response_details(body) is Some,
        match r {
            Ok(d) => write_response_details(body) == Some((d.id@, d.rev@)),
            Err(e) => if !status_success(status) {
                e matches CouchError::OperationFailed(det) && det.status == status && det.id
                    is None && det.message@ == error_reason_message(body)
            } else {
                e is InvalidJson
            },
        },
{
    if !(200 <= status && status < 300) {
        let message = failure_message(body);
        return Err(CouchError::new(message, status));
    }
    match body {
        JsonValue::Object(mut entries) => {
            let ghost entries0 = entries@;
            let id_v = obj_take(&mut entries, "id");
            proof {
                reveal_strlit("id");
                reveal_strlit("rev");
                assert("id"@.len() == 2);
                assert("rev"@.len() == 3);
                assert("id"@ != "rev"@);
            }
            let rev_v = obj_take(&mut entries, "rev");
            proof {
                assert(crate::json::obj_lookup(entries0, "rev"@) == body.lookup("rev"@));
            }
            match (id_v, rev_v) {
                (Some(JsonValue::Text(id)), Some(JsonValue::Text(rev))) => {
                    if !id.as_str().is_empty() && !rev.as_str().is_empty() {
                        Ok(DocumentCreatedDetails { id, rev })
                    } else {
                        Err(
                            CouchError::InvalidJson(
                                ErrorMessage {
                                    message: String::from_str(
                                        "write response carried an empty id or rev",
                                    ),
                                },
                            ),
                        )
                    }
                },
                _ => Err(
                    CouchError::InvalidJson(
                        ErrorMessage {
                            message: String::from_str("write response carried no id and rev"),
                        },
                    ),
                ),
            }
        },
        _ => Err(
            CouchError::InvalidJson(
                ErrorMessage { message: String::from_str("write response was not an object") },
            ),
        ),
    }
}

/// Interprets a write answer and merges success into the document: the
/// whole client-side step of `create` and `save` once the transport has
/// answered. A failure leaves the document untouched.
pub fn complete_write<T: TypedCouchDocument>(doc: &mut T, status: u16, body: JsonValue) -> (r:
    CouchResult<DocumentCreatedDetails>)
    ensures
        r is Ok <==> status_success(status) && write_response_details(body) is Some,
        match r {
            Ok(d) => write_response_details(body) == Some((d.id@, d.rev@)) && write_applied(
                *old(doc),
                *final(doc),
                d,
            ),
            Err(e) => *final(doc) == *old(doc) && (if !status_success(status) {
                e matches CouchError::OperationFailed(det) && det.status == status && det.id
                    is None && det.message@ == error_reason_message(body)
            } else {
                e is InvalidJson
            }),
        },
{
    match interpret_write_response(status, body) {
        Ok(details) => {
            apply_write_details(doc, &details);
            Ok(details)
        },
        Err(e) => Err(e),
    }
}

/// A successful create of a document that had no identity leaves it with
/// the server-assigned, non-empty identity and exactly the revision the
/// server reported: the response and the document agree.
pub proof fn lemma_create_fresh_document<T: TypedCouchDocument>(
    before: T,
    after: T,
    details: DocumentCreatedDetails,
)
    requires
        before.writable_spec(),
        before.id_spec().len() == 0,
        details.id@.len() > 0,
        write_applied(before, after, details),
    ensures
        after.id_spec().len() > 0,
        after.id_spec() == details.id@,
        after.rev_spec() == details.rev@,
        T::same_except_identity(before, after),
{
}

/// Interprets the raw answer of a single-document read: an absent document
/// surfaces the server's not-found status, and a present one must decode
/// into the caller's declared type.
pub fn interpret_get_response<T: TypedCouchDocument>(status: u16, body: JsonValue) -> (r:
    CouchResult<T>)
    ensures
        r is Ok <==> status_success(status) && T::decodable_spec(body),
        match r {
            Ok(d) => d == T::decoded_spec(body),
            Err(e) => if !status_success(status) {
                e matches CouchError::OperationFailed(det) && det.status == status && det.id
                    is None && det.message@ == error_reason_message(body)
            } else {
                e is InvalidJson
            },
        },
{
    if !(200 <= status && status < 300) {
        let message = failure_message(body);
        return Err(CouchError::new(message, status));
    }
    match T::from_json(body) {
        Some(d) => Ok(d),
        None => Err(
            CouchError::InvalidJson(
                ErrorMessage {
                    message: String::from_str("document body did not match the expected shape"),
                },
            ),
        ),
    }
}


/// Interprets the raw answer of a selector query: the matched documents
/// decode out of the body's document array — a value of unexpected shape
/// is dropped, as in collection assembly — and the continuation bookmark
/// is carried through. A rejected query surfaces its status and the
/// server's message.
pub fn interpret_find_response<T: TypedCouchDocument>(status: u16, body: JsonValue) -> (r:
    CouchResult<DocumentCollection<T>>)
    ensures
        r is Ok <==> (status_success(status) && (body.lookup("docs"@) matches Some(d) && (d matches
            JsonValue::Array(values) && values@.len() <= u32::MAX))),
        match r {
            Ok(c) => {
                &&& body.lookup("docs"@) matches Some(d) && (d matches JsonValue::Array(values)
                    && c.rows@ == decoded_values::<T>(values@) && c.total_rows == decoded_values::<
                    T,
                >(values@).len())
                &&& c.offset == Some(0u32)
                &&& match body.lookup("bookmark"@) {
                    Some(JsonValue::Text(s)) => c.bookmark matches Some(b) && b@ == s@,
                    _ => c.bookmark is None,
                }
            },
            Err(e) => if !status_success(status) {
                e matches CouchError::OperationFailed(det) && det.status == status && det.id
                    is None && det.message@ == error_reason_message(body)
            } else {
                e is InvalidJson
            },
        },
{
    if !(200 <= status && status < 300) {
        let message = failure_message(body);
        return Err(CouchError::new(message, status));
    }
    match body {
        JsonValue::Object(mut entries) => {
            let ghost entries0 = entries@;
            let docs_v = obj_take(&mut entries, "docs");
            proof {
                reveal_strlit("docs");
                reveal_strlit("bookmark");
                assert("docs"@.len() == 4 && "bookmark"@.len() == 8);
                assert(crate::json::obj_lookup(entries@, "bookmark"@) == crate::json::obj_lookup(
                    entries0, "bookmark"@));
            }
            let bookmark = match obj_take(&mut entries, "bookmark") {
                Some(JsonValue::Text(s)) => Some(s),
                _ => None,
            };
            match docs_v {
                Some(JsonValue::Array(values)) => {
                    if values.len() as u64 > 0xffff_ffffu64 {
                        return Err(
                            CouchError::InvalidJson(
                                ErrorMessage {
                                    message: String::from_str(
                                        "find response held more documents than a collection counts",
                                    ),
                                },
                            ),
                        );
                    }
                    Ok(DocumentCollection::new_from_values(values, bookmark))
                },
                _ => Err(
                    CouchError::InvalidJson(
                        ErrorMessage {
                            message: String::from_str("find response carried no document array"),
                        },
                    ),
                ),
            }
        },
        _ => Err(
            CouchError::InvalidJson(
                ErrorMessage { message: String::from_str("find response was not an object") },
            ),
        ),
    }
}

/// Whether a remove answer reports the document gone.
pub fn interpret_remove_response(status: u16) -> (r: bool)
    ensures
        r == status_success(status),
{
    200 <= status && status < 300
}


/// The view of an optional text.
pub open spec fn opt_view(o: Option<String>) -> Option<Seq<char>> {
    match o {
        Some(s) => Some(s@),
        None => None,
    }
}

/// The success test of one bulk response item, over its JSON shape.
pub open spec fn item_success(v: JsonValue) -> bool {
    &&& v.opt_text_field("error"@) is None
    &&& v.opt_text_field("id"@) is Some
    &&& v.opt_text_field("rev"@) is Some
}

/// A parsed bulk outcome carries exactly the fields of its response item.
pub open spec fn outcome_matches(o: BulkOpOutcome, v: JsonValue) -> bool {
    &&& opt_view(o.id) == v.opt_text_field("id"@)
    &&& o.ok == v.opt_bool_field("ok"@)
    &&& opt_view(o.rev) == v.opt_text_field("rev"@)
    &&& opt_view(o.error) == v.opt_text_field("error"@)
    &&& opt_view(o.reason) == v.opt_text_field("reason"@)
}

/// Parses one bulk response item; a malformed item parses to an outcome
/// with nothing in it, which reconciles as a failure.
fn parse_outcome(v: JsonValue) -> (o: BulkOpOutcome)
    ensures
        outcome_matches(o, v),
{
    match v {
        JsonValue::Object(mut entries) => {
            let ghost entries0 = entries@;
            proof {
                reveal_strlit("id");
                reveal_strlit("ok");
                reveal_strlit("rev");
                reveal_strlit("error");
                reveal_strlit("reason");
                assert("id"@.len() == 2 && "ok"@.len() == 2 && "rev"@.len() == 3 && "error"@.len()
                    == 5 && "reason"@.len() == 6);
                assert("id"@[0] == 'i' && "ok"@[0] == 'o');
                assert("id"@ != "ok"@);
            }
            let id = match obj_take(&mut entries, "id") {
                Some(JsonValue::Text(s)) => Some(s),
                _ => None,
            };
            proof {
                assert(crate::json::obj_lookup(entries@, "ok"@) == crate::json::obj_lookup(
                    entries0, "ok"@));
                assert(crate::json::obj_lookup(entries@, "rev"@) == crate::json::obj_lookup(
                    entries0, "rev"@));
                assert(crate::json::obj_lookup(entries@, "error"@) == crate::json::obj_lookup(
                    entries0, "error"@));
                assert(crate::json::obj_lookup(entries@, "reason"@) == crate::json::obj_lookup(
                    entries0, "reason"@));
            }
            let ok = match obj_take(&mut entries, "ok") {
                Some(JsonValue::Bool(b)) => Some(b),
                _ => None,
            };
            proof {
                assert(crate::json::obj_lookup(entries@, "rev"@) == crate::json::obj_lookup(
                    entries0, "rev"@));
                assert(crate::json::obj_lookup(entries@, "error"@) == crate::json::obj_lookup(
                    entries0, "error"@));
                assert(crate::json::obj_lookup(entries@, "reason"@) == crate::json::obj_lookup(
                    entries0, "reason"@));
            }
            let rev = match obj_take(&mut entries, "rev") {
                Some(JsonValue::Text(s)) => Some(s),
                _ => None,
            };
            proof {
                assert(crate::json::obj_lookup(entries@, "error"@) == crate::json::obj_lookup(
                    entries0, "error"@));
                assert(crate::json::obj_lookup(entries@, "reason"@) == crate::json::obj_lookup(
                    entries0, "reason"@));
            }
            let error = match obj_take(&mut entries, "error") {
                Some(JsonValue::Text(s)) => Some(s),
                _ => None,
            };
            proof {
                assert(crate::json::obj_lookup(entries@, "reason"@) == crate::json::obj_lookup(
                    entries0, "reason"@));
            }
            let reason = match obj_take(&mut entries, "reason") {
                Some(JsonValue::Text(s)) => Some(s),
                _ => None,
            };
            BulkOpOutcome { id, ok, rev, error, reason }
        },
        _ => BulkOpOutcome { id: None, ok: None, rev: None, error: None, reason: None },
    }
}

/// `reconciled`, stated over the response item's JSON shape.
pub open spec fn reconciled_json<T: TypedCouchDocument>(
    before: T,
    after: T,
    item: JsonValue,
    res: CouchResult<DocumentCreatedDetails>,
) -> bool {
    if item_success(item) {
        &&& res matches Ok(d) && Some(d.id@) == item.opt_text_field("id"@) && Some(d.rev@)
            == item.opt_text_field("rev"@)
        &&& before.writable_spec() ==> Some(after.rev_spec()) == item.opt_text_field("rev"@)
        &&& (before.writable_spec() && before.id_spec().len() > 0) ==> after.id_spec()
            == before.id_spec()
        &&& (before.writable_spec() && before.id_spec().len() == 0) ==> Some(after.id_spec())
            == item.opt_text_field("id"@)
        &&& !before.writable_spec() ==> after == before
        &&& after.writable_spec() == before.writable_spec()
        &&& T::same_except_identity(before, after)
    } else {
        &&& after == before
        &&& res matches Err(CouchError::OperationFailed(d)) && {
            &&& opt_view(d.id) == item.opt_text_field("id"@)
            &&& d.status == STATUS_CONFLICT
            &&& d.message@ == error_reason_message(item)
        }
    }
}

/// An outcome that carries its item's fields reconciles the same way the
/// item does.
proof fn lemma_reconciled_bridge<T: TypedCouchDocument>(
    before: T,
    after: T,
    o: BulkOpOutcome,
    item: JsonValue,
    res: CouchResult<DocumentCreatedDetails>,
)
    requires
        outcome_matches(o, item),
        reconciled(before, after, o, res),
    ensures
        reconciled_json(before, after, item, res),
{
}

/// The whole client-side step of a bulk write once the transport has
/// answered: checks the call's status, parses the ordered per-item
/// outcomes, holds the server to its one-outcome-per-document contract,
/// and reconciles position by position. An outer failure leaves every
/// document untouched.
pub fn complete_bulk_docs<T: TypedCouchDocument>(
    docs: &mut Vec<T>,
    status: u16,
    body: JsonValue,
) -> (r: CouchResult<Vec<CouchResult<DocumentCreatedDetails>>>)
    ensures
        r is Ok <==> (status_success(status) && (body matches JsonValue::Array(items)
            && items@.len() == old(docs)@.len())),
        match r {
            Ok(results) => {
                &&& results@.len() == old(docs)@.len()
                &&& final(docs)@.len() == old(docs)@.len()
                &&& body matches JsonValue::Array(items) && forall|i: int|
                    0 <= i < results@.len() ==> reconciled_json(
                        old(docs)@[i],
                        final(docs)@[i],
                        items@[i],
                        results@[i],
                    )
            },
            Err(e) => final(docs)@ == old(docs)@ && (if !status_success(status) {
                e matches CouchError::OperationFailed(det) && det.status == status && det.id
                    is None && det.message@ == error_reason_message(body)
            } else {
                e is InvalidJson
            }),
        },
{
    if !(200 <= status && status < 300) {
        let message = failure_message(body);
        return Err(CouchError::new(message, status));
    }
    match body {
        JsonValue::Array(mut items) => {
            if items.len() != docs.len() {
                return Err(
                    CouchError::InvalidJson(
                        ErrorMessage {
                            message: String::from_str(
                                "bulk response did not answer every document",
                            ),
                        },
                    ),
                );
            }
            let ghost items0 = items@;
            let ghost docs0 = docs@;
            let mut outcomes: Vec<BulkOpOutcome> = Vec::new();
            proof {
                assert(items0.skip(0) =~= items0);
            }
            let mut taken: usize = 0;
            while items.len() > 0
                invariant
                    items0.len() <= usize::MAX,
                    taken + items@.len() == items0.len(),
                    items@ == items0.skip(taken as int),
                    outcomes@.len() == taken,
                    forall|j: int| 0 <= j < taken ==> outcome_matches(
                        #[trigger] outcomes@[j],
                        items0[j],
                    ),
                decreases items@.len(),
            {
                let ghost k = taken as int;
                let item = items.remove(0);
                proof {
                    assert(item == items0[k]);
                    assert(items@ =~= items0.skip(k + 1));
                }
                let o = parse_outcome(item);
                outcomes.push(o);
                taken = taken + 1;
            }
            let results = bulk_docs_apply(docs, outcomes);
            proof {
                assert forall|i: int| 0 <= i < results@.len() implies reconciled_json(
                    docs0[i],
                    docs@[i],
                    items0[i],
                    results@[i],
                ) by {
                    lemma_reconciled_bridge(
                        docs0[i],
                        docs@[i],
                        outcomes@[i],
                        items0[i],
                        results@[i],
                    );
                }
            }
            Ok(results)
        },
        _ => Err(
            CouchError::InvalidJson(
                ErrorMessage { message: String::from_str("bulk response was not an array") },
            ),
        ),
    }
}

/// A bulk write answers every position, in order: a successful position
/// carries the reported revision into its document and keeps a non-empty
/// identity unchanged; a failed position leaves its document exactly as
/// submitted.
pub proof fn lemma_bulk_write_positionwise<T: TypedCouchDocument>(
    before: Seq<T>,
    after: Seq<T>,
    outcomes: Seq<BulkOpOutcome>,
    results: Seq<CouchResult<DocumentCreatedDetails>>,
)
    requires
        results.len() == before.len(),
        after.len() == before.len(),
        forall|i: int| 0 <= i < results.len() ==> reconciled(
            before[i],
            after[i],
            #[trigger] outcomes[i],
            results[i],
        ),
    ensures
        forall|i: int|
            (0 <= i < results.len() && (#[trigger] outcomes[i]).success_spec()
                && before[i].writable_spec()) ==> {
                &&& results[i] is Ok
                &&& after[i].rev_spec() == results[i]->Ok_0.rev@
                &&& before[i].id_spec().len() > 0 ==> after[i].id_spec() == before[i].id_spec()
            },
        forall|i: int| (0 <= i < results.len() && !(#[trigger] outcomes[i]).success_spec()) ==> {
            &&& after[i] == before[i]
            &&& results[i] is Err
        },
{
}

/// Default page size of a batched full-collection fetch, used when the
/// caller passes 0.
pub const DEFAULT_PAGE_SIZE: u64 = 1000;

/// The producer state of a batched full-collection fetch. Pagination is
/// inherently sequential: each page's request is decided only after the
/// previous page's answer, and offsets never decrease.
#[derive(Debug, Clone, PartialEq, Eq, Structural)]
pub struct BatchFetchState {
    /// Rows requested per page; at least 1.
    pub page_size: u64,
    /// The skip of the next page request.
    pub next_skip: u64,
    /// Rows handed to the consumer so far.
    pub delivered: u64,
    /// Whether the fetch is over.
    pub done: bool,
}

impl BatchFetchState {
    pub open spec fn wf(&self) -> bool {
        self.page_size >= 1
    }

    /// Starts a batched fetch: a page size of 0 means the default.
    pub fn start(page_size: u64, skip: u64) -> (r: BatchFetchState)
        ensures
            r.wf(),
            r.page_size == if page_size == 0 {
                DEFAULT_PAGE_SIZE
            } else {
                page_size
            },
            r.next_skip == skip,
            r.delivered == 0,
            !r.done,
    {
        let effective = if page_size == 0 {
            DEFAULT_PAGE_SIZE
        } else {
            page_size
        };
        BatchFetchState { page_size: effective, next_skip: skip, delivered: 0, done: false }
    }

    /// The limit and skip of the next page request, while one is due.
    pub fn next_request(&self) -> (r: Option<(u64, u64)>)
        ensures
            match r {
                Some(req) => !self.done && req.0 == self.page_size && req.1 == self.next_skip,
                None => self.done,
            },
    {
        if self.done {
            None
        } else {
            Some((self.page_size, self.next_skip))
        }
    }

    /// Accounts a delivered page of `rows` rows and decides whether another
    /// page is due: a short page means the collection is exhausted. The
    /// next skip advances by exactly the rows delivered, so offsets are
    /// handed out in non-decreasing order.
    pub fn apply_page(&mut self, rows: u64) -> (more: bool)
        requires
            old(self).wf(),
            !old(self).done,
            rows <= old(self).page_size,
            old(self).next_skip + rows <= u64::MAX,
            old(self).delivered + rows <= u64::MAX,
        ensures
            final(self).wf(),
            final(self).page_size == old(self).page_size,
            final(self).delivered == old(self).delivered + rows,
            final(self).next_skip == old(self).next_skip + rows,
            more == (rows == old(self).page_size),
            final(self).done == !more,
    {
        self.delivered = self.delivered + rows;
        self.next_skip = self.next_skip + rows;
        let full_page = rows == self.page_size;
        self.done = !full_page;
        full_page
    }
}

} // verus!
