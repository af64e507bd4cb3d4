//! Views: creating view definitions, and decoding view/query results
//! whose key, value and document payloads are independently typed. The
//! value position is decoded permissively: a view may legitimately emit
//! null.

use crate::database::{status_success, error_reason_message};
use crate::document::TypedCouchDocument;
use crate::error::{CouchError, CouchResult, ErrorMessage};
use crate::json::{obj_insert, obj_lookup, obj_take, JsonDecodable, JsonValue};
use vstd::prelude::*;
use vstd::string::StringExecFns;

verus! {

/// One key/value row of a view result; the document is present only when
/// the query asked for documents.
#[derive(Debug)]
pub struct ViewItem<K: JsonDecodable, V: JsonDecodable, T: TypedCouchDocument> {
    pub key: K,
    pub value: V,
    pub id: Option<String>,
    pub doc: Option<T>,
}

/// A decoded view result: rows in server order, with the server's own
/// pagination metadata kept as reported.
#[derive(Debug)]
pub struct ViewCollection<K: JsonDecodable, V: JsonDecodable, T: TypedCouchDocument> {
    pub offset: Option<u32>,
    pub rows: Vec<ViewItem<K, V, T>>,
    pub total_rows: Option<u32>,
}

/// A raw view result keeps its documents as plain JSON values.
pub type RawViewCollection<K, V> = ViewCollection<K, V, JsonValue>;

/// The value position of a raw view row: absent stands for null.
pub open spec fn row_value_position(row: JsonValue) -> JsonValue {
    match row.lookup("value"@) {
        Some(x) => x,
        None => JsonValue::Null,
    }
}

/// Whether one raw row decodes: the key and the embedded document are
/// decoded strictly, the value position permissively through `V`.
pub open spec fn row_decodable<K: JsonDecodable, V: JsonDecodable, T: TypedCouchDocument>(
    row: JsonValue,
) -> bool {
    &&& row is Object
    &&& row.lookup("key"@) matches Some(k) && K::decodable_spec(k)
    &&& V::decodable_spec(row_value_position(row))
    &&& match row.lookup("id"@) {
        Some(x) => x is Text,
        None => true,
    }
    &&& match row.lookup("doc"@) {
        Some(d) => T::decodable_spec(d),
        None => true,
    }
}

/// What one raw row decodes to.
pub open spec fn row_parsed<K: JsonDecodable, V: JsonDecodable, T: TypedCouchDocument>(
    row: JsonValue,
    item: ViewItem<K, V, T>,
) -> bool {
    &&& item.key == K::decoded_spec(row.lookup("key"@)->0)
    &&& item.value == V::decoded_spec(row_value_position(row))
    &&& match row.lookup("id"@) {
        Some(x) => item.id matches Some(s) && s@ == x->Text_0@,
        None => item.id is None,
    }
    &&& match row.lookup("doc"@) {
        Some(d) => item.doc matches Some(t) && t == T::decoded_spec(d),
        None => item.doc is None,
    }
}

/// A count field that fits the collection's metadata.
pub open spec fn u32_count_field(v: JsonValue, key: Seq<char>) -> bool {
    match v.lookup(key) {
        Some(x) => x matches JsonValue::Number(n) && !n.negative && n.magnitude <= u32::MAX,
        None => true,
    }
}

/// Whether a whole raw view response decodes against the declared key,
/// value and document types.
pub open spec fn view_response_decodable<K: JsonDecodable, V: JsonDecodable, T: TypedCouchDocument>(
    body: JsonValue,
) -> bool {
    &&& body is Object
    &&& body.lookup("rows"@) matches Some(rs) && (rs matches JsonValue::Array(rows) && (forall|
        i: int,
    |
        0 <= i < rows@.len() ==> row_decodable::<K, V, T>(#[trigger] rows@[i])))
    &&& u32_count_field(body, "total_rows"@)
    &&& u32_count_field(body, "offset"@)
}

/// A view row whose value position is null decodes against the permissive
/// value type and is refused by the strict text type, for the same row:
/// callers expecting views that emit null should declare a permissive
/// value type.
pub proof fn lemma_null_value_row<K: JsonDecodable, T: TypedCouchDocument>(row: JsonValue)
    requires
        row_value_position(row) is Null,
    ensures
        !row_decodable::<K, String, T>(row),
        row_decodable::<K, JsonValue, T>(row) <==> ({
            &&& row is Object
            &&& row.lookup("key"@) matches Some(k) && K::decodable_spec(k)
            &&& match row.lookup("id"@) {
                Some(x) => x is Text,
                None => true,
            }
            &&& match row.lookup("doc"@) {
                Some(d) => T::decodable_spec(d),
                None => true,
            }
        }),
{
}

/// Decodes one raw view row.
fn parse_view_row<K: JsonDecodable, V: JsonDecodable, T: TypedCouchDocument>(row: JsonValue) -> (r:
    Option<ViewItem<K, V, T>>)
    ensures
        r is Some <==> row_decodable::<K, V, T>(row),
        match r {
            Some(item) => row_parsed::<K, V, T>(row, item),
            None => true,
        },
{
    match row {
        JsonValue::Object(mut entries) => {
            let ghost entries0 = entries@;
            proof {
                reveal_strlit("key");
                reveal_strlit("value");
                reveal_strlit("id");
                reveal_strlit("doc");
                assert("key"@.len() == 3 && "value"@.len() == 5 && "id"@.len() == 2 && "doc"@.len()
                    == 3);
                assert("key"@[0] == 'k' && "doc"@[0] == 'd');
                assert("key"@ != "doc"@);
            }
            let key_v = match obj_take(&mut entries, "key") {
                Some(k) => k,
                None => {
                    return None;
                },
            };
            proof {
                assert(obj_lookup(entries@, "value"@) == obj_lookup(entries0, "value"@));
                assert(obj_lookup(entries@, "id"@) == obj_lookup(entries0, "id"@));
                assert(obj_lookup(entries@, "doc"@) == obj_lookup(entries0, "doc"@));
            }
            let value_v = match obj_take(&mut entries, "value") {
                Some(x) => x,
                None => JsonValue::Null,
            };
            proof {
                assert(obj_lookup(entries@, "id"@) == obj_lookup(entries0, "id"@));
                assert(obj_lookup(entries@, "doc"@) == obj_lookup(entries0, "doc"@));
            }
            let id_v = obj_take(&mut entries, "id");
            proof {
                assert(obj_lookup(entries@, "doc"@) == obj_lookup(entries0, "doc"@));
            }
            let doc_v = obj_take(&mut entries, "doc");
            let key = match K::from_json(key_v) {
                Some(k) => k,
                None => {
                    return None;
                },
            };
            let value = match V::from_json(value_v) {
                Some(v) => v,
                None => {
                    return None;
                },
            };
            let id = match id_v {
                Some(JsonValue::Text(s)) => Some(s),
                Some(_) => {
                    return None;
                },
                None => None,
            };
            let doc = match doc_v {
                Some(d) => match T::from_json(d) {
                    Some(t) => Some(t),
                    None => {
                        return None;
                    },
                },
                None => None,
            };
            Some(ViewItem { key, value, id, doc })
        },
        _ => None,
    }
}

/// Interprets the raw answer of a view query: each row's key and document
/// decode strictly and its value permissively; one undecodable row fails
/// the whole call, since the declared types were the caller's explicit
/// expectation.
pub fn decode_view_response<K: JsonDecodable, V: JsonDecodable, T: TypedCouchDocument>(
    status: u16,
    body: JsonValue,
) -> (r: CouchResult<ViewCollection<K, V, T>>)
    ensures
        r is Ok <==> status_success(status) && view_response_decodable::<K, V, T>(body),
        match r {
            Ok(c) => {
                &&& body.lookup("rows"@) matches Some(rs) && (rs matches JsonValue::Array(rows)
                    && c.rows@.len() == rows@.len() && (forall|i: int|
                    0 <= i < rows@.len() ==> row_parsed::<K, V, T>(
                        #[trigger] rows@[i],
                        c.rows@[i],
                    )))
                &&& match body.lookup("total_rows"@) {
                    Some(x) => c.total_rows matches Some(n) && n as u64 == x->Number_0.magnitude,
                    None => c.total_rows is None,
                }
                &&& match body.lookup("offset"@) {
                    Some(x) => c.offset matches Some(n) && n as u64 == x->Number_0.magnitude,
                    None => c.offset is None,
                }
            },
            Err(e) => if !status_success(status) {
                e matches CouchError::OperationFailed(det) && det.status == status && det.id
                    is None && det.message@ == error_reason_message(body)
            } else {
                e is InvalidJson
            },
        },
{
    if !(200 <= status && status < 300) {
        let message = crate::database::failure_message(body);
        return Err(CouchError::new(message, status));
    }
    match body {
        JsonValue::Object(mut entries) => {
            let ghost entries0 = entries@;
            proof {
                reveal_strlit("rows");
                reveal_strlit("total_rows");
                reveal_strlit("offset");
                assert("rows"@.len() == 4 && "total_rows"@.len() == 10 && "offset"@.len() == 6);
            }
            let rows_v = obj_take(&mut entries, "rows");
            proof {
                assert(obj_lookup(entries@, "total_rows"@) == obj_lookup(entries0, "total_rows"@));
                assert(obj_lookup(entries@, "offset"@) == obj_lookup(entries0, "offset"@));
            }
            let total_v = obj_take(&mut entries, "total_rows");
            proof {
                assert(obj_lookup(entries@, "offset"@) == obj_lookup(entries0, "offset"@));
            }
            let offset_v = obj_take(&mut entries, "offset");
            let total_rows = match total_v {
                Some(JsonValue::Number(n)) => {
                    if n.negative || n.magnitude > 0xffff_ffffu64 {
                        return Err(invalid_view_response());
                    }
                    Some(n.magnitude as u32)
                },
                Some(_) => {
                    return Err(invalid_view_response());
                },
                None => None,
            };
            let offset = match offset_v {
                Some(JsonValue::Number(n)) => {
                    if n.negative || n.magnitude > 0xffff_ffffu64 {
                        return Err(invalid_view_response());
                    }
                    Some(n.magnitude as u32)
                },
                Some(_) => {
                    return Err(invalid_view_response());
                },
                None => None,
            };
            match rows_v {
                Some(JsonValue::Array(mut raw_rows)) => {
                    let ghost rows0 = raw_rows@;
                    let mut rows: Vec<ViewItem<K, V, T>> = Vec::new();
                    let n_rows = raw_rows.len();
                    proof {
                        assert(rows0.len() == n_rows);
                        assert(rows0.skip(0) =~= rows0);
                    }
                    let mut taken: usize = 0;
                    while raw_rows.len() > 0
                        invariant
                            rows0.len() <= usize::MAX,
                            status_success(status),
                            body.lookup("rows"@) matches Some(rs) && (rs matches
                                JsonValue::Array(rr) && rr@ == rows0),
                            taken + raw_rows@.len() == rows0.len(),
                            raw_rows@ == rows0.skip(taken as int),
                            rows@.len() == taken,
                            forall|j: int| 0 <= j < taken ==> row_decodable::<K, V, T>(
                                #[trigger] rows0[j],
                            ) && row_parsed::<K, V, T>(rows0[j], rows@[j]),
                        decreases raw_rows@.len(),
                    {
                        let ghost k = taken as int;
                        let raw = raw_rows.remove(0);
                        proof {
                            assert(raw == rows0[k]);
                            assert(raw_rows@ =~= rows0.skip(k + 1));
                        }
                        match parse_view_row::<K, V, T>(raw) {
                            Some(item) => {
                                rows.push(item);
                            },
                            None => {
                                return Err(invalid_view_response());
                            },
                        }
                        taken = taken + 1;
                    }
                    Ok(ViewCollection { offset, rows, total_rows })
                },
                _ => Err(invalid_view_response()),
            }
        },
        _ => Err(invalid_view_response()),
    }
}

/// The failure a view response that does not decode is reported with.
fn invalid_view_response() -> (r: CouchError)
    ensures
        r is InvalidJson,
{
    CouchError::InvalidJson(
        ErrorMessage { message: String::from_str("view response did not match the query") },
    )
}

/// One map/reduce function pair of a view definition.
#[derive(Debug, Clone, PartialEq, Eq)]
pub struct CouchFunc {
    pub map: String,
    pub reduce: Option<String>,
}

impl CouchFunc {
    pub fn new(map: &str, reduce: Option<&str>) -> (r: CouchFunc)
        ensures
            r.map@ == map@,
            match reduce {
                Some(s) => r.reduce matches Some(t) && t@ == s@,
                None => r.reduce is None,
            },
    {
        let reduce_owned = match reduce {
            Some(s) => Some(s.to_owned()),
            None => None,
        };
        CouchFunc { map: map.to_owned(), reduce: reduce_owned }
    }
}

/// One or more named views of a design document.
#[derive(Debug)]
pub struct CouchViews {
    views: Vec<(String, CouchFunc)>,
    language: String,
}

impl CouchViews {
    /// The views, by name; a name holds one function pair.
    pub closed spec fn views_spec(&self) -> Seq<(String, CouchFunc)> {
        self.views@
    }

    /// The language the view functions are written in.
    pub closed spec fn language_spec(&self) -> Seq<char> {
        self.language@
    }

    pub fn new(view_name: &str, func: CouchFunc) -> (r: Self)
        ensures
            r.views_spec().len() == 1,
            obj_lookup(r.views_spec(), view_name@) == Some(func),
            r.language_spec() == "javascript"@,
    {
        let mut couch_views = CouchViews {
            views: Vec::new(),
            language: "javascript".to_owned(),
        };
        couch_views.add(view_name, func);
        couch_views
    }

    pub fn add(&mut self, name: &str, func: CouchFunc)
        ensures
            obj_lookup(final(self).views_spec(), name@) == Some(func),
            forall|k2: Seq<char>| k2 != name@ ==> obj_lookup(final(self).views_spec(), k2)
                == obj_lookup(old(self).views_spec(), k2),
            final(self).views_spec().len() == old(self).views_spec().len() + (if obj_lookup(
                old(self).views_spec(),
                name@,
            ) is None {
                1int
            } else {
                0int
            }),
            final(self).language_spec() == old(self).language_spec(),
    {
        obj_insert(&mut self.views, name, func);
    }
}

impl Default for CouchViews {
    fn default() -> (r: Self)
        ensures
            r.views_spec().len() == 0,
            r.language_spec() == "javascript"@,
    {
        CouchViews { views: Vec::new(), language: "javascript".to_owned() }
    }
}

/// One or more named update handlers of a design document.
#[derive(Debug)]
pub struct CouchUpdate {
    updates: Vec<(String, String)>,
}

impl CouchUpdate {
    /// The update handlers, by name.
    pub closed spec fn updates_spec(&self) -> Seq<(String, String)> {
        self.updates@
    }

    pub fn new(func_name: &str, func: &str) -> (r: Self)
        ensures
            r.updates_spec().len() == 1,
            obj_lookup(r.updates_spec(), func_name@) matches Some(f) && f@ == func@,
    {
        let mut update = CouchUpdate { updates: Vec::new() };
        update.add(func_name, func);
        update
    }

    pub fn add(&mut self, name: &str, func: &str)
        ensures
            obj_lookup(final(self).updates_spec(), name@) matches Some(f) && f@ == func@,
            forall|k2: Seq<char>| k2 != name@ ==> obj_lookup(final(self).updates_spec(), k2)
                == obj_lookup(old(self).updates_spec(), k2),
            final(self).updates_spec().len() == old(self).updates_spec().len() + (if obj_lookup(
                old(self).updates_spec(),
                name@,
            ) is None {
                1int
            } else {
                0int
            }),
    {
        obj_insert(&mut self.updates, name, func.to_owned());
    }
}

} // verus!
