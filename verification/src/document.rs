//! Document identity: every document representation exposes an identity and
//! a revision token, under caller-chosen field names; the untyped adapter
//! reads and writes the database's canonical field names on a JSON value.

use crate::json::{json_eq, obj_find, obj_insert, obj_lookup, JsonDecodable, JsonValue};
use vstd::prelude::*;

verus! {

/// The canonical identity field name on the wire.
pub const ID_FIELD: &'static str = "_id";

/// The canonical revision field name on the wire.
pub const REV_FIELD: &'static str = "_rev";

/// Capability contract for documents that carry a database identity and a
/// revision token, and that can cross the JSON wire.
///
/// `id_spec`/`rev_spec` are what the accessors read; `writable_spec` says
/// whether the representation can carry the fields at all (an untyped
/// document that is not an object cannot). Mutators leave a non-writable
/// document untouched, and touch nothing but the identity and revision
/// fields of a writable one: `same_except_identity` is the frame they keep.
pub trait TypedCouchDocument: JsonDecodable {
    /// The identity the document carries; empty before first creation.
    spec fn id_spec(&self) -> Seq<char>;

    /// The revision token the document carries; empty before first creation.
    spec fn rev_spec(&self) -> Seq<char>;

    /// Whether identity and revision can be stored in this representation.
    spec fn writable_spec(&self) -> bool;

    /// Whether two documents agree on everything but their identity and
    /// revision fields: all a write is allowed to touch.
    spec fn same_except_identity(a: Self, b: Self) -> bool;

    /// The agreement carries across chained writes.
    proof fn same_except_identity_trans(a: Self, b: Self, c: Self)
        requires
            Self::same_except_identity(a, b),
            Self::same_except_identity(b, c),
        ensures
            Self::same_except_identity(a, c),
    ;

    /// Reads the identity.
    fn get_id(&self) -> (r: String)
        ensures
            r@ == self.id_spec(),
    ;

    /// Reads the revision token.
    fn get_rev(&self) -> (r: String)
        ensures
            r@ == self.rev_spec(),
    ;

    /// Stores `id` as the identity, leaving the revision and the rest of
    /// the document alone.
    fn set_id(&mut self, id: &str)
        ensures
            old(self).writable_spec() ==> final(self).id_spec() == id@,
            !old(self).writable_spec() ==> *final(self) == *old(self),
            final(self).rev_spec() == old(self).rev_spec(),
            final(self).writable_spec() == old(self).writable_spec(),
            Self::same_except_identity(*old(self), *final(self)),
    ;

    /// Stores `rev` as the revision token, leaving the identity and the
    /// rest of the document alone.
    fn set_rev(&mut self, rev: &str)
        ensures
            old(self).writable_spec() ==> final(self).rev_spec() == rev@,
            !old(self).writable_spec() ==> *final(self) == *old(self),
            final(self).id_spec() == old(self).id_spec(),
            final(self).writable_spec() == old(self).writable_spec(),
            Self::same_except_identity(*old(self), *final(self)),
    ;

    /// Carries identity and revision over from `other`, touching nothing
    /// else: only the server mints revisions, so both are taken from
    /// `other`.
    fn merge_ids(&mut self, other: &Self)
        ensures
            old(self).writable_spec() ==> final(self).id_spec() == other.id_spec()
                && final(self).rev_spec() == other.rev_spec(),
            !old(self).writable_spec() ==> *final(self) == *old(self),
            final(self).writable_spec() == old(self).writable_spec(),
            Self::same_except_identity(*old(self), *final(self)),
    ;
}

impl JsonValue {
    /// A structurally equivalent copy.
    pub fn deep_clone(&self) -> (r: JsonValue)
        ensures
            json_eq(r, *self),
        decreases *self,
    {
        match self {
            JsonValue::Null => JsonValue::Null,
            JsonValue::Bool(b) => JsonValue::Bool(*b),
            JsonValue::Number(n) => JsonValue::Number(*n),
            JsonValue::Text(s) => {
                let copy = s.clone();
                JsonValue::Text(copy)
            },
            JsonValue::Array(items) => {
                let mut out: Vec<JsonValue> = Vec::new();
                let mut i: usize = 0;
                while i < items.len()
                    invariant
                        i <= items@.len(),
                        out@.len() == i,
                        forall|j: int| 0 <= j < i ==> json_eq(#[trigger] out@[j], items@[j]),
                        *self == JsonValue::Array(*items),
                    decreases items@.len() - i,
                {
                    proof {
                        assert(decreases_to!(*self => self->Array_0));
                        assert(decreases_to!(*items => items@));
                        assert(decreases_to!(items@ => items@[i as int]));
                    }
                    out.push(items[i].deep_clone());
                    i = i + 1;
                }
                JsonValue::Array(out)
            },
            JsonValue::Object(entries) => {
                let mut out: Vec<(String, JsonValue)> = Vec::new();
                let mut i: usize = 0;
                while i < entries.len()
                    invariant
                        i <= entries@.len(),
                        out@.len() == i,
                        forall|j: int| 0 <= j < i ==> (#[trigger] out@[j]).0@ == entries@[j].0@
                            && json_eq(out@[j].1, entries@[j].1),
                        *self == JsonValue::Object(*entries),
                    decreases entries@.len() - i,
                {
                    proof {
                        assert(decreases_to!(*self => self->Object_0));
                        assert(decreases_to!(*entries => entries@));
                        assert(decreases_to!(entries@ => entries@[i as int]));
                        assert(decreases_to!(entries@[i as int] => entries@[i as int].1));
                    }
                    let key = entries[i].0.clone();
                    let val = entries[i].1.deep_clone();
                    out.push((key, val));
                    i = i + 1;
                }
                JsonValue::Object(out)
            },
        }
    }
}

/// The two canonical field names differ, so writing one never disturbs the
/// other.
pub proof fn lemma_distinct_canonical_fields()
    ensures
        ID_FIELD@ != REV_FIELD@,
        ID_FIELD@ == "_id"@,
        REV_FIELD@ == "_rev"@,
{
    reveal_strlit("_id");
    reveal_strlit("_rev");
    assert("_id"@.len() == 3);
    assert("_rev"@.len() == 4);
}

/// The untyped adapter: a dynamically-typed JSON document stores identity
/// and revision under the canonical field names, when it is an object at
/// all. Accessors fall back to the empty string rather than failing, since
/// an untyped value gives no static guarantee of shape.
impl TypedCouchDocument for JsonValue {
    open spec fn id_spec(&self) -> Seq<char> {
        self.text_field(ID_FIELD@)
    }

    open spec fn rev_spec(&self) -> Seq<char> {
        self.text_field(REV_FIELD@)
    }

    open spec fn writable_spec(&self) -> bool {
        self.is_object()
    }

    open spec fn same_except_identity(a: JsonValue, b: JsonValue) -> bool {
        match (a, b) {
            (JsonValue::Object(x), JsonValue::Object(y)) => forall|k: Seq<char>|
                k != ID_FIELD@ && k != REV_FIELD@ ==> #[trigger] obj_lookup(x@, k) == obj_lookup(
                    y@,
                    k,
                ),
            _ => a == b,
        }
    }

    proof fn same_except_identity_trans(a: JsonValue, b: JsonValue, c: JsonValue) {
        if a is Object && b is Object && c is Object {
            let x = a->Object_0@;
            let y = b->Object_0@;
            let z = c->Object_0@;
            assert forall|k: Seq<char>| k != ID_FIELD@ && k != REV_FIELD@ implies #[trigger]
                obj_lookup(x, k) == obj_lookup(z, k) by {
                assert(obj_lookup(x, k) == obj_lookup(y, k));
                assert(obj_lookup(y, k) == obj_lookup(z, k));
            }
        }
    }

    fn get_id(&self) -> (r: String) {
        match self {
            JsonValue::Object(entries) => match obj_find(entries, ID_FIELD) {
                Some(i) => match &entries[i].1 {
                    JsonValue::Text(s) => s.clone(),
                    _ => String::new(),
                },
                None => String::new(),
            },
            _ => String::new(),
        }
    }

    fn get_rev(&self) -> (r: String) {
        match self {
            JsonValue::Object(entries) => match obj_find(entries, REV_FIELD) {
                Some(i) => match &entries[i].1 {
                    JsonValue::Text(s) => s.clone(),
                    _ => String::new(),
                },
                None => String::new(),
            },
            _ => String::new(),
        }
    }

    fn set_id(&mut self, id: &str) {
        proof {
            lemma_distinct_canonical_fields();
        }
        match self {
            JsonValue::Object(entries) => {
                obj_insert(entries, ID_FIELD, JsonValue::Text(id.to_owned()));
            },
            _ => {},
        }
    }

    fn set_rev(&mut self, rev: &str) {
        proof {
            lemma_distinct_canonical_fields();
        }
        match self {
            JsonValue::Object(entries) => {
                obj_insert(entries, REV_FIELD, JsonValue::Text(rev.to_owned()));
            },
            _ => {},
        }
    }

    fn merge_ids(&mut self, other: &Self) {
        let id = other.get_id();
        let rev = other.get_rev();
        let ghost before = *self;
        self.set_id(id.as_str());
        let ghost mid = *self;
        self.set_rev(rev.as_str());
        proof {
            Self::same_except_identity_trans(before, mid, *self);
        }
    }

}


/// An identity with the reserved internal/design prefix: such documents
/// must never leak into application-facing collections.
pub open spec fn internal_doc_id(id: Seq<char>) -> bool {
    id.len() > 0 && id[0] == '_'
}

/// Identity and revision the server reports after a successful write.
#[derive(Debug, Clone, PartialEq, Eq)]
pub struct DocumentCreatedDetails {
    pub id: String,
    pub rev: String,
}

/// The revision carried in the `value` position of an all-documents row.
#[derive(Debug, Clone, PartialEq, Eq)]
pub struct DocResponseValue {
    pub rev: String,
}

/// One row of a raw multi-document response: an optional error marker, and
/// an optional embedded document.
pub struct DocResponse<T: TypedCouchDocument> {
    pub id: Option<String>,
    pub key: Option<JsonValue>,
    pub value: Option<DocResponseValue>,
    pub error: Option<String>,
    pub doc: Option<T>,
}

/// A raw multi-document response as the server shapes it.
pub struct AllDocsResponse<T: TypedCouchDocument> {
    pub total_rows: Option<u32>,
    pub offset: Option<u32>,
    pub rows: Vec<DocResponse<T>>,
}

/// Whether a raw row survives collection assembly: no error marker, an
/// embedded document, and no reserved internal identity.
pub open spec fn keep_row<T: TypedCouchDocument>(r: DocResponse<T>) -> bool {
    &&& r.error is None
    &&& r.doc is Some
    &&& !internal_doc_id(r.doc->0.id_spec())
}

/// The documents of the rows that survive assembly, in server order.
pub open spec fn kept_rows<T: TypedCouchDocument>(rows: Seq<DocResponse<T>>) -> Seq<T>
    decreases rows.len(),
{
    if rows.len() == 0 {
        Seq::empty()
    } else if keep_row(rows[0]) {
        seq![rows[0].doc->0] + kept_rows(rows.skip(1))
    } else {
        kept_rows(rows.skip(1))
    }
}

/// Rows carrying an error marker.
pub open spec fn count_error_rows<T: TypedCouchDocument>(rows: Seq<DocResponse<T>>) -> int
    decreases rows.len(),
{
    if rows.len() == 0 {
        0
    } else {
        (if rows[0].error is Some {
            1int
        } else {
            0int
        }) + count_error_rows(rows.skip(1))
    }
}

/// Error-free rows whose embedded document has a reserved internal identity.
pub open spec fn count_internal_rows<T: TypedCouchDocument>(rows: Seq<DocResponse<T>>) -> int
    decreases rows.len(),
{
    if rows.len() == 0 {
        0
    } else {
        (if rows[0].error is None && rows[0].doc is Some && internal_doc_id(
            rows[0].doc->0.id_spec(),
        ) {
            1int
        } else {
            0int
        }) + count_internal_rows(rows.skip(1))
    }
}

/// Assembly keeps `N - E - I` rows: of `N` raw rows, the `E` carrying an
/// error marker and the `I` holding internal documents are dropped, and
/// nothing else is, provided every error-free row embeds a document.
pub proof fn lemma_total_rows_accounting<T: TypedCouchDocument>(rows: Seq<DocResponse<T>>)
    requires
        forall|j: int| 0 <= j < rows.len() ==> ((#[trigger] rows[j]).error is None ==> rows[j].doc is Some),
    ensures
        kept_rows(rows).len() == rows.len() - count_error_rows(rows) - count_internal_rows(rows),
    decreases rows.len(),
{
    if rows.len() > 0 {
        assert(forall|j: int| 0 <= j < rows.skip(1).len() ==> #[trigger] rows.skip(1)[j] == rows[j + 1]);
        lemma_total_rows_accounting(rows.skip(1));
    }
}

/// No more rows survive assembly than came in.
pub proof fn lemma_kept_rows_bound<T: TypedCouchDocument>(rows: Seq<DocResponse<T>>)
    ensures
        kept_rows(rows).len() <= rows.len(),
    decreases rows.len(),
{
    if rows.len() > 0 {
        lemma_kept_rows_bound(rows.skip(1));
    }
}

/// The documents that decode out of a sequence of raw JSON values; values
/// of unexpected shape are dropped.
pub open spec fn decoded_values<T: TypedCouchDocument>(vals: Seq<JsonValue>) -> Seq<T>
    decreases vals.len(),
{
    if vals.len() == 0 {
        Seq::empty()
    } else if T::decodable_spec(vals[0]) {
        seq![T::decoded_spec(vals[0])] + decoded_values::<T>(vals.skip(1))
    } else {
        decoded_values::<T>(vals.skip(1))
    }
}

/// No more documents decode out of a value sequence than came in.
pub proof fn lemma_decoded_values_bound<T: TypedCouchDocument>(vals: Seq<JsonValue>)
    ensures
        decoded_values::<T>(vals).len() <= vals.len(),
    decreases vals.len(),
{
    if vals.len() > 0 {
        lemma_decoded_values_bound::<T>(vals.skip(1));
    }
}

/// An ordered, finite collection of documents with pagination metadata:
/// `offset` is where the page starts, `bookmark` continues it, and
/// `total_rows` counts what this collection actually holds.
#[derive(Debug)]
pub struct DocumentCollection<T: TypedCouchDocument> {
    pub offset: Option<u32>,
    pub rows: Vec<T>,
    pub total_rows: u32,
    pub bookmark: Option<String>,
}

impl<T: TypedCouchDocument> Default for DocumentCollection<T> {
    fn default() -> (r: Self)
        ensures
            r.offset is None,
            r.rows@ == Seq::<T>::empty(),
            r.total_rows == 0,
            r.bookmark is None,
    {
        DocumentCollection { offset: None, rows: Vec::new(), total_rows: 0, bookmark: None }
    }
}

impl<T: TypedCouchDocument> DocumentCollection<T> {
    /// Assembles a collection from a raw multi-document response: rows with
    /// an error marker and rows holding internal documents are dropped, in
    /// server order, and `total_rows` counts the kept rows only.
    pub fn new(doc: AllDocsResponse<T>) -> (r: DocumentCollection<T>)
        requires
            doc.rows@.len() <= u32::MAX,
        ensures
            r.rows@ == kept_rows(doc.rows@),
            r.total_rows == kept_rows(doc.rows@).len(),
            r.offset == doc.offset,
            r.bookmark is None,
    {
        let AllDocsResponse { total_rows: _, offset, mut rows } = doc;
        let ghost orig = rows@;
        let mut items: Vec<T> = Vec::new();
        proof {
            assert(orig.skip(0) =~= orig);
            assert(kept_rows(orig.take(0)) =~= Seq::<T>::empty());
        }
        let mut taken: usize = 0;
        while rows.len() > 0
        invariant
            orig.len() <= usize::MAX,
            taken + rows@.len() == orig.len(),
            rows@ == orig.skip(taken as int),
            items@ == kept_rows(orig.take(taken as int)),
        decreases rows@.len(),
        {
            let ghost k = taken as int;
            let row = rows.remove(0);
            proof {
                assert(row == orig[k]);
                assert(rows@ =~= orig.skip(k + 1));
                assert(orig.take(k + 1) =~= orig.take(k) + seq![orig[k]]);
                lemma_kept_rows_concat(orig.take(k), seq![orig[k]]);
                lemma_kept_rows_single(orig[k]);
            }
            if row.error.is_none() {
                match row.doc {
                    Some(d) => {
                        let id = d.get_id();
                        let internal = if id.as_str().is_empty() {
                            false
                        } else {
                            id.as_str().get_char(0) == '_'
                        };
                        if !internal {
                            items.push(d);
                        }
                    },
                    None => {},
                }
            }
            taken = taken + 1;
        }
        proof {
            assert(orig.take(taken as int) =~= orig);
            lemma_kept_rows_bound(orig);
        }
        let total = items.len() as u32;
        DocumentCollection { offset, total_rows: total, rows: items, bookmark: None }
    }

    /// Wraps an already-materialized sequence of documents as a collection.
    pub fn new_from_documents(docs: Vec<T>, bookmark: Option<String>) -> (r: DocumentCollection<T>)
        requires
            docs@.len() <= u32::MAX,
        ensures
            r.rows@ == docs@,
            r.total_rows == docs@.len(),
            r.offset == Some(0u32),
            r.bookmark == bookmark,
    {
        let total = docs.len() as u32;
        DocumentCollection { offset: Some(0), total_rows: total, rows: docs, bookmark }
    }

    /// Decodes a sequence of raw JSON values into documents; a value of
    /// unexpected shape is dropped rather than failing the collection.
    /// `total_rows` counts the entries actually included after that
    /// filtering, never the raw value count.
    pub fn new_from_values(docs: Vec<JsonValue>, bookmark: Option<String>) -> (r:
        DocumentCollection<T>)
        requires
            docs@.len() <= u32::MAX,
        ensures
            r.rows@ == decoded_values::<T>(docs@),
            r.total_rows == decoded_values::<T>(docs@).len(),
            r.offset == Some(0u32),
            r.bookmark == bookmark,
    {
        let mut docs = docs;
        let ghost orig = docs@;
        let mut items: Vec<T> = Vec::new();
        proof {
            assert(orig.skip(0) =~= orig);
            assert(decoded_values::<T>(orig.take(0)) =~= Seq::<T>::empty());
        }
        let mut taken: usize = 0;
        while docs.len() > 0
        invariant
            orig.len() <= usize::MAX,
            taken + docs@.len() == orig.len(),
            docs@ == orig.skip(taken as int),
            items@ == decoded_values::<T>(orig.take(taken as int)),
        decreases docs@.len(),
        {
            let ghost k = taken as int;
            let v = docs.remove(0);
            proof {
                assert(v == orig[k]);
                assert(docs@ =~= orig.skip(k + 1));
                assert(orig.take(k + 1) =~= orig.take(k) + seq![orig[k]]);
                lemma_decoded_values_concat::<T>(orig.take(k), seq![orig[k]]);
                lemma_decoded_values_single::<T>(orig[k]);
            }
            match T::from_json(v) {
                Some(d) => items.push(d),
                None => {},
            }
            taken = taken + 1;
        }
        proof {
            assert(orig.take(taken as int) =~= orig);
            lemma_decoded_values_bound::<T>(orig);
        }
        let total = items.len() as u32;
        DocumentCollection { offset: Some(0), total_rows: total, rows: items, bookmark }
    }

    /// The documents this collection holds.
    pub fn get_data(&self) -> (r: &Vec<T>)
        ensures
            r == &self.rows,
    {
        &self.rows
    }
}

/// Assembly distributes over splitting the row sequence.
pub proof fn lemma_kept_rows_concat<T: TypedCouchDocument>(
    e1: Seq<DocResponse<T>>,
    e2: Seq<DocResponse<T>>,
)
    ensures
        kept_rows(e1 + e2) == kept_rows(e1) + kept_rows(e2),
    decreases e1.len(),
{
    if e1.len() == 0 {
        assert(e1 + e2 =~= e2);
        assert(kept_rows(e1) + kept_rows(e2) =~= kept_rows(e2));
    } else {
        assert((e1 + e2).skip(1) =~= e1.skip(1) + e2);
        lemma_kept_rows_concat(e1.skip(1), e2);
        if keep_row(e1[0]) {
            assert(seq![e1[0].doc->0] + (kept_rows(e1.skip(1)) + kept_rows(e2)) =~= (seq![
                e1[0].doc->0,
            ] + kept_rows(e1.skip(1))) + kept_rows(e2));
        }
    }
}

/// What assembly makes of a single row.
pub proof fn lemma_kept_rows_single<T: TypedCouchDocument>(r: DocResponse<T>)
    ensures
        kept_rows(seq![r]) == if keep_row(r) {
            seq![r.doc->0]
        } else {
            Seq::<T>::empty()
        },
{
    reveal_with_fuel(kept_rows, 2);
    assert(seq![r].skip(1) =~= Seq::<DocResponse<T>>::empty());
    if keep_row(r) {
        assert(seq![r.doc->0] + kept_rows(seq![r].skip(1)) =~= seq![r.doc->0]);
    }
}

/// Decoding distributes over splitting the value sequence.
pub proof fn lemma_decoded_values_concat<T: TypedCouchDocument>(e1: Seq<JsonValue>, e2: Seq<JsonValue>)
    ensures
        decoded_values::<T>(e1 + e2) == decoded_values::<T>(e1) + decoded_values::<T>(e2),
    decreases e1.len(),
{
    if e1.len() == 0 {
        assert(e1 + e2 =~= e2);
        assert(decoded_values::<T>(e1) + decoded_values::<T>(e2) =~= decoded_values::<T>(e2));
    } else {
        assert((e1 + e2).skip(1) =~= e1.skip(1) + e2);
        lemma_decoded_values_concat::<T>(e1.skip(1), e2);
        if T::decodable_spec(e1[0]) {
            assert(seq![T::decoded_spec(e1[0])] + (decoded_values::<T>(e1.skip(1))
                + decoded_values::<T>(e2)) =~= (seq![T::decoded_spec(e1[0])]
                + decoded_values::<T>(e1.skip(1))) + decoded_values::<T>(e2));
        }
    }
}

/// What decoding makes of a single value.
pub proof fn lemma_decoded_values_single<T: TypedCouchDocument>(v: JsonValue)
    ensures
        decoded_values::<T>(seq![v]) == if T::decodable_spec(v) {
            seq![T::decoded_spec(v)]
        } else {
            Seq::<T>::empty()
        },
{
    reveal_with_fuel(decoded_values, 2);
    assert(seq![v].skip(1) =~= Seq::<JsonValue>::empty());
    if T::decodable_spec(v) {
        assert(seq![T::decoded_spec(v)] + decoded_values::<T>(seq![v].skip(1)) =~= seq![
            T::decoded_spec(v),
        ]);
    }
}

} // verus!
