//! Selector-based find queries: the query abstraction, its builders, and
//! its exact JSON shape.

use crate::json::{json_eq, json_text, obj_insert, obj_lookup, obj_take, str_eq, JsonNumber,
    JsonValue};
use crate::document::TypedCouchDocument;
use vstd::pervasive::unreached;
use vstd::prelude::*;

verus! {

/// Sort direction abstraction.
#[derive(Debug, Clone, Copy, PartialEq, Eq, Structural)]
pub enum SortDirection {
    Desc,
    Asc,
}

/// The wire text of a sort direction.
pub open spec fn dir_text(d: SortDirection) -> Seq<char> {
    match d {
        SortDirection::Desc => "desc"@,
        SortDirection::Asc => "asc"@,
    }
}

impl From<String> for SortDirection {
    /// `"desc"` reads descending; anything else ascending.
    fn from(original: String) -> (r: SortDirection) {
        if str_eq(original.as_str(), "desc") {
            SortDirection::Desc
        } else {
            SortDirection::Asc
        }
    }
}

impl vstd::std_specs::convert::FromSpecImpl<String> for SortDirection {
    open spec fn obeys_from_spec() -> bool {
        true
    }

    open spec fn from_spec(original: String) -> SortDirection {
        if original@ == "desc"@ {
            SortDirection::Desc
        } else {
            SortDirection::Asc
        }
    }
}

/// Sort spec content: ordered field/direction pairs, one per field name.
#[derive(Debug, Clone, PartialEq, Eq)]
pub struct SortSpecContent {
    pub entries: Vec<(String, SortDirection)>,
}

impl SortSpecContent {
    pub fn new() -> (r: SortSpecContent)
        ensures
            r.entries@.len() == 0,
    {
        SortSpecContent { entries: Vec::new() }
    }

    /// Binds a field to a direction: an existing entry for the field is
    /// replaced, a new field goes last.
    pub fn insert(&mut self, key: &str, dir: SortDirection)
        ensures
            obj_lookup(final(self).entries@, key@) == Some(dir),
            forall|k2: Seq<char>| k2 != key@ ==> obj_lookup(final(self).entries@, k2) == obj_lookup(
                old(self).entries@,
                k2,
            ),
    {
        obj_insert(&mut self.entries, key, dir);
    }

    pub fn contains_key(&self, key: &str) -> (r: bool)
        ensures
            r == (obj_lookup(self.entries@, key@) is Some),
    {
        match crate::json::obj_find(&self.entries, key) {
            Some(_) => true,
            None => false,
        }
    }

    pub fn get(&self, key: &str) -> (r: Option<SortDirection>)
        ensures
            r == obj_lookup(self.entries@, key@),
    {
        match crate::json::obj_find(&self.entries, key) {
            Some(i) => Some(self.entries[i].1),
            None => None,
        }
    }
}

/// Sort spec abstraction: a bare field name, or field/direction pairs.
#[derive(Debug, Clone, PartialEq, Eq)]
pub enum SortSpec {
    Simple(String),
    Complex(SortSpecContent),
}

/// Index spec abstraction: a design document, or a design document and
/// index name pair.
#[derive(Debug, Clone, PartialEq, Eq)]
pub enum IndexSpec {
    DesignDocument(String),
    IndexName(String, String),
}

/// The JSON shape of one sort spec.
pub open spec fn sort_spec_json(s: SortSpec, v: JsonValue) -> bool {
    match s {
        SortSpec::Simple(f) => v matches JsonValue::Text(t) && t@ == f@,
        SortSpec::Complex(c) => v matches JsonValue::Object(e) && e@.len() == c.entries@.len() && (
        forall|i: int|
            0 <= i < e@.len() ==> (#[trigger] e@[i]).0@ == c.entries@[i].0@ && (e@[i].1 matches
                JsonValue::Text(t) && t@ == dir_text(c.entries@[i].1))),
    }
}

/// The JSON shape of an index spec.
pub open spec fn index_spec_json(ix: IndexSpec, v: JsonValue) -> bool {
    match ix {
        IndexSpec::DesignDocument(d) => v matches JsonValue::Text(t) && t@ == d@,
        IndexSpec::IndexName(first, second) => v matches JsonValue::Array(items) && items@.len()
            == 2 && (items@[0] matches JsonValue::Text(a) && a@ == first@) && (items@[1] matches
            JsonValue::Text(b) && b@ == second@),
    }
}

/// `$ne` operation.
#[derive(Debug, Clone, PartialEq, Eq)]
pub struct NotEqual {
    pub ne: Option<String>,
}

/// The JSON shape of a `$ne` selector clause.
pub open spec fn not_equal_json(n: NotEqual, v: JsonValue) -> bool {
    v matches JsonValue::Object(e) && e@.len() == 1 && e@[0].0@ == "$ne"@ && (match n.ne {
        Some(s) => e@[0].1 matches JsonValue::Text(t) && t@ == s@,
        None => e@[0].1 is Null,
    })
}

/// Select-all selector.
#[derive(Debug, Clone, PartialEq, Eq)]
pub struct SelectAll {
    pub id: Option<NotEqual>,
}

/// The JSON shape of a select-all selector: the identity field differs
/// from null, which every document's does.
pub open spec fn select_all_json(s: SelectAll, v: JsonValue) -> bool {
    match s.id {
        Some(n) => v matches JsonValue::Object(e) && e@.len() == 1 && e@[0].0@ == "_id"@
            && not_equal_json(n, e@[0].1),
        None => v matches JsonValue::Object(e) && e@.len() == 0,
    }
}

impl Default for SelectAll {
    fn default() -> (r: Self)
        ensures
            r.id matches Some(n) && n.ne is None,
    {
        SelectAll { id: Some(NotEqual { ne: None }) }
    }
}

impl SelectAll {
    /// This selector's JSON value.
    pub fn as_value(&self) -> (r: JsonValue)
        ensures
            select_all_json(*self, r),
    {
        match &self.id {
            Some(n) => {
                let mut inner: Vec<(String, JsonValue)> = Vec::new();
                let ne_value = match &n.ne {
                    Some(s) => JsonValue::Text(s.clone()),
                    None => JsonValue::Null,
                };
                inner.push(("$ne".to_owned(), ne_value));
                let mut outer: Vec<(String, JsonValue)> = Vec::new();
                outer.push(("_id".to_owned(), JsonValue::Object(inner)));
                JsonValue::Object(outer)
            },
            None => JsonValue::Object(Vec::new()),
        }
    }
}

/// Find query abstraction: a selector with paging, sorting and index
/// directives.
#[derive(Debug, PartialEq, Eq)]
pub struct FindQuery {
    pub selector: JsonValue,
    pub limit: Option<u64>,
    pub skip: Option<u64>,
    pub sort: Vec<SortSpec>,
    pub fields: Option<Vec<String>>,
    pub use_index: Option<IndexSpec>,
    pub r: Option<i32>,
    pub bookmark: Option<String>,
    pub update: Option<bool>,
    pub stable: Option<bool>,
    pub stale: Option<String>,
    pub execution_stats: Option<bool>,
}

/// One where a field is on the wire, zero where it is left off.
pub open spec fn seg(present: bool) -> int {
    if present {
        1int
    } else {
        0int
    }
}

/// The JSON shape of a whole find query: exactly the set fields, each at
/// its place in wire order, each bound to its field's shape. The running
/// offsets say where each present field stands.
pub open spec fn find_query_json(q: FindQuery, v: JsonValue) -> bool {
    let n0 = 0int;
    let n1 = n0 + seg(q.bookmark is Some);
    let n2 = n1 + seg(q.execution_stats is Some);
    let n3 = n2 + seg(q.fields is Some);
    let n4 = n3 + seg(q.limit is Some);
    let n5 = n4 + seg(q.r is Some);
    let n6 = n5 + 1;
    let n7 = n6 + seg(q.skip is Some);
    let n8 = n7 + seg(q.sort.len() > 0);
    let n9 = n8 + seg(q.stable is Some);
    let n10 = n9 + seg(q.stale is Some);
    let n11 = n10 + seg(q.update is Some);
    let n12 = n11 + seg(q.use_index is Some);
    v matches JsonValue::Object(e) && {
        &&& e@.len() == n12
        &&& match q.bookmark {
            Some(b) => e@[n0].0@ == "bookmark"@ && (e@[n0].1 matches JsonValue::Text(t) && t@
                == b@),
            None => true,
        }
        &&& match q.execution_stats {
            Some(x) => e@[n1].0@ == "execution_stats"@ && (e@[n1].1 == JsonValue::Bool(x)),
            None => true,
        }
        &&& match q.fields {
            Some(fs) => e@[n2].0@ == "fields"@ && (e@[n2].1 matches JsonValue::Array(items)
                && items@.len() == fs@.len() && (forall|i: int|
                0 <= i < items@.len() ==> ((#[trigger] items@[i]) matches JsonValue::Text(t) && t@
                    == fs@[i]@))),
            None => true,
        }
        &&& match q.limit {
            Some(l) => e@[n3].0@ == "limit"@ && (e@[n3].1 matches JsonValue::Number(n)
                && !n.negative && n.magnitude == l),
            None => true,
        }
        &&& match q.r {
            Some(rv) => e@[n4].0@ == "r"@ && (e@[n4].1 matches JsonValue::Number(n)
                && n.int_value() == rv as int),
            None => true,
        }
        &&& e@[n5].0@ == "selector"@ && json_eq(e@[n5].1, q.selector)
        &&& q.sort.len() > 0 ==> e@[n7].0@ == "sort"@ && (e@[n7].1 matches JsonValue::Array(items)
            && items@.len() == q.sort@.len() && (forall|i: int|
            0 <= i < items@.len() ==> sort_spec_json(q.sort@[i], #[trigger] items@[i])))
        &&& match q.skip {
            Some(s) => e@[n6].0@ == "skip"@ && (e@[n6].1 matches JsonValue::Number(n)
                && !n.negative && n.magnitude == s),
            None => true,
        }
        &&& match q.stable {
            Some(x) => e@[n8].0@ == "stable"@ && (e@[n8].1 == JsonValue::Bool(x)),
            None => true,
        }
        &&& match q.stale {
            Some(s) => e@[n9].0@ == "stale"@ && (e@[n9].1 matches JsonValue::Text(t) && t@ == s@),
            None => true,
        }
        &&& match q.update {
            Some(x) => e@[n10].0@ == "update"@ && (e@[n10].1 == JsonValue::Bool(x)),
            None => true,
        }
        &&& match q.use_index {
            Some(ix) => e@[n11].0@ == "use_index"@ && index_spec_json(ix, e@[n11].1),
            None => true,
        }
    }
}

impl FindQuery {
    /// A query of `selector` alone: no paging, no sorting, no directives.
    pub fn new(selector: JsonValue) -> (r: Self)
        ensures
            r.selector == selector,
            r.limit is None,
            r.skip is None,
            r.sort@.len() == 0,
            r.fields is None,
            r.use_index is None,
            r.r is None,
            r.bookmark is None,
            r.update is None,
            r.stable is None,
            r.stale is None,
            r.execution_stats is None,
    {
        FindQuery {
            selector,
            limit: None,
            skip: None,
            sort: Vec::new(),
            fields: None,
            use_index: None,
            r: None,
            bookmark: None,
            update: None,
            stable: None,
            stale: None,
            execution_stats: None,
        }
    }

    /// The query every document matches.
    pub fn find_all() -> (r: Self)
        ensures
            select_all_json(SelectAll { id: Some(NotEqual { ne: None }) }, r.selector),
            r.limit is None,
            r.skip is None,
            r.sort@.len() == 0,
            r.fields is None,
            r.use_index is None,
            r.r is None,
            r.bookmark is None,
            r.update is None,
            r.stable is None,
            r.stale is None,
            r.execution_stats is None,
    {
        let all = SelectAll::default();
        Self::new(all.as_value())
    }
}


/// A JSON array of the given strings.
fn strings_array(fs: &Vec<String>) -> (r: JsonValue)
    ensures
        r matches JsonValue::Array(items) && items@.len() == fs@.len() && (forall|i: int|
            0 <= i < items@.len() ==> ((#[trigger] items@[i]) matches JsonValue::Text(t) && t@
                == fs@[i]@)),
{
    let mut items: Vec<JsonValue> = Vec::new();
    let mut i: usize = 0;
    while i < fs.len()
        invariant
            i <= fs@.len(),
            items@.len() == i,
            forall|j: int|
                0 <= j < i ==> ((#[trigger] items@[j]) matches JsonValue::Text(t) && t@
                    == fs@[j]@),
        decreases fs@.len() - i,
    {
        items.push(JsonValue::Text(fs[i].clone()));
        i = i + 1;
    }
    JsonValue::Array(items)
}

/// The wire text of a sort direction, as a string.
fn dir_string(d: SortDirection) -> (r: String)
    ensures
        r@ == dir_text(d),
{
    match d {
        SortDirection::Desc => "desc".to_owned(),
        SortDirection::Asc => "asc".to_owned(),
    }
}

/// The JSON value of one sort spec.
fn sort_spec_value(s: &SortSpec) -> (r: JsonValue)
    ensures
        sort_spec_json(*s, r),
{
    match s {
        SortSpec::Simple(f) => JsonValue::Text(f.clone()),
        SortSpec::Complex(c) => {
            let mut entries: Vec<(String, JsonValue)> = Vec::new();
            let mut i: usize = 0;
            while i < c.entries.len()
                invariant
                    i <= c.entries@.len(),
                    entries@.len() == i,
                    forall|j: int|
                        0 <= j < i ==> (#[trigger] entries@[j]).0@ == c.entries@[j].0@ && (
                        entries@[j].1 matches JsonValue::Text(t) && t@ == dir_text(
                            c.entries@[j].1,
                        )),
                decreases c.entries@.len() - i,
            {
                let key = c.entries[i].0.clone();
                let dir = dir_string(c.entries[i].1);
                entries.push((key, JsonValue::Text(dir)));
                i = i + 1;
            }
            JsonValue::Object(entries)
        },
    }
}

/// The JSON value of an index spec.
fn index_spec_value(ix: &IndexSpec) -> (r: JsonValue)
    ensures
        index_spec_json(*ix, r),
{
    match ix {
        IndexSpec::DesignDocument(d) => JsonValue::Text(d.clone()),
        IndexSpec::IndexName(first, second) => {
            let mut items: Vec<JsonValue> = Vec::new();
            items.push(JsonValue::Text(first.clone()));
            items.push(JsonValue::Text(second.clone()));
            JsonValue::Array(items)
        },
    }
}

impl FindQuery {
    /// This query's JSON value: exactly the set fields, in wire order.
    #[verifier::rlimit(100)]
    pub fn as_value(&self) -> (r: JsonValue)
        ensures
            find_query_json(*self, r),
    {
        let mut entries: Vec<(String, JsonValue)> = Vec::new();
        match &self.bookmark {
            Some(b) => { entries.push(("bookmark".to_owned(), JsonValue::Text(b.clone()))); },
            None => {},
        }
        match &self.execution_stats {
            Some(b) => { entries.push(("execution_stats".to_owned(), JsonValue::Bool(*b))); },
            None => {},
        }
        match &self.fields {
            Some(fs) => { entries.push(("fields".to_owned(), strings_array(fs))); },
            None => {},
        }
        match &self.limit {
            Some(l) => {
                entries.push(("limit".to_owned(), JsonValue::Number(JsonNumber::from_u64(*l))));
            },
            None => {},
        }
        match &self.r {
            Some(rv) => {
                entries.push(
                    ("r".to_owned(), JsonValue::Number(JsonNumber::from_i64(*rv as i64))),
                );
            },
            None => {},
        }
        entries.push(("selector".to_owned(), self.selector.deep_clone()));
        match &self.skip {
            Some(s) => {
                entries.push(("skip".to_owned(), JsonValue::Number(JsonNumber::from_u64(*s))));
            },
            None => {},
        }
        if self.sort.len() > 0 {
            let mut items: Vec<JsonValue> = Vec::new();
            let mut i: usize = 0;
            while i < self.sort.len()
                invariant
                    i <= self.sort@.len(),
                    items@.len() == i,
                    forall|j: int|
                        0 <= j < i ==> sort_spec_json(self.sort@[j], #[trigger] items@[j]),
                decreases self.sort@.len() - i,
            {
                items.push(sort_spec_value(&self.sort[i]));
                i = i + 1;
            }
            entries.push(("sort".to_owned(), JsonValue::Array(items)));
        }
        match &self.stable {
            Some(b) => { entries.push(("stable".to_owned(), JsonValue::Bool(*b))); },
            None => {},
        }
        match &self.stale {
            Some(s) => { entries.push(("stale".to_owned(), JsonValue::Text(s.clone()))); },
            None => {},
        }
        match &self.update {
            Some(b) => { entries.push(("update".to_owned(), JsonValue::Bool(*b))); },
            None => {},
        }
        match &self.use_index {
            Some(ix) => { entries.push(("use_index".to_owned(), index_spec_value(ix))); },
            None => {},
        }
        proof {
            let q = *self;
            let e = entries@;
            let n0 = 0int;
            let n1 = n0 + seg(q.bookmark is Some);
            let n2 = n1 + seg(q.execution_stats is Some);
            let n3 = n2 + seg(q.fields is Some);
            let n4 = n3 + seg(q.limit is Some);
            let n5 = n4 + seg(q.r is Some);
            let n6 = n5 + 1;
            let n7 = n6 + seg(q.skip is Some);
            let n8 = n7 + seg(q.sort.len() > 0);
            let n9 = n8 + seg(q.stable is Some);
            let n10 = n9 + seg(q.stale is Some);
            let n11 = n10 + seg(q.update is Some);
            let n12 = n11 + seg(q.use_index is Some);
            assert(e.len() == n12);
            assert(match q.bookmark {
                Some(b) => e[n0].0@ == "bookmark"@ && (e[n0].1 matches JsonValue::Text(t) && t@
                    == b@),
                None => true,
            });
            assert(match q.execution_stats {
                Some(x) => e[n1].0@ == "execution_stats"@ && (e[n1].1 == JsonValue::Bool(x)),
                None => true,
            });
            assert(match q.fields {
                Some(fs) => e[n2].0@ == "fields"@ && (e[n2].1 matches JsonValue::Array(items)
                    && items@.len() == fs@.len() && (forall|i: int|
                    0 <= i < items@.len() ==> ((#[trigger] items@[i]) matches JsonValue::Text(t)
                        && t@ == fs@[i]@))),
                None => true,
            });
            assert(match q.limit {
                Some(l) => e[n3].0@ == "limit"@ && (e[n3].1 matches JsonValue::Number(n)
                    && !n.negative && n.magnitude == l),
                None => true,
            });
            assert(match q.r {
                Some(rv) => e[n4].0@ == "r"@ && (e[n4].1 matches JsonValue::Number(n)
                    && n.int_value() == rv as int),
                None => true,
            });
            assert(e[n5].0@ == "selector"@ && json_eq(e[n5].1, q.selector));
            assert(match q.skip {
                Some(s) => e[n6].0@ == "skip"@ && (e[n6].1 matches JsonValue::Number(n)
                    && !n.negative && n.magnitude == s),
                None => true,
            });
            assert(q.sort.len() > 0 ==> e[n7].0@ == "sort"@ && (e[n7].1 matches JsonValue::Array(
                items,
            ) && items@.len() == q.sort@.len() && (forall|i: int|
                0 <= i < items@.len() ==> sort_spec_json(q.sort@[i], #[trigger] items@[i]))));
            assert(match q.stable {
                Some(x) => e[n8].0@ == "stable"@ && (e[n8].1 == JsonValue::Bool(x)),
                None => true,
            });
            assert(match q.stale {
                Some(s) => e[n9].0@ == "stale"@ && (e[n9].1 matches JsonValue::Text(t) && t@
                    == s@),
                None => true,
            });
            assert(match q.update {
                Some(x) => e[n10].0@ == "update"@ && (e[n10].1 == JsonValue::Bool(x)),
                None => true,
            });
            assert(match q.use_index {
                Some(ix) => e[n11].0@ == "use_index"@ && index_spec_json(ix, e[n11].1),
                None => true,
            });
        }
        JsonValue::Object(entries)
    }

    /// Sets the page size.
    pub fn limit(self, limit: u64) -> (r: Self)
        ensures
            r == (FindQuery { limit: Some(limit), ..self }),
    {
        FindQuery { limit: Some(limit), ..self }
    }

    /// Sets how many matches to pass over first.
    pub fn skip(self, skip: u64) -> (r: Self)
        ensures
            r == (FindQuery { skip: Some(skip), ..self }),
    {
        FindQuery { skip: Some(skip), ..self }
    }

    /// Sets the sort order.
    pub fn sort(self, sort: Vec<SortSpec>) -> (r: Self)
        ensures
            r == (FindQuery { sort, ..self }),
    {
        FindQuery { sort, ..self }
    }

    /// Restricts the returned fields.
    pub fn fields(self, fields: Vec<String>) -> (r: Self)
        ensures
            r == (FindQuery { fields: Some(fields), ..self }),
    {
        FindQuery { fields: Some(fields), ..self }
    }

    /// Names the index to serve the query from.
    pub fn use_index(self, use_index: IndexSpec) -> (r: Self)
        ensures
            r == (FindQuery { use_index: Some(use_index), ..self }),
    {
        FindQuery { use_index: Some(use_index), ..self }
    }

    /// Sets the read quorum.
    pub fn r(self, r_value: i32) -> (r: Self)
        ensures
            r == (FindQuery { r: Some(r_value), ..self }),
    {
        FindQuery { r: Some(r_value), ..self }
    }

    /// Continues from a bookmark.
    pub fn bookmark(self, bookmark: &str) -> (r: Self)
        ensures
            r.bookmark matches Some(b) && b@ == bookmark@,
            r == (FindQuery { bookmark: r.bookmark, ..self }),
    {
        let b = bookmark.to_owned();
        FindQuery { bookmark: Some(b), ..self }
    }

    /// Sets whether the index may be updated first.
    pub fn update(self, update: bool) -> (r: Self)
        ensures
            r == (FindQuery { update: Some(update), ..self }),
    {
        FindQuery { update: Some(update), ..self }
    }

    /// Asks for a stable view of the index.
    pub fn stable(self, stable: bool) -> (r: Self)
        ensures
            r == (FindQuery { stable: Some(stable), ..self }),
    {
        FindQuery { stable: Some(stable), ..self }
    }

    /// Allows a stale index.
    pub fn stale(self, stale: &str) -> (r: Self)
        ensures
            r.stale matches Some(s) && s@ == stale@,
            r == (FindQuery { stale: r.stale, ..self }),
    {
        let s = stale.to_owned();
        FindQuery { stale: Some(s), ..self }
    }

    /// Asks the server to report execution statistics.
    pub fn execution_stats(self, execution_stats: bool) -> (r: Self)
        ensures
            r == (FindQuery { execution_stats: Some(execution_stats), ..self }),
    {
        FindQuery { execution_stats: Some(execution_stats), ..self }
    }

    /// This query's canonical text.
    pub fn to_string(&self) -> (r: String)
        ensures
            exists|v: JsonValue| find_query_json(*self, v) && r@ == json_text(v),
    {
        let v = self.as_value();
        v.to_string()
    }
}


/// The twelve find-query field names are pairwise distinct.
proof fn lemma_find_keys_distinct()
    ensures
        "bookmark"@ != "execution_stats"@,
        "bookmark"@ != "fields"@,
        "bookmark"@ != "limit"@,
        "bookmark"@ != "r"@,
        "bookmark"@ != "selector"@,
        "bookmark"@ != "skip"@,
        "bookmark"@ != "sort"@,
        "bookmark"@ != "stable"@,
        "bookmark"@ != "stale"@,
        "bookmark"@ != "update"@,
        "bookmark"@ != "use_index"@,
        "execution_stats"@ != "fields"@,
        "execution_stats"@ != "limit"@,
        "execution_stats"@ != "r"@,
        "execution_stats"@ != "selector"@,
        "execution_stats"@ != "skip"@,
        "execution_stats"@ != "sort"@,
        "execution_stats"@ != "stable"@,
        "execution_stats"@ != "stale"@,
        "execution_stats"@ != "update"@,
        "execution_stats"@ != "use_index"@,
        "fields"@ != "limit"@,
        "fields"@ != "r"@,
        "fields"@ != "selector"@,
        "fields"@ != "skip"@,
        "fields"@ != "sort"@,
        "fields"@ != "stable"@,
        "fields"@ != "stale"@,
        "fields"@ != "update"@,
        "fields"@ != "use_index"@,
        "limit"@ != "r"@,
        "limit"@ != "selector"@,
        "limit"@ != "skip"@,
        "limit"@ != "sort"@,
        "limit"@ != "stable"@,
        "limit"@ != "stale"@,
        "limit"@ != "update"@,
        "limit"@ != "use_index"@,
        "r"@ != "selector"@,
        "r"@ != "skip"@,
        "r"@ != "sort"@,
        "r"@ != "stable"@,
        "r"@ != "stale"@,
        "r"@ != "update"@,
        "r"@ != "use_index"@,
        "selector"@ != "skip"@,
        "selector"@ != "sort"@,
        "selector"@ != "stable"@,
        "selector"@ != "stale"@,
        "selector"@ != "update"@,
        "selector"@ != "use_index"@,
        "skip"@ != "sort"@,
        "skip"@ != "stable"@,
        "skip"@ != "stale"@,
        "skip"@ != "update"@,
        "skip"@ != "use_index"@,
        "sort"@ != "stable"@,
        "sort"@ != "stale"@,
        "sort"@ != "update"@,
        "sort"@ != "use_index"@,
        "stable"@ != "stale"@,
        "stable"@ != "update"@,
        "stable"@ != "use_index"@,
        "stale"@ != "update"@,
        "stale"@ != "use_index"@,
        "update"@ != "use_index"@,
{
    reveal_strlit("bookmark");
    reveal_strlit("execution_stats");
    reveal_strlit("fields");
    reveal_strlit("limit");
    reveal_strlit("r");
    reveal_strlit("selector");
    reveal_strlit("skip");
    reveal_strlit("sort");
    reveal_strlit("stable");
    reveal_strlit("stale");
    reveal_strlit("update");
    reveal_strlit("use_index");
    assert("bookmark"@.len() == 8 && "execution_stats"@.len() == 15 && "fields"@.len() == 6 && "limit"@.len() == 5 && "r"@.len() == 1 && "selector"@.len() == 8 && "skip"@.len() == 4 && "sort"@.len() == 4 && "stable"@.len() == 6 && "stale"@.len() == 5 && "update"@.len() == 6 && "use_index"@.len() == 9);
    assert("bookmark"@[0] == 'b' && "selector"@[0] == 's');
    assert("fields"@[0] == 'f' && "stable"@[0] == 's' && "update"@[0] == 'u');
    assert("limit"@[0] == 'l' && "stale"@[0] == 's');
    assert("skip"@[1] == 'k' && "sort"@[1] == 'o');
    assert("stable"@[2] == 'a' && "update"@[2] == 'd');
    assert("stale"@[2] == 'a' && "limit"@[2] == 'm');
}

/// The direction a wire text reads as.
pub open spec fn parsed_dir(t: Seq<char>) -> SortDirection {
    if t == "desc"@ {
        SortDirection::Desc
    } else {
        SortDirection::Asc
    }
}

/// Whether a JSON value reads as one sort spec: a bare field name, or
/// field/direction pairs whose directions read `desc` or `asc`.
pub open spec fn sort_spec_parsable(v: JsonValue) -> bool {
    match v {
        JsonValue::Text(_) => true,
        JsonValue::Object(e) => forall|i: int|
            0 <= i < e@.len() ==> ((#[trigger] e@[i]).1 matches JsonValue::Text(t) && (t@ == "desc"@
                || t@ == "asc"@)),
        _ => false,
    }
}

/// What a sort spec value parses to.
pub open spec fn sort_spec_parsed(v: JsonValue, s: SortSpec) -> bool {
    match v {
        JsonValue::Text(t) => s matches SortSpec::Simple(f) && f@ == t@,
        JsonValue::Object(e) => s matches SortSpec::Complex(c) && c.entries@.len() == e@.len() && (
        forall|i: int|
            0 <= i < e@.len() ==> (#[trigger] c.entries@[i]).0@ == e@[i].0@ && c.entries@[i].1
                == parsed_dir(e@[i].1->Text_0@)),
        _ => false,
    }
}

/// Whether a JSON value reads as an index spec.
pub open spec fn index_spec_parsable(v: JsonValue) -> bool {
    match v {
        JsonValue::Text(_) => true,
        JsonValue::Array(items) => items@.len() == 2 && items@[0] is Text && items@[1] is Text,
        _ => false,
    }
}

/// What an index spec value parses to.
pub open spec fn index_spec_parsed(v: JsonValue, ix: IndexSpec) -> bool {
    match v {
        JsonValue::Text(t) => ix matches IndexSpec::DesignDocument(d) && d@ == t@,
        JsonValue::Array(items) => ix matches IndexSpec::IndexName(first, second) && first@
            == items@[0]->Text_0@ && second@ == items@[1]->Text_0@,
        _ => false,
    }
}

/// Whether a JSON value reads as a find query: a selector is owed, and
/// every directive that is present must have its field's shape.
pub open spec fn find_query_parsable(v: JsonValue) -> bool {
    &&& v is Object
    &&& v.lookup("selector"@) is Some
    &&& match v.lookup("limit"@) {
        Some(x) => x matches JsonValue::Number(n) && !n.negative,
        None => true,
    }
    &&& match v.lookup("skip"@) {
        Some(x) => x matches JsonValue::Number(n) && !n.negative,
        None => true,
    }
    &&& match v.lookup("sort"@) {
        Some(x) => x matches JsonValue::Array(items) && (forall|i: int|
            0 <= i < items@.len() ==> sort_spec_parsable(#[trigger] items@[i])),
        None => true,
    }
    &&& match v.lookup("fields"@) {
        Some(x) => x matches JsonValue::Array(items) && (forall|i: int|
            0 <= i < items@.len() ==> (#[trigger] items@[i]) is Text),
        None => true,
    }
    &&& match v.lookup("use_index"@) {
        Some(x) => index_spec_parsable(x),
        None => true,
    }
    &&& match v.lookup("r"@) {
        Some(x) => x matches JsonValue::Number(n) && i32::MIN <= n.int_value() <= i32::MAX,
        None => true,
    }
    &&& match v.lookup("bookmark"@) {
        Some(x) => x is Text,
        None => true,
    }
    &&& match v.lookup("update"@) {
        Some(x) => x is Bool,
        None => true,
    }
    &&& match v.lookup("stable"@) {
        Some(x) => x is Bool,
        None => true,
    }
    &&& match v.lookup("stale"@) {
        Some(x) => x is Text,
        None => true,
    }
    &&& match v.lookup("execution_stats"@) {
        Some(x) => x is Bool,
        None => true,
    }
}

/// Parses one sort spec value.
fn parse_sort_spec(v: JsonValue) -> (s: SortSpec)
    requires
        sort_spec_parsable(v),
    ensures
        sort_spec_parsed(v, s),
{
    match v {
        JsonValue::Text(t) => SortSpec::Simple(t),
        JsonValue::Object(mut entries) => {
            let ghost e0 = entries@;
            let mut out: Vec<(String, SortDirection)> = Vec::new();
            let n_entries = entries.len();
            proof {
                assert(e0.len() == n_entries);
                assert(e0.skip(0) =~= e0);
            }
            let mut taken: usize = 0;
            while entries.len() > 0
                invariant
                    e0.len() <= usize::MAX,
                    taken + entries@.len() == e0.len(),
                    entries@ == e0.skip(taken as int),
                    out@.len() == taken,
                    forall|j: int|
                        0 <= j < e0.len() ==> ((#[trigger] e0[j]).1 matches JsonValue::Text(t) && (
                        t@ == "desc"@ || t@ == "asc"@)),
                    forall|j: int|
                        0 <= j < taken ==> (#[trigger] out@[j]).0@ == e0[j].0@ && out@[j].1
                            == parsed_dir(e0[j].1->Text_0@),
                decreases entries@.len(),
            {
                let ghost k = taken as int;
                let entry = entries.remove(0);
                proof {
                    assert(entry == e0[k]);
                    assert(entries@ =~= e0.skip(k + 1));
                }
                let (field, val) = entry;
                match val {
                    JsonValue::Text(t) => {
                        let d = if str_eq(t.as_str(), "desc") {
                            SortDirection::Desc
                        } else {
                            SortDirection::Asc
                        };
                        out.push((field, d));
                    },
                    _ => {
                        proof {
                            assert(false);
                        }
                    },
                }
                taken = taken + 1;
            }
            SortSpec::Complex(SortSpecContent { entries: out })
        },
        _ => unreached(),
    }
}

/// Parses an index spec value.
fn parse_index_spec(v: JsonValue) -> (ix: IndexSpec)
    requires
        index_spec_parsable(v),
    ensures
        index_spec_parsed(v, ix),
{
    match v {
        JsonValue::Text(t) => IndexSpec::DesignDocument(t),
        JsonValue::Array(mut items) => {
            let first = items.remove(0);
            let second = items.remove(0);
            match (first, second) {
                (JsonValue::Text(a), JsonValue::Text(b)) => IndexSpec::IndexName(a, b),
                _ => unreached(),
            }
        },
        _ => unreached(),
    }
}

impl FindQuery {
    /// Reads a find query out of its JSON value, as it stands on the
    /// wire; fields beyond the known ones are ignored.
    #[verifier::rlimit(100)]
    pub fn new_from_value(query: JsonValue) -> (r: Self)
        requires
            find_query_parsable(query),
        ensures
            Some(r.selector) == query.lookup("selector"@),
            match query.lookup("limit"@) {
                Some(x) => r.limit == Some(x->Number_0.magnitude),
                None => r.limit is None,
            },
            match query.lookup("skip"@) {
                Some(x) => r.skip == Some(x->Number_0.magnitude),
                None => r.skip is None,
            },
            match query.lookup("sort"@) {
                Some(x) => r.sort@.len() == x->Array_0@.len() && (forall|i: int|
                    0 <= i < r.sort@.len() ==> sort_spec_parsed(
                        x->Array_0@[i],
                        #[trigger] r.sort@[i],
                    )),
                None => r.sort@.len() == 0,
            },
            match query.lookup("fields"@) {
                Some(x) => r.fields matches Some(fs) && fs@.len() == x->Array_0@.len() && (forall|
                    i: int,
                |
                    0 <= i < fs@.len() ==> (#[trigger] fs@[i])@ == x->Array_0@[i]->Text_0@),
                None => r.fields is None,
            },
            match query.lookup("use_index"@) {
                Some(x) => r.use_index matches Some(ix) && index_spec_parsed(x, ix),
                None => r.use_index is None,
            },
            match query.lookup("r"@) {
                Some(x) => r.r matches Some(n) && n as int == x->Number_0.int_value(),
                None => r.r is None,
            },
            match query.lookup("bookmark"@) {
                Some(x) => r.bookmark matches Some(b) && b@ == x->Text_0@,
                None => r.bookmark is None,
            },
            match query.lookup("update"@) {
                Some(x) => r.update == Some(x->Bool_0),
                None => r.update is None,
            },
            match query.lookup("stable"@) {
                Some(x) => r.stable == Some(x->Bool_0),
                None => r.stable is None,
            },
            match query.lookup("stale"@) {
                Some(x) => r.stale matches Some(s) && s@ == x->Text_0@,
                None => r.stale is None,
            },
            match query.lookup("execution_stats"@) {
                Some(x) => r.execution_stats == Some(x->Bool_0),
                None => r.execution_stats is None,
            },
    {
        match query {
            JsonValue::Object(mut entries) => {
                let ghost entries0 = entries@;
                proof {
                    lemma_find_keys_distinct();
                }
                let selector = match obj_take(&mut entries, "selector") {
                    Some(v) => v,
                    None => unreached(),
                };
            proof {
                assert(obj_lookup(entries@, "limit"@) == obj_lookup(entries0, "limit"@));
                assert(obj_lookup(entries@, "skip"@) == obj_lookup(entries0, "skip"@));
                assert(obj_lookup(entries@, "sort"@) == obj_lookup(entries0, "sort"@));
                assert(obj_lookup(entries@, "fields"@) == obj_lookup(entries0, "fields"@));
                assert(obj_lookup(entries@, "use_index"@) == obj_lookup(entries0, "use_index"@));
                assert(obj_lookup(entries@, "r"@) == obj_lookup(entries0, "r"@));
                assert(obj_lookup(entries@, "bookmark"@) == obj_lookup(entries0, "bookmark"@));
                assert(obj_lookup(entries@, "update"@) == obj_lookup(entries0, "update"@));
                assert(obj_lookup(entries@, "stable"@) == obj_lookup(entries0, "stable"@));
                assert(obj_lookup(entries@, "stale"@) == obj_lookup(entries0, "stale"@));
                assert(obj_lookup(entries@, "execution_stats"@) == obj_lookup(entries0, "execution_stats"@));
            }
                let limit = match obj_take(&mut entries, "limit") {
                    Some(JsonValue::Number(n)) => Some(n.magnitude),
                    Some(_) => unreached(),
                    None => None,
                };
            proof {
                assert(obj_lookup(entries@, "skip"@) == obj_lookup(entries0, "skip"@));
                assert(obj_lookup(entries@, "sort"@) == obj_lookup(entries0, "sort"@));
                assert(obj_lookup(entries@, "fields"@) == obj_lookup(entries0, "fields"@));
                assert(obj_lookup(entries@, "use_index"@) == obj_lookup(entries0, "use_index"@));
                assert(obj_lookup(entries@, "r"@) == obj_lookup(entries0, "r"@));
                assert(obj_lookup(entries@, "bookmark"@) == obj_lookup(entries0, "bookmark"@));
                assert(obj_lookup(entries@, "update"@) == obj_lookup(entries0, "update"@));
                assert(obj_lookup(entries@, "stable"@) == obj_lookup(entries0, "stable"@));
                assert(obj_lookup(entries@, "stale"@) == obj_lookup(entries0, "stale"@));
                assert(obj_lookup(entries@, "execution_stats"@) == obj_lookup(entries0, "execution_stats"@));
            }
                let skip = match obj_take(&mut entries, "skip") {
                    Some(JsonValue::Number(n)) => Some(n.magnitude),
                    Some(_) => unreached(),
                    None => None,
                };
            proof {
                assert(obj_lookup(entries@, "sort"@) == obj_lookup(entries0, "sort"@));
                assert(obj_lookup(entries@, "fields"@) == obj_lookup(entries0, "fields"@));
                assert(obj_lookup(entries@, "use_index"@) == obj_lookup(entries0, "use_index"@));
                assert(obj_lookup(entries@, "r"@) == obj_lookup(entries0, "r"@));
                assert(obj_lookup(entries@, "bookmark"@) == obj_lookup(entries0, "bookmark"@));
                assert(obj_lookup(entries@, "update"@) == obj_lookup(entries0, "update"@));
                assert(obj_lookup(entries@, "stable"@) == obj_lookup(entries0, "stable"@));
                assert(obj_lookup(entries@, "stale"@) == obj_lookup(entries0, "stale"@));
                assert(obj_lookup(entries@, "execution_stats"@) == obj_lookup(entries0, "execution_stats"@));
            }
                let sort = match obj_take(&mut entries, "sort") {
                    Some(JsonValue::Array(mut items)) => {
                        let ghost items0 = items@;
                        let mut out: Vec<SortSpec> = Vec::new();
                        let n_items = items.len();
                        proof {
                            assert(items0.len() == n_items);
                            assert(items0.skip(0) =~= items0);
                        }
                        let mut taken: usize = 0;
                        while items.len() > 0
                            invariant
                                items0.len() <= usize::MAX,
                                taken + items@.len() == items0.len(),
                                items@ == items0.skip(taken as int),
                                out@.len() == taken,
                                forall|j: int|
                                    0 <= j < items0.len() ==> sort_spec_parsable(
                                        #[trigger] items0[j],
                                    ),
                                forall|j: int|
                                    0 <= j < taken ==> sort_spec_parsed(
                                        items0[j],
                                        #[trigger] out@[j],
                                    ),
                            decreases items@.len(),
                        {
                            let ghost k = taken as int;
                            let item = items.remove(0);
                            proof {
                                assert(item == items0[k]);
                                assert(items@ =~= items0.skip(k + 1));
                            }
                            out.push(parse_sort_spec(item));
                            taken = taken + 1;
                        }
                        out
                    },
                    Some(_) => unreached(),
                    None => Vec::new(),
                };
            proof {
                assert(obj_lookup(entries@, "fields"@) == obj_lookup(entries0, "fields"@));
                assert(obj_lookup(entries@, "use_index"@) == obj_lookup(entries0, "use_index"@));
                assert(obj_lookup(entries@, "r"@) == obj_lookup(entries0, "r"@));
                assert(obj_lookup(entries@, "bookmark"@) == obj_lookup(entries0, "bookmark"@));
                assert(obj_lookup(entries@, "update"@) == obj_lookup(entries0, "update"@));
                assert(obj_lookup(entries@, "stable"@) == obj_lookup(entries0, "stable"@));
                assert(obj_lookup(entries@, "stale"@) == obj_lookup(entries0, "stale"@));
                assert(obj_lookup(entries@, "execution_stats"@) == obj_lookup(entries0, "execution_stats"@));
            }
                let fields = match obj_take(&mut entries, "fields") {
                    Some(JsonValue::Array(mut items)) => {
                        let ghost items0 = items@;
                        let mut out: Vec<String> = Vec::new();
                        let n_items = items.len();
                        proof {
                            assert(items0.len() == n_items);
                            assert(items0.skip(0) =~= items0);
                        }
                        let mut taken: usize = 0;
                        while items.len() > 0
                            invariant
                                items0.len() <= usize::MAX,
                                taken + items@.len() == items0.len(),
                                items@ == items0.skip(taken as int),
                                out@.len() == taken,
                                forall|j: int|
                                    0 <= j < items0.len() ==> (#[trigger] items0[j]) is Text,
                                forall|j: int|
                                    0 <= j < taken ==> (#[trigger] out@[j])@
                                        == items0[j]->Text_0@,
                            decreases items@.len(),
                        {
                            let ghost k = taken as int;
                            let item = items.remove(0);
                            proof {
                                assert(item == items0[k]);
                                assert(items@ =~= items0.skip(k + 1));
                            }
                            match item {
                                JsonValue::Text(t) => {
                                    out.push(t);
                                },
                                _ => {
                                    proof {
                                        assert(false);
                                    }
                                },
                            }
                            taken = taken + 1;
                        }
                        Some(out)
                    },
                    Some(_) => unreached(),
                    None => None,
                };
            proof {
                assert(obj_lookup(entries@, "use_index"@) == obj_lookup(entries0, "use_index"@));
                assert(obj_lookup(entries@, "r"@) == obj_lookup(entries0, "r"@));
                assert(obj_lookup(entries@, "bookmark"@) == obj_lookup(entries0, "bookmark"@));
                assert(obj_lookup(entries@, "update"@) == obj_lookup(entries0, "update"@));
                assert(obj_lookup(entries@, "stable"@) == obj_lookup(entries0, "stable"@));
                assert(obj_lookup(entries@, "stale"@) == obj_lookup(entries0, "stale"@));
                assert(obj_lookup(entries@, "execution_stats"@) == obj_lookup(entries0, "execution_stats"@));
            }
                let use_index = match obj_take(&mut entries, "use_index") {
                    Some(v) => Some(parse_index_spec(v)),
                    None => None,
                };
            proof {
                assert(obj_lookup(entries@, "r"@) == obj_lookup(entries0, "r"@));
                assert(obj_lookup(entries@, "bookmark"@) == obj_lookup(entries0, "bookmark"@));
                assert(obj_lookup(entries@, "update"@) == obj_lookup(entries0, "update"@));
                assert(obj_lookup(entries@, "stable"@) == obj_lookup(entries0, "stable"@));
                assert(obj_lookup(entries@, "stale"@) == obj_lookup(entries0, "stale"@));
                assert(obj_lookup(entries@, "execution_stats"@) == obj_lookup(entries0, "execution_stats"@));
            }
                let r_quorum = match obj_take(&mut entries, "r") {
                    Some(JsonValue::Number(n)) => {
                        let val: i32 = if n.negative {
                            let mag = n.magnitude as i64;
                            (-mag) as i32
                        } else {
                            n.magnitude as i32
                        };
                        Some(val)
                    },
                    Some(_) => unreached(),
                    None => None,
                };
            proof {
                assert(obj_lookup(entries@, "bookmark"@) == obj_lookup(entries0, "bookmark"@));
                assert(obj_lookup(entries@, "update"@) == obj_lookup(entries0, "update"@));
                assert(obj_lookup(entries@, "stable"@) == obj_lookup(entries0, "stable"@));
                assert(obj_lookup(entries@, "stale"@) == obj_lookup(entries0, "stale"@));
                assert(obj_lookup(entries@, "execution_stats"@) == obj_lookup(entries0, "execution_stats"@));
            }
                let bookmark = match obj_take(&mut entries, "bookmark") {
                    Some(JsonValue::Text(t)) => Some(t),
                    Some(_) => unreached(),
                    None => None,
                };
            proof {
                assert(obj_lookup(entries@, "update"@) == obj_lookup(entries0, "update"@));
                assert(obj_lookup(entries@, "stable"@) == obj_lookup(entries0, "stable"@));
                assert(obj_lookup(entries@, "stale"@) == obj_lookup(entries0, "stale"@));
                assert(obj_lookup(entries@, "execution_stats"@) == obj_lookup(entries0, "execution_stats"@));
            }
                let update = match obj_take(&mut entries, "update") {
                    Some(JsonValue::Bool(b)) => Some(b),
                    Some(_) => unreached(),
                    None => None,
                };
            proof {
                assert(obj_lookup(entries@, "stable"@) == obj_lookup(entries0, "stable"@));
                assert(obj_lookup(entries@, "stale"@) == obj_lookup(entries0, "stale"@));
                assert(obj_lookup(entries@, "execution_stats"@) == obj_lookup(entries0, "execution_stats"@));
            }
                let stable = match obj_take(&mut entries, "stable") {
                    Some(JsonValue::Bool(b)) => Some(b),
                    Some(_) => unreached(),
                    None => None,
                };
            proof {
                assert(obj_lookup(entries@, "stale"@) == obj_lookup(entries0, "stale"@));
                assert(obj_lookup(entries@, "execution_stats"@) == obj_lookup(entries0, "execution_stats"@));
            }
                let stale = match obj_take(&mut entries, "stale") {
                    Some(JsonValue::Text(t)) => Some(t),
                    Some(_) => unreached(),
                    None => None,
                };
            proof {
                assert(obj_lookup(entries@, "execution_stats"@) == obj_lookup(entries0, "execution_stats"@));
            }
                let execution_stats = match obj_take(&mut entries, "execution_stats") {
                    Some(JsonValue::Bool(b)) => Some(b),
                    Some(_) => unreached(),
                    None => None,
                };
                FindQuery {
                    selector,
                    limit,
                    skip,
                    sort,
                    fields,
                    use_index,
                    r: r_quorum,
                    bookmark,
                    update,
                    stable,
                    stale,
                    execution_stats,
                }
            },
            _ => unreached(),
        }
    }
}


/// The raw answer of a selector query: matched documents, a continuation
/// bookmark, and the server's warning or error texts.
#[derive(Debug)]
pub struct FindResult<T: TypedCouchDocument> {
    pub docs: Option<Vec<T>>,
    pub warning: Option<String>,
    pub error: Option<String>,
    pub reason: Option<String>,
    pub bookmark: Option<String>,
}

/// The server's explanation of how it would serve a selector query.
#[derive(Debug)]
pub struct ExplainResult {
    pub dbname: String,
    pub index: IndexSpec,
    pub selector: JsonValue,
    pub opts: JsonValue,
    pub limit: u32,
    pub skip: u64,
    pub fields: Vec<String>,
    pub range: JsonValue,
}

} // verus!
