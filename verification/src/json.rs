//! A plain model of JSON values: the wire shapes the database speaks are
//! stated and verified over this type.

use vstd::prelude::*;

verus! {

/// A JSON integer: a sign and a magnitude, covering the signed and the
/// unsigned 64-bit ranges alike.
#[derive(Debug, Clone, Copy, PartialEq, Eq, Structural)]
pub struct JsonNumber {
    pub negative: bool,
    pub magnitude: u64,
}

impl JsonNumber {
    /// The integer this number stands for.
    pub open spec fn int_value(self) -> int {
        if self.negative {
            -(self.magnitude as int)
        } else {
            self.magnitude as int
        }
    }

    pub fn from_u64(n: u64) -> (r: JsonNumber)
        ensures
            r.int_value() == n as int,
            !r.negative,
    {
        JsonNumber { negative: false, magnitude: n }
    }

    pub fn from_i64(n: i64) -> (r: JsonNumber)
        ensures
            r.int_value() == n as int,
    {
        if n >= 0 {
            JsonNumber { negative: false, magnitude: n as u64 }
        } else {
            let mag = ((-(n + 1)) as u64) + 1;
            JsonNumber { negative: true, magnitude: mag }
        }
    }
}

/// A JSON value. Numbers are integers: the database wire shapes this layer
/// interprets carry counts, offsets and limits, never fractions.
#[derive(Debug, PartialEq, Eq)]
pub enum JsonValue {
    Null,
    Bool(bool),
    Number(JsonNumber),
    Text(String),
    Array(Vec<JsonValue>),
    Object(Vec<(String, JsonValue)>),
}

/// The value bound to `key` in an entry list: the first entry wins.
pub open spec fn obj_lookup<V>(entries: Seq<(String, V)>, key: Seq<char>) -> Option<V>
    decreases entries.len(),
{
    if entries.len() == 0 {
        None
    } else if entries[0].0@ == key {
        Some(entries[0].1)
    } else {
        obj_lookup(entries.skip(1), key)
    }
}

/// Splitting an entry list leaves lookups to the left half, then the right.
pub proof fn lemma_obj_lookup_concat<V>(
    e1: Seq<(String, V)>,
    e2: Seq<(String, V)>,
    key: Seq<char>,
)
    ensures
        obj_lookup(e1 + e2, key) == match obj_lookup(e1, key) {
            Some(v) => Some(v),
            None => obj_lookup(e2, key),
        },
    decreases e1.len(),
{
    if e1.len() == 0 {
        assert(e1 + e2 =~= e2);
    } else {
        assert((e1 + e2).skip(1) =~= e1.skip(1) + e2);
        lemma_obj_lookup_concat(e1.skip(1), e2, key);
    }
}

impl JsonValue {
    pub open spec fn is_object(self) -> bool {
        self is Object
    }

    /// What an object binds `key` to; `None` on any other value.
    pub open spec fn lookup(self, key: Seq<char>) -> Option<JsonValue> {
        match self {
            JsonValue::Object(entries) => obj_lookup(entries@, key),
            _ => None,
        }
    }

    /// The text an object binds `key` to; empty when the field is absent or
    /// not a string.
    pub open spec fn text_field(self, key: Seq<char>) -> Seq<char> {
        match self.lookup(key) {
            Some(JsonValue::Text(s)) => s@,
            _ => Seq::empty(),
        }
    }

    /// The text an object binds `key` to, when there is one.
    pub open spec fn opt_text_field(self, key: Seq<char>) -> Option<Seq<char>> {
        match self.lookup(key) {
            Some(JsonValue::Text(s)) => Some(s@),
            _ => None,
        }
    }

    /// The boolean an object binds `key` to, when there is one.
    pub open spec fn opt_bool_field(self, key: Seq<char>) -> Option<bool> {
        match self.lookup(key) {
            Some(JsonValue::Bool(b)) => Some(b),
            _ => None,
        }
    }
}

/// Structural equivalence of two JSON values: the same shape, character for
/// character and digit for digit.
pub open spec fn json_eq(a: JsonValue, b: JsonValue) -> bool
    decreases a,
{
    match (a, b) {
        (JsonValue::Null, JsonValue::Null) => true,
        (JsonValue::Bool(x), JsonValue::Bool(y)) => x == y,
        (JsonValue::Number(x), JsonValue::Number(y)) => x == y,
        (JsonValue::Text(x), JsonValue::Text(y)) => x@ == y@,
        (JsonValue::Array(x), JsonValue::Array(y)) => x@.len() == y@.len() && (forall|i: int|
            0 <= i < x@.len() ==> json_eq(#[trigger] x@[i], y@[i])),
        (JsonValue::Object(x), JsonValue::Object(y)) => x@.len() == y@.len() && (forall|i: int|
            0 <= i < x@.len() ==> (#[trigger] x@[i]).0@ == y@[i].0@ && json_eq(x@[i].1, y@[i].1)),
        _ => false,
    }
}

/// Character-for-character equality of two string slices.
pub fn str_eq(a: &str, b: &str) -> (r: bool)
    ensures
        r == (a@ == b@),
{
    let alen = a.unicode_len();
    let blen = b.unicode_len();
    if alen != blen {
        proof {
            assert(a@ != b@) by {
                if a@ == b@ {
                    assert(a@.len() == b@.len());
                }
            }
        }
        return false;
    }
    let mut i: usize = 0;
    while i < alen
        invariant
            i <= alen,
            alen == a@.len(),
            blen == b@.len(),
            alen == blen,
            forall|j: int| 0 <= j < i ==> a@[j] == b@[j],
        decreases alen - i,
    {
        if a.get_char(i) != b.get_char(i) {
            proof {
                assert(a@ != b@) by {
                    if a@ == b@ {
                        assert(a@[i as int] == b@[i as int]);
                    }
                }
            }
            return false;
        }
        i = i + 1;
    }
    proof {
        assert(a@ =~= b@);
    }
    true
}

/// Finds the first entry whose key reads `key`.
pub fn obj_find<V>(entries: &Vec<(String, V)>, key: &str) -> (r: Option<usize>)
    ensures
        match r {
            Some(i) => {
                &&& i < entries@.len()
                &&& entries@[i as int].0@ == key@
                &&& obj_lookup(entries@, key@) == Some(entries@[i as int].1)
                &&& forall|j: int| 0 <= j < i ==> entries@[j].0@ != key@
            },
            None => obj_lookup(entries@, key@) is None,
        },
{
    let mut i: usize = 0;
    proof {
        assert(entries@.skip(0) =~= entries@);
    }
    while i < entries.len()
        invariant
            i <= entries@.len(),
            obj_lookup(entries@, key@) == obj_lookup(entries@.skip(i as int), key@),
            forall|j: int| 0 <= j < i ==> entries@[j].0@ != key@,
        decreases entries@.len() - i,
    {
        proof {
            assert(entries@.skip(i as int)[0] == entries@[i as int]);
            assert(entries@.skip(i as int).skip(1) =~= entries@.skip(i as int + 1));
        }
        if str_eq(entries[i].0.as_str(), key) {
            return Some(i);
        }
        i = i + 1;
    }
    None
}

/// Binds `key` to `value` in an object's entry list: the first entry with
/// that key is replaced, or a new entry is appended.
pub fn obj_insert<V>(entries: &mut Vec<(String, V)>, key: &str, value: V)
    ensures
        obj_lookup(final(entries)@, key@) == Some(value),
        forall|k2: Seq<char>| k2 != key@ ==> obj_lookup(final(entries)@, k2) == obj_lookup(
            old(entries)@,
            k2,
        ),
        final(entries)@.len() == old(entries)@.len() + (if obj_lookup(old(entries)@, key@)
            is None {
            1int
        } else {
            0int
        }),
{
    let ghost value_g = value;
    let key_string = key.to_owned();
    match obj_find(entries, key) {
        Some(i) => {
            let ghost before = entries@;
            entries.remove(i);
            entries.insert(i, (key_string, value));
            proof {
                let after = entries@;
                let prefix = before.take(i as int);
                assert(before =~= prefix + seq![before[i as int]] + before.skip(i as int + 1));
                assert(after =~= prefix + seq![after[i as int]] + before.skip(i as int + 1));
                lemma_replace_first_match(prefix, before[i as int], after[i as int],
                    before.skip(i as int + 1), key@, value_g);
            }
        },
        None => {
            let ghost before = entries@;
            entries.push((key_string, value));
            proof {
                let after = entries@;
                assert(after =~= before + seq![after[after.len() - 1]]);
                lemma_obj_lookup_concat(before, seq![after[after.len() - 1]], key@);
                lemma_obj_lookup_single(after[after.len() - 1], key@);
                assert(obj_lookup(seq![after[after.len() - 1]], key@) == Some(value_g));
                assert forall|k2: Seq<char>| k2 != key@ implies obj_lookup(after, k2)
                    == obj_lookup(before, k2) by {
                    lemma_obj_lookup_concat(before, seq![after[after.len() - 1]], k2);
                    lemma_obj_lookup_single(after[after.len() - 1], k2);
                    assert(obj_lookup(seq![after[after.len() - 1]], k2) is None);
                }
            }
        },
    }
}

/// Removes the first entry holding `key` and hands its value out; every
/// other key keeps its binding.
pub fn obj_take<V>(entries: &mut Vec<(String, V)>, key: &str) -> (r: Option<V>)
    ensures
        r == obj_lookup(old(entries)@, key@),
        forall|k2: Seq<char>| k2 != key@ ==> obj_lookup(final(entries)@, k2) == obj_lookup(
            old(entries)@,
            k2,
        ),
{
    match obj_find(entries, key) {
        Some(i) => {
            let ghost before = entries@;
            let entry = entries.remove(i);
            proof {
                let after = entries@;
                let prefix = before.take(i as int);
                let suffix = before.skip(i as int + 1);
                assert(before =~= prefix + seq![before[i as int]] + suffix);
                assert(after =~= prefix + suffix);
                assert forall|k2: Seq<char>| k2 != key@ implies obj_lookup(after, k2)
                    == obj_lookup(before, k2) by {
                    lemma_obj_lookup_concat(prefix + seq![before[i as int]], suffix, k2);
                    lemma_obj_lookup_concat(prefix, seq![before[i as int]], k2);
                    lemma_obj_lookup_concat(prefix, suffix, k2);
                    lemma_obj_lookup_single(before[i as int], k2);
                }
            }
            Some(entry.1)
        },
        None => None,
    }
}

/// What a one-entry list binds.
proof fn lemma_obj_lookup_single<V>(entry: (String, V), key: Seq<char>)
    ensures
        obj_lookup(seq![entry], key) == if entry.0@ == key {
            Some(entry.1)
        } else {
            Option::<V>::None
        },
{
    reveal_with_fuel(obj_lookup, 2);
    assert(seq![entry].skip(1) =~= Seq::<(String, V)>::empty());
}

/// Replacing the first entry holding `key` rebinds `key` and nothing else.
proof fn lemma_replace_first_match<V>(
    prefix: Seq<(String, V)>,
    old_entry: (String, V),
    new_entry: (String, V),
    suffix: Seq<(String, V)>,
    key: Seq<char>,
    value: V,
)
    requires
        forall|j: int| 0 <= j < prefix.len() ==> prefix[j].0@ != key,
        old_entry.0@ == key,
        new_entry.0@ == key,
        new_entry.1 == value,
    ensures
        obj_lookup(prefix + seq![new_entry] + suffix, key) == Some(value),
        forall|k2: Seq<char>| k2 != key ==> obj_lookup(prefix + seq![new_entry] + suffix, k2)
            == obj_lookup(prefix + seq![old_entry] + suffix, k2),
{
    lemma_obj_lookup_concat(prefix + seq![new_entry], suffix, key);
    lemma_obj_lookup_concat(prefix, seq![new_entry], key);
    lemma_obj_lookup_single(new_entry, key);
    assert(obj_lookup(prefix, key) is None) by {
        lemma_no_match_none(prefix, key);
    }
    assert forall|k2: Seq<char>| k2 != key implies obj_lookup(prefix + seq![new_entry] + suffix, k2)
        == obj_lookup(prefix + seq![old_entry] + suffix, k2) by {
        lemma_obj_lookup_concat(prefix + seq![new_entry], suffix, k2);
        lemma_obj_lookup_concat(prefix, seq![new_entry], k2);
        lemma_obj_lookup_concat(prefix + seq![old_entry], suffix, k2);
        lemma_obj_lookup_concat(prefix, seq![old_entry], k2);
        lemma_obj_lookup_single(new_entry, k2);
        lemma_obj_lookup_single(old_entry, k2);
        assert(obj_lookup(seq![new_entry], k2) is None);
        assert(obj_lookup(seq![old_entry], k2) is None);
    }
}

/// An entry list with no entry holding `key` binds it to nothing.
proof fn lemma_no_match_none<V>(entries: Seq<(String, V)>, key: Seq<char>)
    requires
        forall|j: int| 0 <= j < entries.len() ==> entries[j].0@ != key,
    ensures
        obj_lookup(entries, key) is None,
    decreases entries.len(),
{
    if entries.len() > 0 {
        lemma_no_match_none(entries.skip(1), key);
    }
}


/// The character of one decimal digit.
pub open spec fn digit_char_spec(d: nat) -> char {
    if d == 0 { '0' }
    else if d == 1 { '1' }
    else if d == 2 { '2' }
    else if d == 3 { '3' }
    else if d == 4 { '4' }
    else if d == 5 { '5' }
    else if d == 6 { '6' }
    else if d == 7 { '7' }
    else if d == 8 { '8' }
    else { '9' }
}

/// The character of one hexadecimal digit, lower case.
pub open spec fn hex_char_spec(d: nat) -> char {
    if d < 10 { digit_char_spec(d) }
    else if d == 10 { 'a' }
    else if d == 11 { 'b' }
    else if d == 12 { 'c' }
    else if d == 13 { 'd' }
    else if d == 14 { 'e' }
    else { 'f' }
}

/// The decimal digits of a number, most significant first.
pub open spec fn dec_digits(n: nat) -> Seq<char>
    decreases n,
{
    if n < 10 {
        seq![digit_char_spec(n)]
    } else {
        dec_digits(n / 10) + seq![digit_char_spec(n % 10)]
    }
}

/// The text of a JSON number: an optional minus sign and decimal digits.
pub open spec fn number_text(n: JsonNumber) -> Seq<char> {
    if n.negative {
        seq!['-'] + dec_digits(n.magnitude as nat)
    } else {
        dec_digits(n.magnitude as nat)
    }
}

/// How one character stands inside a JSON string literal: quote and
/// backslash escaped, control characters as `\u00XX`, all else verbatim.
pub open spec fn escape_char(c: char) -> Seq<char> {
    if c == '"' {
        seq!['\\', '"']
    } else if c == '\\' {
        seq!['\\', '\\']
    } else if (c as int) < 32 {
        seq!['\\', 'u', '0', '0', hex_char_spec(((c as int) / 16) as nat), hex_char_spec(
            ((c as int) % 16) as nat,
        )]
    } else {
        seq![c]
    }
}

/// A character sequence as it stands inside a JSON string literal.
pub open spec fn escape_text(s: Seq<char>) -> Seq<char>
    decreases s.len(),
{
    if s.len() == 0 {
        Seq::empty()
    } else {
        escape_char(s[0]) + escape_text(s.skip(1))
    }
}

/// The canonical text of a JSON value: no spaces, object keys in the order
/// held.
pub open spec fn json_text(v: JsonValue) -> Seq<char>
    decreases v,
{
    match v {
        JsonValue::Null => seq!['n', 'u', 'l', 'l'],
        JsonValue::Bool(b) => if b {
            seq!['t', 'r', 'u', 'e']
        } else {
            seq!['f', 'a', 'l', 's', 'e']
        },
        JsonValue::Number(n) => number_text(n),
        JsonValue::Text(s) => seq!['"'] + escape_text(s@) + seq!['"'],
        JsonValue::Array(items) => seq!['['] + array_items_text(items@) + seq![']'],
        JsonValue::Object(entries) => seq!['{'] + object_entries_text(entries@) + seq!['}'],
    }
}

/// The comma-separated texts of an array's items.
pub open spec fn array_items_text(items: Seq<JsonValue>) -> Seq<char>
    decreases items,
{
    if items.len() == 0 {
        Seq::empty()
    } else if items.len() == 1 {
        json_text(items[0])
    } else {
        json_text(items[0]) + seq![','] + array_items_text(items.skip(1))
    }
}

/// The text of one object entry: quoted key, colon, value.
pub open spec fn object_entry_text(entry: (String, JsonValue)) -> Seq<char>
    decreases entry,
{
    seq!['"'] + escape_text(entry.0@) + seq!['"', ':'] + json_text(entry.1)
}

/// The comma-separated texts of an object's entries.
pub open spec fn object_entries_text(entries: Seq<(String, JsonValue)>) -> Seq<char>
    decreases entries,
{
    if entries.len() == 0 {
        Seq::empty()
    } else if entries.len() == 1 {
        object_entry_text(entries[0])
    } else {
        object_entry_text(entries[0]) + seq![','] + object_entries_text(entries.skip(1))
    }
}

/// The character of one decimal digit.
fn digit_char(d: u8) -> (c: char)
    requires
        d < 10,
    ensures
        c == digit_char_spec(d as nat),
{
    match d {
        0 => '0',
        1 => '1',
        2 => '2',
        3 => '3',
        4 => '4',
        5 => '5',
        6 => '6',
        7 => '7',
        8 => '8',
        _ => '9',
    }
}

/// The character of one hexadecimal digit, lower case.
fn hex_char(d: u8) -> (c: char)
    requires
        d < 16,
    ensures
        c == hex_char_spec(d as nat),
{
    match d {
        0 => '0',
        1 => '1',
        2 => '2',
        3 => '3',
        4 => '4',
        5 => '5',
        6 => '6',
        7 => '7',
        8 => '8',
        9 => '9',
        10 => 'a',
        11 => 'b',
        12 => 'c',
        13 => 'd',
        14 => 'e',
        _ => 'f',
    }
}

/// Appends the decimal digits of `n`.
fn push_dec_digits(out: &mut Vec<char>, n: u64)
    ensures
        final(out)@ == old(out)@ + dec_digits(n as nat),
    decreases n,
{
    if n < 10 {
        out.push(digit_char(n as u8));
        proof {
            assert(final(out)@ =~= old(out)@ + dec_digits(n as nat));
        }
    } else {
        push_dec_digits(out, n / 10);
        out.push(digit_char((n % 10) as u8));
        proof {
            assert(final(out)@ =~= old(out)@ + dec_digits(n as nat));
        }
    }
}

/// Splitting a character sequence splits its escaped text.
proof fn lemma_escape_text_concat(a: Seq<char>, b: Seq<char>)
    ensures
        escape_text(a + b) == escape_text(a) + escape_text(b),
    decreases a.len(),
{
    if a.len() == 0 {
        assert(a + b =~= b);
        assert(escape_text(a) + escape_text(b) =~= escape_text(b));
    } else {
        assert((a + b).skip(1) =~= a.skip(1) + b);
        lemma_escape_text_concat(a.skip(1), b);
        assert(escape_char(a[0]) + (escape_text(a.skip(1)) + escape_text(b)) =~= (escape_char(a[0])
            + escape_text(a.skip(1))) + escape_text(b));
    }
}

/// How one character escapes.
proof fn lemma_escape_text_single(c: char)
    ensures
        escape_text(seq![c]) == escape_char(c),
{
    reveal_with_fuel(escape_text, 2);
    assert(seq![c].skip(1) =~= Seq::<char>::empty());
    assert(escape_char(c) + escape_text(seq![c].skip(1)) =~= escape_char(c));
}

/// Appends a character sequence as it stands inside a JSON string literal.
fn push_escaped(out: &mut Vec<char>, s: &str)
    ensures
        final(out)@ == old(out)@ + escape_text(s@),
{
    let n = s.unicode_len();
    let mut i: usize = 0;
    proof {
        assert(s@.take(0) =~= Seq::<char>::empty());
        assert(old(out)@ + escape_text(s@.take(0)) =~= old(out)@);
    }
    while i < n
        invariant
            i <= n,
            n == s@.len(),
            out@ == old(out)@ + escape_text(s@.take(i as int)),
        decreases n - i,
    {
        let ghost k = i as int;
        let c = s.get_char(i);
        proof {
            assert(s@.take(k + 1) =~= s@.take(k) + seq![c]);
            lemma_escape_text_concat(s@.take(k), seq![c]);
            lemma_escape_text_single(c);
        }
        if c == '"' {
            out.push('\\');
            out.push('"');
        } else if c == '\\' {
            out.push('\\');
            out.push('\\');
        } else if (c as u32) < 32 {
            let code = c as u32;
            out.push('\\');
            out.push('u');
            out.push('0');
            out.push('0');
            out.push(hex_char((code / 16) as u8));
            out.push(hex_char((code % 16) as u8));
        } else {
            out.push(c);
        }
        proof {
            assert(out@ =~= old(out)@ + escape_text(s@.take(k + 1)));
        }
        i = i + 1;
    }
    proof {
        assert(s@.take(n as int) =~= s@);
    }
}

/// Splitting a non-empty item sequence splits its text at a comma.
proof fn lemma_array_items_text_concat(a: Seq<JsonValue>, b: Seq<JsonValue>)
    requires
        a.len() >= 1,
        b.len() >= 1,
    ensures
        array_items_text(a + b) == array_items_text(a) + seq![','] + array_items_text(b),
    decreases a.len(),
{
    if a.len() == 1 {
        assert((a + b).skip(1) =~= b);
        assert((a + b)[0] == a[0]);
        assert((a + b).len() >= 2);
    } else {
        assert((a + b).skip(1) =~= a.skip(1) + b);
        lemma_array_items_text_concat(a.skip(1), b);
        assert(json_text(a[0]) + seq![','] + (array_items_text(a.skip(1)) + seq![',']
            + array_items_text(b)) =~= (json_text(a[0]) + seq![','] + array_items_text(a.skip(1)))
            + seq![','] + array_items_text(b));
        assert((a + b)[0] == a[0]);
    }
}

/// Splitting a non-empty entry sequence splits its text at a comma.
proof fn lemma_object_entries_text_concat(
    a: Seq<(String, JsonValue)>,
    b: Seq<(String, JsonValue)>,
)
    requires
        a.len() >= 1,
        b.len() >= 1,
    ensures
        object_entries_text(a + b) == object_entries_text(a) + seq![','] + object_entries_text(b),
    decreases a.len(),
{
    if a.len() == 1 {
        assert((a + b).skip(1) =~= b);
        assert((a + b)[0] == a[0]);
        assert((a + b).len() >= 2);
    } else {
        assert((a + b).skip(1) =~= a.skip(1) + b);
        lemma_object_entries_text_concat(a.skip(1), b);
        assert(object_entry_text(a[0]) + seq![','] + (object_entries_text(a.skip(1)) + seq![',']
            + object_entries_text(b)) =~= (object_entry_text(a[0]) + seq![',']
            + object_entries_text(a.skip(1))) + seq![','] + object_entries_text(b));
        assert((a + b)[0] == a[0]);
    }
}

/// Appends the canonical text of a JSON value.
fn push_json(out: &mut Vec<char>, v: &JsonValue)
    ensures
        final(out)@ == old(out)@ + json_text(*v),
    decreases *v,
{
    match v {
        JsonValue::Null => {
            out.push('n');
            out.push('u');
            out.push('l');
            out.push('l');
            proof {
                assert(final(out)@ =~= old(out)@ + json_text(*v));
            }
        },
        JsonValue::Bool(b) => {
            if *b {
                out.push('t');
                out.push('r');
                out.push('u');
                out.push('e');
            } else {
                out.push('f');
                out.push('a');
                out.push('l');
                out.push('s');
                out.push('e');
            }
            proof {
                assert(final(out)@ =~= old(out)@ + json_text(*v));
            }
        },
        JsonValue::Number(num) => {
            if num.negative {
                out.push('-');
            }
            push_dec_digits(out, num.magnitude);
            proof {
                assert(final(out)@ =~= old(out)@ + json_text(*v));
            }
        },
        JsonValue::Text(s) => {
            out.push('"');
            push_escaped(out, s.as_str());
            out.push('"');
            proof {
                assert(final(out)@ =~= old(out)@ + json_text(*v));
            }
        },
        JsonValue::Array(items) => {
            out.push('[');
            let ghost base = out@;
            let mut i: usize = 0;
            while i < items.len()
                invariant
                    i <= items@.len(),
                    *v == JsonValue::Array(*items),
                    out@ == base + array_items_text(items@.take(i as int)),
                decreases items@.len() - i,
            {
                proof {
                    assert(decreases_to!(*v => v->Array_0));
                }
                if i > 0 {
                    out.push(',');
                }
                push_json(out, &items[i]);
                proof {
                    let k = i as int;
                    assert(items@.take(k + 1) =~= items@.take(k) + seq![items@[k]]);
                    if k == 0 {
                        assert(items@.take(1) =~= seq![items@[0]]);
                        reveal_with_fuel(array_items_text, 2);
                        assert(out@ =~= base + array_items_text(items@.take(k + 1)));
                    } else {
                        lemma_array_items_text_concat(items@.take(k), seq![items@[k]]);
                        assert(array_items_text(seq![items@[k]]) == json_text(items@[k]));
                        assert(out@ =~= base + array_items_text(items@.take(k + 1)));
                    }
                }
                i = i + 1;
            }
            proof {
                assert(items@.take(items@.len() as int) =~= items@);
            }
            out.push(']');
            proof {
                assert(final(out)@ =~= old(out)@ + json_text(*v));
            }
        },
        JsonValue::Object(entries) => {
            out.push('{');
            let ghost base = out@;
            let mut i: usize = 0;
            while i < entries.len()
                invariant
                    i <= entries@.len(),
                    *v == JsonValue::Object(*entries),
                    out@ == base + object_entries_text(entries@.take(i as int)),
                decreases entries@.len() - i,
            {
                proof {
                    assert(decreases_to!(*v => v->Object_0));
                }
                if i > 0 {
                    out.push(',');
                }
                out.push('"');
                push_escaped(out, entries[i].0.as_str());
                out.push('"');
                out.push(':');
                push_json(out, &entries[i].1);
                proof {
                    let k = i as int;
                    assert(entries@.take(k + 1) =~= entries@.take(k) + seq![entries@[k]]);
                    if k == 0 {
                        assert(entries@.take(1) =~= seq![entries@[0]]);
                        reveal_with_fuel(object_entries_text, 2);
                        assert(out@ =~= base + object_entries_text(entries@.take(k + 1)));
                    } else {
                        lemma_object_entries_text_concat(entries@.take(k), seq![entries@[k]]);
                        assert(object_entries_text(seq![entries@[k]]) == object_entry_text(
                            entries@[k],
                        ));
                        assert(out@ =~= base + object_entries_text(entries@.take(k + 1)));
                    }
                }
                i = i + 1;
            }
            proof {
                assert(entries@.take(entries@.len() as int) =~= entries@);
            }
            out.push('}');
            proof {
                assert(final(out)@ =~= old(out)@ + json_text(*v));
            }
        },
    }
}

/// Relies on String's FromIterator over char: collecting a character
/// sequence yields a string of exactly those characters, in order.
#[verifier::external_body]
fn chars_to_string(v: &Vec<char>) -> (r: String)
    ensures
        r@ == v@,
{
    v.iter().collect()
}

/// The decimal text of a number.
pub fn u64_to_string(n: u64) -> (r: String)
    ensures
        r@ == dec_digits(n as nat),
{
    let mut out: Vec<char> = Vec::new();
    push_dec_digits(&mut out, n);
    chars_to_string(&out)
}

impl JsonValue {
    /// The canonical text of this value.
    pub fn to_string(&self) -> (r: String)
        ensures
            r@ == json_text(*self),
    {
        let mut out: Vec<char> = Vec::new();
        push_json(&mut out, self);
        chars_to_string(&out)
    }
}


/// Which values decode into a given type, and to what: the analogue of
/// the wire-decoding bound every document and view type carries.
pub trait JsonDecodable: Sized {
    /// Which JSON values decode into this type.
    spec fn decodable_spec(v: JsonValue) -> bool;

    /// The value a decodable JSON value decodes to.
    spec fn decoded_spec(v: JsonValue) -> Self;

    /// Decodes a JSON value, consuming it.
    fn from_json(v: JsonValue) -> (r: Option<Self>)
        ensures
            r is Some <==> Self::decodable_spec(v),
            match r {
                Some(d) => d == Self::decoded_spec(v),
                None => true,
            },
    ;
}

/// The permissive decode target: every JSON value decodes to itself, a
/// null one included.
impl JsonDecodable for JsonValue {
    open spec fn decodable_spec(v: JsonValue) -> bool {
        true
    }

    open spec fn decoded_spec(v: JsonValue) -> JsonValue {
        v
    }

    fn from_json(v: JsonValue) -> (r: Option<JsonValue>) {
        Some(v)
    }
}

/// The strict text decode target: only a JSON string decodes, so a null
/// value position is refused.
impl JsonDecodable for String {
    open spec fn decodable_spec(v: JsonValue) -> bool {
        v is Text
    }

    open spec fn decoded_spec(v: JsonValue) -> String {
        v->Text_0
    }

    fn from_json(v: JsonValue) -> (r: Option<String>) {
        match v {
            JsonValue::Text(s) => Some(s),
            _ => None,
        }
    }
}

/// The strict boolean decode target.
impl JsonDecodable for bool {
    open spec fn decodable_spec(v: JsonValue) -> bool {
        v is Bool
    }

    open spec fn decoded_spec(v: JsonValue) -> bool {
        v->Bool_0
    }

    fn from_json(v: JsonValue) -> (r: Option<bool>) {
        match v {
            JsonValue::Bool(b) => Some(b),
            _ => None,
        }
    }
}

/// The strict unsigned-number decode target.
impl JsonDecodable for u64 {
    open spec fn decodable_spec(v: JsonValue) -> bool {
        v matches JsonValue::Number(n) && !n.negative
    }

    open spec fn decoded_spec(v: JsonValue) -> u64 {
        v->Number_0.magnitude
    }

    fn from_json(v: JsonValue) -> (r: Option<u64>) {
        match v {
            JsonValue::Number(n) => if !n.negative {
                Some(n.magnitude)
            } else {
                None
            },
            _ => None,
        }
    }
}

} // verus!
