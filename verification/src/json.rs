//! JSON documents as plain data.
//!
//! External tools in this system talk JSON: the debug backend reports frames
//! and variables as JSON records, and the device tool prints launch results
//! as a JSON document.  The logic that reads those documents is verified over
//! [`JsonValue`], a tree of plain values; the unverified rim parses raw bytes
//! and converts them into this type.

use vstd::prelude::*;
use crate::text::str_eq;

verus! {

/// A JSON document.  Numbers that fit an `i64` are kept exactly; any other
/// number is represented by [`JsonValue::BigNum`] and reads as no integer,
/// which is all the logic here ever asks of one.
#[derive(Debug)]
pub enum JsonValue {
    Null,
    Bool(bool),
    Int(i64),
    BigNum,
    Text(String),
    Array(Vec<JsonValue>),
    Object(Vec<(String, JsonValue)>),
}

/// First entry with the given key, if any.
pub open spec fn entries_get(entries: Seq<(String, JsonValue)>, key: Seq<char>) -> Option<
    JsonValue,
>
    decreases entries.len(),
{
    if entries.len() == 0 {
        None
    } else if entries[0].0@ == key {
        Some(entries[0].1)
    } else {
        entries_get(entries.drop_first(), key)
    }
}

/// Member lookup: the value under `key` when the document is an object that
/// has one.
pub open spec fn spec_get(v: JsonValue, key: Seq<char>) -> Option<JsonValue> {
    match v {
        JsonValue::Object(entries) => entries_get(entries@, key),
        _ => None,
    }
}

/// The character sequence of a text node.
pub open spec fn spec_as_text(v: JsonValue) -> Option<Seq<char>> {
    match v {
        JsonValue::Text(s) => Some(s@),
        _ => None,
    }
}

/// The integer of a number node that fits an `i64`.
pub open spec fn spec_as_i64(v: JsonValue) -> Option<i64> {
    match v {
        JsonValue::Int(n) => Some(n),
        _ => None,
    }
}

proof fn lemma_entries_get_skip(entries: Seq<(String, JsonValue)>, key: Seq<char>, i: int)
    requires
        0 <= i <= entries.len(),
        forall|k: int| 0 <= k < i ==> entries[k].0@ != key,
    ensures
        entries_get(entries, key) == entries_get(entries.skip(i), key),
    decreases i,
{
    if i == 0 {
        assert(entries.skip(0) =~= entries);
    } else {
        lemma_entries_get_skip(entries.drop_first(), key, i - 1);
        assert(entries.drop_first().skip(i - 1) =~= entries.skip(i));
    }
}

/// Depth-first search for an integer under `key`: a direct member that is an
/// integer wins; otherwise every member or element is searched in order.
pub open spec fn spec_find_i64(v: JsonValue, key: Seq<char>) -> Option<i64>
    decreases v,
{
    match v {
        JsonValue::Object(entries) => {
            match entries_get(entries@, key) {
                Some(JsonValue::Int(n)) => Some(n),
                _ => find_i64_in_entries(entries@, key),
            }
        },
        JsonValue::Array(items) => find_i64_in_items(items@, key),
        _ => None,
    }
}

/// Search the member values of an object, in order.
pub open spec fn find_i64_in_entries(entries: Seq<(String, JsonValue)>, key: Seq<char>) -> Option<
    i64,
>
    decreases entries,
{
    if entries.len() == 0 {
        None
    } else {
        match spec_find_i64(entries[0].1, key) {
            Some(n) => Some(n),
            None => find_i64_in_entries(entries.drop_first(), key),
        }
    }
}

/// Search the elements of an array, in order.
pub open spec fn find_i64_in_items(items: Seq<JsonValue>, key: Seq<char>) -> Option<i64>
    decreases items,
{
    if items.len() == 0 {
        None
    } else {
        match spec_find_i64(items[0], key) {
            Some(n) => Some(n),
            None => find_i64_in_items(items.drop_first(), key),
        }
    }
}

proof fn lemma_find_entries_skip(entries: Seq<(String, JsonValue)>, key: Seq<char>, i: int)
    requires
        0 <= i <= entries.len(),
        forall|k: int| 0 <= k < i ==> spec_find_i64(entries[k].1, key) is None,
    ensures
        find_i64_in_entries(entries, key) == find_i64_in_entries(entries.skip(i), key),
    decreases i,
{
    if i == 0 {
        assert(entries.skip(0) =~= entries);
    } else {
        lemma_find_entries_skip(entries.drop_first(), key, i - 1);
        assert(entries.drop_first().skip(i - 1) =~= entries.skip(i));
    }
}

proof fn lemma_find_items_skip(items: Seq<JsonValue>, key: Seq<char>, i: int)
    requires
        0 <= i <= items.len(),
        forall|k: int| 0 <= k < i ==> spec_find_i64(items[k], key) is None,
    ensures
        find_i64_in_items(items, key) == find_i64_in_items(items.skip(i), key),
    decreases i,
{
    if i == 0 {
        assert(items.skip(0) =~= items);
    } else {
        lemma_find_items_skip(items.drop_first(), key, i - 1);
        assert(items.drop_first().skip(i - 1) =~= items.skip(i));
    }
}

impl JsonValue {
    /// A text node copied from a string slice.
    pub fn text(s: &str) -> (r: JsonValue)
        ensures
            r is Text,
            r->Text_0@ == s@,
    {
        JsonValue::Text(s.to_owned())
    }

    /// Member lookup on an object, as [`spec_get`] describes.
    pub fn get<'a>(&'a self, key: &str) -> (r: Option<&'a JsonValue>)
        ensures
            match r {
                Some(v) => spec_get(*self, key@) == Some(*v),
                None => spec_get(*self, key@) is None,
            },
    {
        match self {
            JsonValue::Object(entries) => {
                let mut i: usize = 0;
                while i < entries.len()
                    invariant
                        *self == JsonValue::Object(*entries),
                        i <= entries.len(),
                        forall|k: int| 0 <= k < i ==> entries@[k].0@ != key@,
                    decreases entries@.len() - i,
                {
                    let e = &entries[i];
                    if str_eq(e.0.as_str(), key) {
                        proof {
                            lemma_entries_get_skip(entries@, key@, i as int);
                            assert(entries@.skip(i as int)[0] == entries@[i as int]);
                        }
                        return Some(&e.1);
                    }
                    i = i + 1;
                }
                proof {
                    lemma_entries_get_skip(entries@, key@, i as int);
                    assert(entries@.skip(i as int).len() == 0);
                }
                None
            },
            _ => None,
        }
    }

    /// The string of a text node, as [`spec_as_text`] describes.
    pub fn as_str(&self) -> (r: Option<&String>)
        ensures
            match r {
                Some(s) => spec_as_text(*self) == Some(s@),
                None => spec_as_text(*self) is None,
            },
    {
        match self {
            JsonValue::Text(s) => Some(s),
            _ => None,
        }
    }

    /// The integer of a number node, as [`spec_as_i64`] describes.
    pub fn as_i64(&self) -> (r: Option<i64>)
        ensures
            r == spec_as_i64(*self),
    {
        match self {
            JsonValue::Int(n) => Some(*n),
            _ => None,
        }
    }

    /// Depth-first search for an integer under `key`, as [`spec_find_i64`]
    /// describes.
    pub fn find_i64(&self, key: &str) -> (r: Option<i64>)
        ensures
            r == spec_find_i64(*self, key@),
        decreases *self,
    {
        match self {
            JsonValue::Object(entries) => {
                let direct = self.get(key);
                if let Some(v) = direct {
                    if let Some(n) = v.as_i64() {
                        return Some(n);
                    }
                }
                let mut i: usize = 0;
                while i < entries.len()
                    invariant
                        *self == JsonValue::Object(*entries),
                        i <= entries.len(),
                        forall|k: int|
                            0 <= k < i ==> spec_find_i64(entries@[k].1, key@) is None,
                        spec_find_i64(*self, key@) == find_i64_in_entries(entries@, key@),
                    decreases entries@.len() - i,
                {
                    proof {
                        assert(decreases_to!(*self => *entries));
                        assert(decreases_to!(*entries => entries@));
                        assert(decreases_to!(entries@ => entries@[i as int]));
                        assert(decreases_to!(entries@[i as int] => entries@[i as int].1));
                    }
                    let r = entries[i].1.find_i64(key);
                    if let Some(n) = r {
                        proof {
                            lemma_find_entries_skip(entries@, key@, i as int);
                            assert(entries@.skip(i as int)[0] == entries@[i as int]);
                        }
                        return Some(n);
                    }
                    i = i + 1;
                }
                proof {
                    lemma_find_entries_skip(entries@, key@, i as int);
                    assert(entries@.skip(i as int).len() == 0);
                }
                None
            },
            JsonValue::Array(items) => {
                let mut i: usize = 0;
                while i < items.len()
                    invariant
                        *self == JsonValue::Array(*items),
                        i <= items.len(),
                        forall|k: int| 0 <= k < i ==> spec_find_i64(items@[k], key@) is None,
                    decreases items@.len() - i,
                {
                    proof {
                        assert(decreases_to!(*self => *items));
                        assert(decreases_to!(*items => items@));
                        assert(decreases_to!(items@ => items@[i as int]));
                    }
                    let r = items[i].find_i64(key);
                    if let Some(n) = r {
                        proof {
                            lemma_find_items_skip(items@, key@, i as int);
                            assert(items@.skip(i as int)[0] == items@[i as int]);
                        }
                        return Some(n);
                    }
                    i = i + 1;
                }
                proof {
                    lemma_find_items_skip(items@, key@, i as int);
                    assert(items@.skip(i as int).len() == 0);
                }
                None
            },
            _ => None,
        }
    }
}

} // verus!
