//! A JSON value held as plain data: tool results carry metadata in this
//! form and tool inputs are read through it.  Numbers keep their decimal
//! text, so no floating point is involved.

use vstd::prelude::*;
use crate::text::{str_eq, to_string};

verus! {

/// A JSON document.
#[derive(Debug, PartialEq, Eq)]
pub enum JsonValue {
    Null,
    Bool(bool),
    /// The number's decimal text, e.g. `5000`.
    Number(String),
    String(String),
    Array(Vec<JsonValue>),
    /// Members in order; a key is looked up at its first occurrence.
    Object(Vec<(String, JsonValue)>),
}

/// The value of the first member named `key`.
pub open spec fn entries_get(entries: Seq<(String, JsonValue)>, key: Seq<char>) -> Option<JsonValue>
    decreases entries.len(),
{
    if entries.len() == 0 {
        None
    } else if entries[0].0@ == key {
        Some(entries[0].1)
    } else {
        entries_get(entries.drop_first(), key)
    }
}

/// `value[key]` for an object; `None` for anything else.
pub open spec fn json_get(value: JsonValue, key: Seq<char>) -> Option<JsonValue> {
    match value {
        JsonValue::Object(entries) => entries_get(entries@, key),
        _ => None,
    }
}

/// The key names of `entries`, in order.
pub open spec fn entry_keys(entries: Seq<(String, JsonValue)>) -> Seq<Seq<char>> {
    entries.map_values(|e: (String, JsonValue)| e.0@)
}

/// Looks up `key` among `entries` (first occurrence).
pub fn entries_lookup<'a>(entries: &'a Vec<(String, JsonValue)>, key: &str) -> (r: Option<&'a JsonValue>)
    ensures
        match r {
            Some(v) => entries_get(entries@, key@) == Some(*v),
            None => entries_get(entries@, key@) is None,
        },
{
    let mut i: usize = 0;
    proof {
        assert(entries@.skip(0) =~= entries@);
    }
    while i < entries.len()
        invariant
            0 <= i <= entries.len(),
            entries_get(entries@, key@) == entries_get(entries@.skip(i as int), key@),
        decreases entries.len() - i,
    {
        proof {
            assert(entries@.skip(i as int).drop_first() =~= entries@.skip(i + 1));
        }
        if str_eq(entries[i].0.as_str(), key) {
            return Some(&entries[i].1);
        }
        i = i + 1;
    }
    None
}

/// `value.get(key)`: the member `key` of an object.
pub fn json_get_member<'a>(value: &'a JsonValue, key: &str) -> (r: Option<&'a JsonValue>)
    ensures
        match r {
            Some(v) => json_get(*value, key@) == Some(*v),
            None => json_get(*value, key@) is None,
        },
{
    match value {
        JsonValue::Object(entries) => entries_lookup(entries, key),
        _ => None,
    }
}

/// Sets member `key` of an entry list: an existing first occurrence is
/// replaced in place, otherwise the member is appended.
pub fn entries_insert(entries: &mut Vec<(String, JsonValue)>, key: &str, value: JsonValue)
    ensures
        entries_get(final(entries)@, key@) == Some(value),
        forall|k: Seq<char>| k != key@ ==> entries_get(final(entries)@, k) == entries_get(old(entries)@, k),
{
    let ghost e0 = entries@;
    let mut i: usize = 0;
    while i < entries.len()
        invariant
            0 <= i <= entries.len(),
            entries@ == e0,
            e0 == old(entries)@,
            forall|j: int| 0 <= j < i ==> entries@[j].0@ != key@,
        decreases entries.len() - i,
    {
        if str_eq(entries[i].0.as_str(), key) {
            let (name, _old) = entries.remove(i);
            entries.insert(i, (name, value));
            proof {
                assert forall|j: int| 0 <= j < e0.len() && j != i implies entries@[j] == e0[j] by {
                    if j < i {
                    } else {
                    }
                }
                lemma_get_after_replace(e0, i as int, key@, entries@);
            }
            return;
        }
        i = i + 1;
    }
    entries.push((to_string(key), value));
    proof {
        assert(entries@.drop_last() =~= e0);
        lemma_get_after_push(e0, key@, entries@);
    }
}

proof fn lemma_get_after_replace(e: Seq<(String, JsonValue)>, i: int, key: Seq<char>, r: Seq<(String, JsonValue)>)
    requires
        0 <= i < e.len(),
        e[i].0@ == key,
        forall|j: int| 0 <= j < i ==> e[j].0@ != key,
        r.len() == e.len(),
        r[i].0 == e[i].0,
        forall|j: int| 0 <= j < e.len() && j != i ==> r[j] == e[j],
    ensures
        entries_get(r, key) == Some(r[i].1),
        forall|k: Seq<char>| k != key ==> entries_get(r, k) == entries_get(e, k),
    decreases i,
{
    if i == 0 {
        assert(r.drop_first() =~= e.drop_first());
        assert forall|k: Seq<char>| k != key implies entries_get(r, k) == entries_get(e, k) by {
            assert(r[0].0@ == key);
        }
    } else {
        assert(r[0] == e[0]);
        lemma_get_after_replace(e.drop_first(), i - 1, key, r.drop_first());
        assert forall|k: Seq<char>| k != key implies entries_get(r, k) == entries_get(e, k) by {
            assert(entries_get(r.drop_first(), k) == entries_get(e.drop_first(), k));
        }
    }
}

proof fn lemma_get_after_push(e: Seq<(String, JsonValue)>, key: Seq<char>, r: Seq<(String, JsonValue)>)
    requires
        forall|j: int| 0 <= j < e.len() ==> e[j].0@ != key,
        r.len() == e.len() + 1,
        r.drop_last() == e,
        r.last().0@ == key,
    ensures
        entries_get(r, key) == Some(r.last().1),
        forall|k: Seq<char>| k != key ==> entries_get(r, k) == entries_get(e, k),
    decreases e.len(),
{
    if e.len() == 0 {
        assert(r.drop_first().len() == 0);
        assert(r[0] == r.last());
        assert forall|k: Seq<char>| k != key implies entries_get(r, k) == entries_get(e, k) by {
            assert(entries_get(r.drop_first(), k) is None);
        }
    } else {
        assert(r.drop_first().drop_last() =~= e.drop_first());
        assert(r[0] == e[0]);
        lemma_get_after_push(e.drop_first(), key, r.drop_first());
        assert(r.drop_first().last() == r.last());
        assert forall|k: Seq<char>| k != key implies entries_get(r, k) == entries_get(e, k) by {
            assert(entries_get(r.drop_first(), k) == entries_get(e.drop_first(), k));
        }
    }
}

} // verus!
