//! A self-contained model of an already-parsed structured value tree.
//!
//! The transport layer hands the engine one deserialized message at a time;
//! inside the library that message is a `JsonValue`, so every field access
//! the engine performs is ordinary verified code.

use vstd::prelude::*;
use vstd::string::StrSliceExecFns;

verus! {

/// One node of a structured value tree: null, boolean, integer, string,
/// array, or object (an ordered list of key/value pairs, first match wins).
#[derive(Debug)]
pub enum JsonValue {
    Null,
    Bool(bool),
    Int(i64),
    Str(String),
    Array(Vec<JsonValue>),
    Object(Vec<(String, JsonValue)>),
}

/// First value bound to `key` in an ordered field list, if any.
pub open spec fn spec_lookup(fields: Seq<(String, JsonValue)>, key: Seq<char>) -> Option<
    JsonValue,
>
    decreases fields.len(),
{
    if fields.len() == 0 {
        None
    } else if fields[0].0@ == key {
        Some(fields[0].1)
    } else {
        spec_lookup(fields.drop_first(), key)
    }
}

/// Member access on a value: `None` unless the value is an object that
/// carries the key.
pub open spec fn spec_get(v: JsonValue, key: Seq<char>) -> Option<JsonValue> {
    match v {
        JsonValue::Object(fields) => spec_lookup(fields@, key),
        _ => None,
    }
}

/// Character-by-character string comparison.
pub fn str_eq(a: &str, b: &str) -> (r: bool)
    ensures
        r == (a@ == b@),
{
    let alen = a.unicode_len();
    let blen = b.unicode_len();
    if alen != blen {
        return false;
    }
    let mut i: usize = 0;
    while i < alen
        invariant
            alen == a@.len(),
            alen == b@.len(),
            i <= alen,
            forall|j: int| 0 <= j < i ==> a@[j] == b@[j],
        decreases alen - i,
    {
        if a.get_char(i) != b.get_char(i) {
            return false;
        }
        i += 1;
    }
    proof {
        assert(a@ =~= b@);
    }
    true
}

/// Looks `key` up in `v`, following `spec_get`.
pub fn json_get<'a>(v: &'a JsonValue, key: &str) -> (r: Option<&'a JsonValue>)
    ensures
        match r {
            Some(found) => spec_get(*v, key@) == Some(*found),
            None => spec_get(*v, key@) is None,
        },
{
    match v {
        JsonValue::Object(fields) => {
            let n = fields.len();
            let mut i: usize = 0;
            proof {
                assert(fields@.subrange(0, n as int) =~= fields@);
            }
            while i < n
                invariant
                    n == fields@.len(),
                    i <= n,
                    spec_get(*v, key@) == spec_lookup(fields@, key@),
                    spec_lookup(fields@, key@) == spec_lookup(
                        fields@.subrange(i as int, n as int),
                        key@,
                    ),
                decreases n - i,
            {
                if str_eq(fields[i].0.as_str(), key) {
                    proof {
                        assert(fields@.subrange(i as int, n as int)[0] == fields@[i as int]);
                    }
                    return Some(&fields[i].1);
                }
                proof {
                    assert(fields@.subrange(i as int, n as int).drop_first() =~= fields@.subrange(
                        i + 1,
                        n as int,
                    ));
                }
                i += 1;
            }
            None
        },
        _ => None,
    }
}

/// True when `v` carries `key` (object membership test).
pub fn json_has(v: &JsonValue, key: &str) -> (r: bool)
    ensures
        r == (spec_get(*v, key@) is Some),
{
    json_get(v, key).is_some()
}

} // verus!
