//! JSON values as the domain reads them (the shape of `serde_json::Value`).
use vstd::prelude::*;

use crate::text::chars_of;

verus! {

/// A JSON number: a non-negative integer, a negative integer, or a number
/// with a fraction or exponent, kept as the text `serde_json` writes for it.
#[derive(Clone, Debug, PartialEq)]
pub enum JsonNumber {
    Unsigned(u64),
    Negative(i64),
    Fractional(String),
}

/// A JSON value; an object keeps its entries in order, each key once.
#[derive(Debug)]
pub enum JsonValue {
    Null,
    Bool(bool),
    Number(JsonNumber),
    String(String),
    Array(Vec<JsonValue>),
    Object(Vec<(String, JsonValue)>),
}

/// The value of the first entry named `key`.
pub open spec fn obj_get(entries: Seq<(String, JsonValue)>, key: Seq<char>) -> Option<JsonValue>
    decreases entries.len(),
{
    if entries.len() == 0 {
        None
    } else if entries[0].0@ == key {
        Some(entries[0].1)
    } else {
        obj_get(entries.drop_first(), key)
    }
}

proof fn lemma_obj_get_skip(entries: Seq<(String, JsonValue)>, key: Seq<char>, i: int)
    requires
        0 <= i <= entries.len(),
        forall|k: int| 0 <= k < i ==> (#[trigger] entries[k]).0@ != key,
    ensures
        obj_get(entries, key) == obj_get(entries.skip(i), key),
    decreases i,
{
    if i > 0 {
        assert(entries[0].0@ != key);
        lemma_obj_get_skip(entries.drop_first(), key, i - 1);
        assert(entries.drop_first().skip(i - 1) =~= entries.skip(i));
    } else {
        assert(entries.skip(0) =~= entries);
    }
}

/// The value of the first entry named `key` (`Map::get`).
pub fn obj_lookup<'a>(entries: &'a Vec<(String, JsonValue)>, key: &str) -> (r: Option<&'a JsonValue>)
    ensures
        match r {
            Some(v) => obj_get(entries@, key@) == Some(*v),
            None => obj_get(entries@, key@) is None,
        },
{
    let k = crate::text::string_of(&chars_of(key));
    let mut i: usize = 0;
    while i < entries.len()
        invariant
            i <= entries.len(),
            k@ == key@,
            forall|j: int| 0 <= j < i ==> (#[trigger] entries@[j]).0@ != key@,
        decreases entries.len() - i,
    {
        if entries[i].0 == k {
            proof {
                lemma_obj_get_skip(entries@, key@, i as int);
                assert(entries@.skip(i as int)[0] == entries@[i as int]);
            }
            return Some(&entries[i].1);
        }
        i += 1;
    }
    proof {
        lemma_obj_get_skip(entries@, key@, i as int);
        assert(entries@.skip(i as int).len() == 0);
    }
    None
}

/// Every key of the object is one of `allowed`.
pub open spec fn keys_within(entries: Seq<(String, JsonValue)>, allowed: Seq<Seq<char>>) -> bool {
    forall|k: int| 0 <= k < entries.len() ==> allowed.contains((#[trigger] entries[k]).0@)
}

fn is_one_of(key: &String, allowed: &Vec<&str>) -> (r: bool)
    ensures
        r == allowed@.map_values(|s: &str| s@).contains(key@),
{
    let ghost names = allowed@.map_values(|s: &str| s@);
    let mut i: usize = 0;
    while i < allowed.len()
        invariant
            i <= allowed.len(),
            names == allowed@.map_values(|s: &str| s@),
            forall|j: int| 0 <= j < i ==> names[j] != key@,
        decreases allowed.len() - i,
    {
        if crate::text::eq_str(&chars_of(key.as_str()), allowed[i]) {
            assert(names[i as int] == key@);
            return true;
        }
        i += 1;
    }
    false
}

/// Whether every key of the object is one of `allowed`.
pub fn keys_all_within(entries: &Vec<(String, JsonValue)>, allowed: &Vec<&str>) -> (r: bool)
    ensures
        r == keys_within(entries@, allowed@.map_values(|s: &str| s@)),
{
    let mut i: usize = 0;
    while i < entries.len()
        invariant
            i <= entries.len(),
            forall|j: int| 0 <= j < i ==> allowed@.map_values(|s: &str| s@).contains((#[trigger] entries@[j]).0@),
        decreases entries.len() - i,
    {
        if !is_one_of(&entries[i].0, allowed) {
            return false;
        }
        i += 1;
    }
    true
}

} // verus!
