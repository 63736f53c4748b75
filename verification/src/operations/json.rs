//! A JSON document as the operations read it. The text is parsed by
//! `serde_json` outside this library; what arrives here is the parsed tree,
//! with the compact JSON text of every number, array and object kept so
//! that values can be shown as JSON.
use vstd::prelude::*;
use crate::text::{chars_eq, chars_of};

verus! {

/// A parsed JSON value. Object entries keep the parser's order, one per key.
pub enum Json {
    Null,
    Bool(bool),
    /// A number: its JSON text, and its value when it is an unsigned
    /// 64-bit integer.
    Number { text: String, unsigned: Option<u64> },
    Str(String),
    Array { items: Vec<Json>, text: String },
    Object { entries: Vec<(String, Json)>, text: String },
}

/// The members of an object have distinct keys, as in every object a JSON
/// parser produces; other values have no members.
pub open spec fn members_distinct(j: Json) -> bool {
    match j {
        Json::Object { entries, .. } => forall|i: int, k: int|
            0 <= i < k < entries@.len() ==> #[trigger] entries@[i].0@ != #[trigger] entries@[k].0@,
        _ => true,
    }
}

/// The value under `key` among `entries`, by the first entry with that key.
pub open spec fn entry_lookup(entries: Seq<(String, Json)>, key: Seq<char>) -> Option<Json>
    decreases entries.len(),
{
    if entries.len() == 0 {
        None
    } else if entries[0].0@ == key {
        Some(entries[0].1)
    } else {
        entry_lookup(entries.drop_first(), key)
    }
}

/// `value.get(key)`: the member `key` of an object; nothing for other
/// values.
pub open spec fn json_get(j: Json, key: Seq<char>) -> Option<Json> {
    match j {
        Json::Object { entries, .. } => entry_lookup(entries@, key),
        _ => None,
    }
}

/// `value.as_str()`.
pub open spec fn json_str(j: Json) -> Option<Seq<char>> {
    match j {
        Json::Str(s) => Some(s@),
        _ => None,
    }
}

/// `value.as_u64()`.
pub open spec fn json_u64(j: Json) -> Option<u64> {
    match j {
        Json::Number { unsigned, .. } => unsigned,
        _ => None,
    }
}

/// `value.as_bool()`.
pub open spec fn json_bool(j: Json) -> Option<bool> {
    match j {
        Json::Bool(b) => Some(b),
        _ => None,
    }
}

/// `value[key].as_str()`.
pub open spec fn field_str(j: Json, key: Seq<char>) -> Option<Seq<char>> {
    match json_get(j, key) {
        Some(v) => json_str(v),
        None => None,
    }
}

/// `value[key].as_u64()`.
pub open spec fn field_u64(j: Json, key: Seq<char>) -> Option<u64> {
    match json_get(j, key) {
        Some(v) => json_u64(v),
        None => None,
    }
}

/// `value[key].as_bool()`.
pub open spec fn field_bool(j: Json, key: Seq<char>) -> Option<bool> {
    match json_get(j, key) {
        Some(v) => json_bool(v),
        None => None,
    }
}

/// A value as a setting: a string as it is, anything else as its JSON text.
pub open spec fn setting_text(j: Json) -> Seq<char> {
    match j {
        Json::Str(s) => s@,
        Json::Null => "null"@,
        Json::Bool(b) => if b {
            "true"@
        } else {
            "false"@
        },
        Json::Number { text, .. } => text@,
        Json::Array { text, .. } => text@,
        Json::Object { text, .. } => text@,
    }
}

/// The texts of an optional string.
pub open spec fn opt_view(o: Option<String>) -> Option<Seq<char>> {
    match o {
        Some(s) => Some(s@),
        None => None,
    }
}

/// The member `key` of `j`.
pub fn get<'a>(j: &'a Json, key: &str) -> (r: Option<&'a Json>)
    ensures
        match json_get(*j, key@) {
            Some(v) => r matches Some(x) && *x == v,
            None => r is None,
        },
{
    match j {
        Json::Object { entries, .. } => {
            let k = chars_of(key);
            let mut i: usize = 0;
            assert(json_get(*j, key@) == entry_lookup(entries@, key@));
            assert(entries@.skip(0) =~= entries@);
            while i < entries.len()
                invariant
                    i <= entries.len(),
                    k@ == key@,
                    json_get(*j, key@) == entry_lookup(entries@, key@),
                    entry_lookup(entries@, key@) == entry_lookup(entries@.skip(i as int), key@),
                decreases entries.len() - i,
            {
                assert(entries@.skip(i as int)[0] == entries@[i as int]);
                if chars_eq(&chars_of(entries[i].0.as_str()), &k) {
                    assert(entries@[i as int].0@ == key@);
                    return Some(&entries[i].1);
                }
                assert(entries@.skip(i as int).drop_first() =~= entries@.skip(i + 1));
                i += 1;
            }
            None
        },
        _ => None,
    }
}

/// `j[key].as_str()`, copied.
pub fn str_field(j: &Json, key: &str) -> (r: Option<String>)
    ensures
        opt_view(r) == field_str(*j, key@),
{
    match get(j, key) {
        Some(Json::Str(s)) => Some(s.clone()),
        _ => None,
    }
}

/// `j[key].as_u64()`.
pub fn u64_field(j: &Json, key: &str) -> (r: Option<u64>)
    ensures
        r == field_u64(*j, key@),
{
    match get(j, key) {
        Some(Json::Number { unsigned, .. }) => *unsigned,
        _ => None,
    }
}

/// `j[key].as_bool()`.
pub fn bool_field(j: &Json, key: &str) -> (r: Option<bool>)
    ensures
        r == field_bool(*j, key@),
{
    match get(j, key) {
        Some(Json::Bool(b)) => Some(*b),
        _ => None,
    }
}

/// `j` as a setting (see [`setting_text`]).
pub fn setting_of(j: &Json) -> (r: String)
    ensures
        r@ == setting_text(*j),
{
    match j {
        Json::Str(s) => s.clone(),
        Json::Null => "null".to_owned(),
        Json::Bool(b) => if *b {
            "true".to_owned()
        } else {
            "false".to_owned()
        },
        Json::Number { text, .. } => text.clone(),
        Json::Array { text, .. } => text.clone(),
        Json::Object { text, .. } => text.clone(),
    }
}

} // verus!
