//! A JSON document as plain values, and the lookups the hook payload handling uses.
use vstd::prelude::*;
use crate::text::{chars_of, str_eq};

verus! {

/// A JSON value. Numbers that fit an `i64` are kept as `Int`; every other number
/// (fractions, or integers beyond the `i64` range) is `OtherNumber`, with its JSON text.
#[derive(Debug)]
pub enum JsonValue {
    Null,
    Bool(bool),
    Int(i64),
    OtherNumber(String),
    Str(String),
    Array(Vec<JsonValue>),
    Object(Vec<(String, JsonValue)>),
}

/// Index of the first entry of `fields` whose key is `key`, if any.
pub open spec fn field_index(fields: Seq<(String, JsonValue)>, key: Seq<char>) -> Option<int>
    decreases fields.len(),
{
    if fields.len() == 0 {
        None
    } else {
        match field_index(fields.drop_last(), key) {
            Some(i) => Some(i),
            None => if fields.last().0@ == key {
                Some(fields.len() - 1)
            } else {
                None
            },
        }
    }
}

/// The member `key` of an object (`Value::get` with a string key); `None` for
/// non-objects and absent keys.
pub open spec fn get(v: JsonValue, key: Seq<char>) -> Option<JsonValue> {
    match v {
        JsonValue::Object(fields) => match field_index(fields@, key) {
            Some(i) => Some(fields@[i].1),
            None => None,
        },
        _ => None,
    }
}

/// `Value::as_str`.
pub open spec fn as_text(v: Option<JsonValue>) -> Option<Seq<char>> {
    match v {
        Some(JsonValue::Str(s)) => Some(s@),
        _ => None,
    }
}

/// `Value::as_i64`.
pub open spec fn as_int(v: Option<JsonValue>) -> Option<i64> {
    match v {
        Some(JsonValue::Int(n)) => Some(n),
        _ => None,
    }
}

/// `Value::as_bool`.
pub open spec fn as_flag(v: Option<JsonValue>) -> Option<bool> {
    match v {
        Some(JsonValue::Bool(b)) => Some(b),
        _ => None,
    }
}

/// The member `key` of `v` if present, else the member `alt` (`get(key).or_else(|| get(alt))`).
pub open spec fn get_either(v: JsonValue, key: Seq<char>, alt: Seq<char>) -> Option<JsonValue> {
    match get(v, key) {
        Some(x) => Some(x),
        None => get(v, alt),
    }
}

/// The member `inner` of the member `outer` of `v`.
pub open spec fn get_in(v: JsonValue, outer: Seq<char>, inner: Seq<char>) -> Option<JsonValue> {
    match get(v, outer) {
        Some(o) => get(o, inner),
        None => None,
    }
}

fn key_eq(a: &String, key: &str) -> (r: bool)
    ensures
        r == (a@ == key@),
{
    let ac = chars_of(a.as_str());
    str_eq(&ac, key)
}

/// Looks up the member `key` of an object.
pub fn json_get<'a>(v: &'a JsonValue, key: &str) -> (r: Option<&'a JsonValue>)
    ensures
        match r {
            Some(x) => get(*v, key@) == Some(*x),
            None => get(*v, key@) is None,
        },
{
    match v {
        JsonValue::Object(fields) => {
            let mut i: usize = 0;
            while i < fields.len()
                invariant
                    *v == JsonValue::Object(*fields),
                    i <= fields.len(),
                    field_index(fields@.subrange(0, i as int), key@) is None,
                decreases fields.len() - i,
            {
                let ghost pre = fields@.subrange(0, i as int);
                assert(fields@.subrange(0, i + 1).drop_last() =~= pre);
                if key_eq(&fields[i].0, key) {
                    proof {
                        lemma_field_index_prefix(fields@, key@, i as int);
                    }
                    let r = &fields[i].1;
                    return Some(r);
                }
                i = i + 1;
            }
            assert(fields@.subrange(0, fields.len() as int) =~= fields@);
            None
        },
        _ => None,
    }
}

/// No entry has the key: the lookup finds nothing.
pub proof fn lemma_field_index_none(fields: Seq<(String, JsonValue)>, key: Seq<char>)
    requires
        forall|j: int| 0 <= j < fields.len() ==> #[trigger] fields[j].0@ != key,
    ensures
        field_index(fields, key) is None,
    decreases fields.len(),
{
    if fields.len() > 0 {
        lemma_field_index_none(fields.drop_last(), key);
    }
}

/// The first entry with the key is the one found.
pub proof fn lemma_field_index_first(fields: Seq<(String, JsonValue)>, key: Seq<char>, i: int)
    requires
        0 <= i < fields.len(),
        fields[i].0@ == key,
        forall|j: int| 0 <= j < i ==> #[trigger] fields[j].0@ != key,
    ensures
        field_index(fields, key) == Some(i),
{
    lemma_field_index_none(fields.subrange(0, i), key);
    lemma_field_index_prefix(fields, key, i);
}

proof fn lemma_field_index_prefix(fields: Seq<(String, JsonValue)>, key: Seq<char>, i: int)
    requires
        0 <= i < fields.len(),
        field_index(fields.subrange(0, i), key) is None,
        fields[i].0@ == key,
    ensures
        field_index(fields, key) == Some(i),
    decreases fields.len() - i,
{
    if i == fields.len() - 1 {
        assert(fields.drop_last() =~= fields.subrange(0, i));
    } else {
        assert(fields.drop_last().subrange(0, i) =~= fields.subrange(0, i));
        lemma_field_index_prefix(fields.drop_last(), key, i);
    }
}

} // verus!
