//! JSON values as the service responses carry them, and the lookups that the
//! response mappings make. An object keeps its members in order, each key once.
use vstd::prelude::*;
use crate::account_statistics::Amount;

verus! {

/// A JSON number, read the three ways the mappings read one: as a signed and
/// as an unsigned 64-bit integer where it is one, and as a double.
#[derive(Clone, Copy, Debug, PartialEq, Eq, Structural)]
pub struct JsonNumber {
    pub int: Option<i64>,
    pub unsigned: Option<u64>,
    pub double: Amount,
}

#[derive(Debug)]
pub enum Json {
    Null,
    Bool(bool),
    Number(JsonNumber),
    Text(String),
    Array(Vec<Json>),
    Object(Vec<(String, Json)>),
}

/// The member named `key`, its first occurrence.
pub open spec fn member(fields: Seq<(String, Json)>, key: Seq<char>) -> Option<Json>
    decreases fields.len(),
{
    if fields.len() == 0 {
        None
    } else if fields[0].0@ == key {
        Some(fields[0].1)
    } else {
        member(fields.drop_first(), key)
    }
}

/// `value.get(key)`: a member of an object; nothing for any other value.
pub open spec fn get(value: Json, key: Seq<char>) -> Option<Json> {
    match value {
        Json::Object(fields) => member(fields@, key),
        _ => None,
    }
}

/// `get` after an optional value.
pub open spec fn get_opt(value: Option<Json>, key: Seq<char>) -> Option<Json> {
    match value {
        Some(v) => get(v, key),
        None => None,
    }
}

/// A value that is present and not null.
pub open spec fn present(value: Option<Json>) -> Option<Json> {
    match value {
        Some(Json::Null) => None,
        _ => value,
    }
}

pub open spec fn is_object(value: Json) -> bool {
    value is Object
}

pub open spec fn as_text(value: Option<Json>) -> Option<Seq<char>> {
    match value {
        Some(Json::Text(t)) => Some(t@),
        _ => None,
    }
}

pub open spec fn as_i64(value: Option<Json>) -> Option<i64> {
    match value {
        Some(Json::Number(n)) => n.int,
        _ => None,
    }
}

pub open spec fn as_u64(value: Option<Json>) -> Option<u64> {
    match value {
        Some(Json::Number(n)) => n.unsigned,
        _ => None,
    }
}

pub open spec fn as_f64(value: Option<Json>) -> Option<Amount> {
    match value {
        Some(Json::Number(n)) => Some(n.double),
        _ => None,
    }
}

proof fn lemma_member_suffix(fields: Seq<(String, Json)>, key: Seq<char>, i: int)
    requires
        0 <= i < fields.len(),
        fields[i].0@ != key,
    ensures
        member(fields.subrange(i, fields.len() as int), key) == member(fields.subrange(i + 1, fields.len() as int), key),
{
    assert(fields.subrange(i, fields.len() as int).drop_first() =~= fields.subrange(i + 1, fields.len() as int));
}

/// Looks up the member `key` of an object.
pub fn get_member<'a>(value: &'a Json, key: &str) -> (found: Option<&'a Json>)
    ensures
        match found {
            Some(v) => get(*value, key@) == Some(*v),
            None => get(*value, key@) is None,
        },
{
    match value {
        Json::Object(fields) => {
            let mut i: usize = 0;
            assert(fields@.subrange(0, fields@.len() as int) =~= fields@);
            while i < fields.len()
                invariant
                    i <= fields@.len(),
                    *value == Json::Object(*fields),
                    member(fields@, key@) == member(fields@.subrange(i as int, fields@.len() as int), key@),
                decreases fields.len() - i,
            {
                if crate::text::str_eq(fields[i].0.as_str(), key) {
                    assert(fields@.subrange(i as int, fields@.len() as int)[0] == fields@[i as int]);
                    assert(member(fields@.subrange(i as int, fields@.len() as int), key@) == Some(fields@[i as int].1));
                    return Some(&fields[i].1);
                }
                proof { lemma_member_suffix(fields@, key@, i as int); }
                i = i + 1;
            }
            None
        },
        _ => None,
    }
}

/// `get` after an optional value.
pub fn get_in<'a>(value: Option<&'a Json>, key: &str) -> (found: Option<&'a Json>)
    ensures
        match found {
            Some(v) => get_opt(match value { Some(x) => Some(*x), None => None }, key@) == Some(*v),
            None => get_opt(match value { Some(x) => Some(*x), None => None }, key@) is None,
        },
{
    match value {
        Some(v) => get_member(v, key),
        None => None,
    }
}

pub open spec fn deref_opt(value: Option<&Json>) -> Option<Json> {
    match value {
        Some(x) => Some(*x),
        None => None,
    }
}

/// Drops a null value.
pub fn present_value(value: Option<&Json>) -> (r: Option<&Json>)
    ensures
        deref_opt(r) == present(deref_opt(value)),
{
    match value {
        Some(Json::Null) => None,
        _ => value,
    }
}

pub fn text_of(value: Option<&Json>) -> (r: Option<&str>)
    ensures
        match r {
            Some(t) => as_text(deref_opt(value)) == Some(t@),
            None => as_text(deref_opt(value)) is None,
        },
{
    match value {
        Some(Json::Text(t)) => Some(t.as_str()),
        _ => None,
    }
}

pub fn i64_of(value: Option<&Json>) -> (r: Option<i64>)
    ensures
        r == as_i64(deref_opt(value)),
{
    match value {
        Some(Json::Number(n)) => n.int,
        _ => None,
    }
}

pub fn u64_of(value: Option<&Json>) -> (r: Option<u64>)
    ensures
        r == as_u64(deref_opt(value)),
{
    match value {
        Some(Json::Number(n)) => n.unsigned,
        _ => None,
    }
}

pub fn f64_of(value: Option<&Json>) -> (r: Option<Amount>)
    ensures
        r == as_f64(deref_opt(value)),
{
    match value {
        Some(Json::Number(n)) => Some(n.double),
        _ => None,
    }
}

} // verus!
