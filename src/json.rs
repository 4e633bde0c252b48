//! A JSON document as a tree of plain values, and the lookups made in it.
use vstd::prelude::*;

verus! {

/// A JSON value. A number keeps the text that spells it; an object keeps its
/// members in order.
#[derive(Debug)]
pub enum Json {
    Null,
    Bool(bool),
    Number(String),
    Str(String),
    Array(Vec<Json>),
    Object(Vec<(String, Json)>),
}

/// The value of the first member named `key`, if any.
pub open spec fn member_of(members: Seq<(String, Json)>, key: Seq<char>) -> Option<Json>
    decreases members.len(),
{
    if members.len() == 0 {
        None
    } else if members[0].0@ == key {
        Some(members[0].1)
    } else {
        member_of(members.drop_first(), key)
    }
}

/// The member `key` of an object; nothing for any other value.
pub open spec fn field_of(v: Json, key: Seq<char>) -> Option<Json> {
    match v {
        Json::Object(members) => member_of(members@, key),
        _ => None,
    }
}

/// The first element of an array; nothing for an empty array or any other
/// value.
pub open spec fn first_of(v: Json) -> Option<Json> {
    match v {
        Json::Array(items) => if items@.len() > 0 {
            Some(items@[0])
        } else {
            None
        },
        _ => None,
    }
}

/// The document that a JSON text denotes, or nothing where the text is not
/// JSON.
pub uninterp spec fn json_document(text: Seq<u8>) -> Option<Json>;

/// Looks up the member `key` of an object.
pub fn field<'a>(v: &'a Json, key: &String) -> (r: Option<&'a Json>)
    ensures
        match r {
            Some(x) => field_of(*v, key@) == Some(*x),
            None => field_of(*v, key@) is None,
        },
{
    match v {
        Json::Object(members) => {
            let mut i: usize = 0;
            assert(members@.subrange(0, members@.len() as int) =~= members@);
            while i < members.len()
                invariant
                    i <= members@.len(),
                    field_of(*v, key@) == member_of(members@, key@),
                    member_of(members@, key@) == member_of(members@.subrange(i as int, members@.len() as int), key@),
                decreases members.len() - i,
            {
                let ghost rest = members@.subrange(i as int, members@.len() as int);
                assert(rest.drop_first() =~= members@.subrange(i + 1, members@.len() as int));
                assert(rest[0] == members@[i as int]);
                let entry = &members[i];
                assert(*entry == members@[i as int]);
                if entry.0 == *key {
                    return Some(&entry.1);
                }
                i = i + 1;
            }
            None
        },
        _ => None,
    }
}

/// The first element of an array.
pub fn first(v: &Json) -> (r: Option<&Json>)
    ensures
        match r {
            Some(x) => first_of(*v) == Some(*x),
            None => first_of(*v) is None,
        },
{
    match v {
        Json::Array(items) => if items.len() > 0 {
            Some(&items[0])
        } else {
            None
        },
        _ => None,
    }
}

/// Relies on serde_json::from_slice: reads a JSON text into a document,
/// which depends on the text alone, or fails with serde_json's message.
#[verifier::external_body]
pub fn parse_json(text: &[u8]) -> (r: Result<Json, String>)
    ensures
        match r {
            Ok(doc) => json_document(text@) == Some(doc),
            Err(_) => json_document(text@) is None,
        },
{
    match serde_json::from_slice::<serde_json::Value>(text) {
        Ok(v) => Ok(json_of_value(&v)),
        Err(e) => Err(e.to_string()),
    }
}

/// serde_json's parsed value, carried only into the copy below.
#[verifier::external_type_specification]
#[verifier::external_body]
pub struct ExValue(serde_json::Value);

/// Relies on serde_json::Value's variants: copies a parsed value into the
/// library's own tree, variant for variant.
#[verifier::external_body]
fn json_of_value(v: &serde_json::Value) -> Json {
    match v {
        serde_json::Value::Null => Json::Null,
        serde_json::Value::Bool(b) => Json::Bool(*b),
        serde_json::Value::Number(n) => Json::Number(n.to_string()),
        serde_json::Value::String(s) => Json::Str(s.clone()),
        serde_json::Value::Array(a) => Json::Array(a.iter().map(json_of_value).collect()),
        serde_json::Value::Object(m) => Json::Object(
            m.iter().map(|(k, x)| (k.clone(), json_of_value(x))).collect(),
        ),
    }
}

} // verus!
