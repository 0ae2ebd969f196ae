//! A plain model of JSON documents, and the lookups the response logic needs.

use vstd::prelude::*;

verus! {

/// A decoded JSON value. Numbers are kept as their decimal text; object
/// members keep the order in which the decoder produced them.
#[derive(Debug)]
pub enum JsonValue {
    Null,
    Bool(bool),
    Number(String),
    Str(String),
    Array(Vec<JsonValue>),
    Object(Vec<(String, JsonValue)>),
}

/// The value of the first member named `key`, if any.
pub open spec fn member_in(members: Seq<(String, JsonValue)>, key: Seq<char>) -> Option<JsonValue>
    decreases members.len(),
{
    if members.len() == 0 {
        None
    } else if members[0].0@ == key {
        Some(members[0].1)
    } else {
        member_in(members.drop_first(), key)
    }
}

/// The member `key` of an object; nothing for any other value.
pub open spec fn member_of(v: JsonValue, key: Seq<char>) -> Option<JsonValue> {
    match v {
        JsonValue::Object(members) => member_in(members@, key),
        _ => None,
    }
}

/// The element at `i` of an array; nothing for any other value.
pub open spec fn element_of(v: JsonValue, i: int) -> Option<JsonValue> {
    match v {
        JsonValue::Array(items) => if 0 <= i < items@.len() {
            Some(items@[i])
        } else {
            None
        },
        _ => None,
    }
}

/// The characters of a string value; nothing for any other value.
pub open spec fn text_of(v: JsonValue) -> Option<Seq<char>> {
    match v {
        JsonValue::Str(s) => Some(s@),
        _ => None,
    }
}

/// [`member_of`] of a value that may be absent.
pub open spec fn opt_member(o: Option<JsonValue>, key: Seq<char>) -> Option<JsonValue> {
    match o {
        Some(v) => member_of(v, key),
        None => None,
    }
}

/// [`element_of`] of a value that may be absent.
pub open spec fn opt_element(o: Option<JsonValue>, i: int) -> Option<JsonValue> {
    match o {
        Some(v) => element_of(v, i),
        None => None,
    }
}

/// [`text_of`] of a value that may be absent.
pub open spec fn opt_text(o: Option<JsonValue>) -> Option<Seq<char>> {
    match o {
        Some(v) => text_of(v),
        None => None,
    }
}

/// Forgets the borrow of a looked-up value.
pub open spec fn deref_opt(r: Option<&JsonValue>) -> Option<JsonValue> {
    match r {
        Some(x) => Some(*x),
        None => None,
    }
}

/// Looks up the first member named `key` of an object.
pub fn find_member<'a>(v: &'a JsonValue, key: &String) -> (r: Option<&'a JsonValue>)
    ensures
        deref_opt(r) == member_of(*v, key@),
{
    match v {
        JsonValue::Object(members) => {
            let n = members.len();
            let mut i: usize = 0;
            assert(members@.subrange(0, n as int) =~= members@);
            while i < n
                invariant
                    n == members@.len(),
                    member_of(*v, key@) == member_in(members@, key@),
                    i <= n,
                    member_in(members@, key@) == member_in(members@.subrange(i as int, n as int), key@),
                decreases n - i,
            {
                assert(members@.subrange(i as int, n as int).drop_first()
                    =~= members@.subrange(i + 1, n as int));
                assert(members@.subrange(i as int, n as int)[0] == members@[i as int]);
                let entry = &members[i];
                if entry.0 == *key {
                    return Some(&entry.1);
                }
                i = i + 1;
            }
            None
        },
        _ => None,
    }
}

/// The element at `i` of an array.
pub fn nth_element<'a>(v: &'a JsonValue, i: usize) -> (r: Option<&'a JsonValue>)
    ensures
        deref_opt(r) == element_of(*v, i as int),
{
    match v {
        JsonValue::Array(items) => if i < items.len() {
            Some(&items[i])
        } else {
            None
        },
        _ => None,
    }
}

#[verifier::external_type_specification]
#[verifier::external_body]
pub struct ExJsonValue(serde_json::Value);

/// What serde_json decodes from a text, carried into [`JsonValue`]; nothing
/// when the text is not a JSON document.
pub uninterp spec fn json_decoded(text: Seq<char>) -> Option<JsonValue>;

/// Relies on the variants of `serde_json::Value`: each goes to the variant of
/// the same name, a number as its `Display` text, members in map order.
#[verifier::external_body]
fn from_serde(v: serde_json::Value) -> JsonValue {
    match v {
        serde_json::Value::Null => JsonValue::Null,
        serde_json::Value::Bool(b) => JsonValue::Bool(b),
        serde_json::Value::Number(n) => JsonValue::Number(n.to_string()),
        serde_json::Value::String(s) => JsonValue::Str(s),
        serde_json::Value::Array(a) => JsonValue::Array(a.into_iter().map(from_serde).collect()),
        serde_json::Value::Object(m) => JsonValue::Object(
            m.into_iter().map(|(k, x)| (k, from_serde(x))).collect(),
        ),
    }
}

/// Relies on `serde_json::from_str::<serde_json::Value>`: it decodes a whole
/// JSON document, fails on any other text, and depends on the text alone.
#[verifier::external_body]
pub(crate) fn decode_json(text: &str) -> (r: Option<JsonValue>)
    ensures
        r == json_decoded(text@),
{
    serde_json::from_str::<serde_json::Value>(text).ok().map(from_serde)
}

} // verus!
