//! JSON documents, read and written by `serde_json`.

use serde_json::{Number, Value};
use vstd::prelude::*;

verus! {

/// The type `serde_json::Value`: any JSON value.
#[verifier::external_type_specification]
#[verifier::external_body]
pub struct ExValue(serde_json::Value);

/// The type `serde_json::Number`: a number as JSON has them.
#[verifier::external_type_specification]
#[verifier::external_body]
pub struct ExNumber(serde_json::Number);

/// The type `serde_json::Error`: why a document cannot be read or written.
#[verifier::external_type_specification]
#[verifier::external_body]
pub struct ExError(serde_json::Error);

/// The type `serde_json::Map`: the members of an object.
#[verifier::external_type_specification]
#[verifier::external_body]
#[verifier::reject_recursive_types(K)]
#[verifier::reject_recursive_types(V)]
pub struct ExObject<K, V>(serde_json::Map<K, V>);

/// A JSON value. A number that is no unsigned integer of 64 bits is kept as it
/// is.
pub enum Json {
    Null,
    Bool(bool),
    Unsigned(u64),
    OtherNumber(Number),
    Text(Seq<char>),
    List(Seq<Json>),
    Object(Map<Seq<char>, Json>),
}

impl Json {
    pub open spec fn is_number(self) -> bool {
        self is Unsigned || self is OtherNumber
    }

    /// The member of an object; `None` for another value or key.
    pub open spec fn member(self, key: Seq<char>) -> Option<Json> {
        match self {
            Json::Object(members) => if members.dom().contains(key) {
                Some(members[key])
            } else {
                None
            },
            _ => None,
        }
    }

    pub open spec fn unsigned(self) -> Option<u64> {
        match self {
            Json::Unsigned(value) => Some(value),
            _ => None,
        }
    }

    pub open spec fn text(self) -> Option<Seq<char>> {
        match self {
            Json::Text(text) => Some(text),
            _ => None,
        }
    }

    pub open spec fn list(self) -> Option<Seq<Json>> {
        match self {
            Json::List(items) => Some(items),
            _ => None,
        }
    }

    /// A text, a number or a list of texts.
    pub open spec fn is_plain(self) -> bool {
        match self {
            Json::Unsigned(_) | Json::OtherNumber(_) | Json::Text(_) => true,
            Json::List(items) => forall|i: int|
                0 <= i < items.len() ==> (#[trigger] items[i]) is Text,
            _ => false,
        }
    }

    /// An object with plain members only.
    pub open spec fn is_record(self) -> bool {
        match self {
            Json::Object(members) => forall|key: Seq<char>|
                members.dom().contains(key) ==> (#[trigger] members[key]).is_plain(),
            _ => false,
        }
    }

    /// What is read back of a record: the same members, but a number that is no
    /// unsigned integer may come back as another one.
    pub open spec fn reads_back_as(self, read: Json) -> bool {
        match (self, read) {
            (Json::Object(members), Json::Object(others)) => {
                &&& members.dom() == others.dom()
                &&& forall|key: Seq<char>|
                    members.dom().contains(key) ==> if members[key] is OtherNumber {
                        (#[trigger] others[key]).is_number()
                    } else {
                        others[key] == members[key]
                    }
            },
            _ => false,
        }
    }
}

/// The JSON that a [`Value`] holds.
pub uninterp spec fn json(value: Value) -> Json;

/// The members that an object holds.
pub uninterp spec fn object_members(object: serde_json::Map<String, Value>) -> Map<
    Seq<char>,
    Json,
>;

/// The members of an object that has none.
pub open spec fn no_members() -> Map<Seq<char>, Json> {
    Map::empty()
}

/// The JSON that a text writes; `None` when it is not well formed.
pub uninterp spec fn json_text(text: Seq<u8>) -> Option<Json>;

/// The text that a JSON value is written as, over several lines.
pub uninterp spec fn pretty_text(value: Json) -> Seq<u8>;

/// The text that a JSON value is written as, on one line.
pub uninterp spec fn compact_text(value: Json) -> Seq<char>;

/// The JSON of each item of a list.
pub open spec fn json_items(items: Seq<Value>) -> Seq<Json> {
    Seq::new(items.len(), |i: int| json(items[i]))
}

/// Calls `serde_json::from_slice`, which reads the JSON that a text writes, or
/// fails when the text is not well formed.
#[verifier::external_body]
pub(crate) fn json_parse(text: &[u8]) -> (result: Result<Value, serde_json::Error>)
    ensures
        match result {
            Ok(value) => json_text(text@) == Some(json(value)),
            Err(_) => json_text(text@) is None,
        },
{
    serde_json::from_slice(text)
}

/// Calls `serde_json::to_vec_pretty`, which fails only on values that refuse to
/// be written and on keys that are no texts, so never on a record. What it
/// writes of a record can be read, and is read back as that record. This holds
/// of every number that a `serde_json::Number` holds: it is finite, it is
/// written with the fewest digits that stand for it, the closest such, and
/// reading refuses a well formed number only when digits times power of ten
/// rounds to infinity, which those of the largest number do not. Left unsaid is
/// which number is read back where it is no unsigned integer: reading may round
/// it.
#[verifier::external_body]
pub(crate) fn json_print(value: &Value) -> (result: Result<Vec<u8>, serde_json::Error>)
    ensures
        json(*value).is_record() ==> result is Ok,
        result matches Ok(text) ==> {
            &&& text@ == pretty_text(json(*value))
            &&& json(*value).is_record() ==> (json_text(text@) matches Some(read)
                && json(*value).reads_back_as(read))
        },
{
    serde_json::to_vec_pretty(value)
}

/// Calls `Value::get` with a key: the member of an object under that key.
#[verifier::external_body]
pub(crate) fn json_member<'a>(value: &'a Value, key: &str) -> (member: Option<&'a Value>)
    ensures
        match member {
            Some(member) => json(*value).member(key@) == Some(json(*member)),
            None => json(*value).member(key@) is None,
        },
{
    value.get(key)
}

/// Calls `Value::as_u64`: the number, where it is an unsigned integer of 64
/// bits.
#[verifier::external_body]
pub(crate) fn json_unsigned(value: &Value) -> (number: Option<u64>)
    ensures
        number == json(*value).unsigned(),
{
    value.as_u64()
}

/// Calls `Value::as_str`: the text, where the value is one.
#[verifier::external_body]
pub(crate) fn json_str(value: &Value) -> (text: Option<&str>)
    ensures
        match text {
            Some(text) => json(*value).text() == Some(text@),
            None => json(*value).text() is None,
        },
{
    value.as_str()
}

/// Calls `Value::as_array`: the items, where the value is a list.
#[verifier::external_body]
pub(crate) fn json_array(value: &Value) -> (items: Option<&Vec<Value>>)
    ensures
        match items {
            Some(items) => json(*value).list() == Some(json_items(items@)),
            None => json(*value).list() is None,
        },
{
    value.as_array()
}

/// Calls `Value::is_number`.
#[verifier::external_body]
pub(crate) fn json_is_number(value: &Value) -> (number: bool)
    ensures
        number == json(*value).is_number(),
{
    value.is_number()
}

/// `<Value as Clone>::clone`: the copy holds the same JSON.
pub assume_specification[ <serde_json::Value as Clone>::clone ](value: &Value) -> (copy: Value)
    ensures
        json(copy) == json(*value),
;

/// Calls `<Value as From<u64>>::from`.
#[verifier::external_body]
pub(crate) fn json_from_unsigned(number: u64) -> (value: Value)
    ensures
        json(value) == Json::Unsigned(number),
{
    Value::from(number)
}

/// Calls `<Value as From<bool>>::from`.
#[verifier::external_body]
pub(crate) fn json_from_bool(truth: bool) -> (value: Value)
    ensures
        json(value) == Json::Bool(truth),
{
    Value::from(truth)
}

/// Calls `<Value as From<()>>::from`, which gives the null value.
#[verifier::external_body]
pub(crate) fn json_null() -> (value: Value)
    ensures
        json(value) == Json::Null,
{
    Value::from(())
}

/// Calls `<Value as From<&str>>::from`.
#[verifier::external_body]
pub(crate) fn json_from_str(text: &str) -> (value: Value)
    ensures
        json(value) == Json::Text(text@),
{
    Value::from(text)
}

/// Calls `<Value as From<Vec<Value>>>::from`: a list of the items.
#[verifier::external_body]
pub(crate) fn json_from_list(items: Vec<Value>) -> (value: Value)
    ensures
        json(value) == Json::List(json_items(items@)),
{
    Value::from(items)
}

/// Calls `serde_json::Map::new`: an object without members.
#[verifier::external_body]
pub(crate) fn json_object() -> (object: serde_json::Map<String, Value>)
    ensures
        object_members(object) == no_members(),
{
    serde_json::Map::new()
}

/// Calls `serde_json::Map::insert`, which sets a member.
#[verifier::external_body]
pub(crate) fn json_insert(object: &mut serde_json::Map<String, Value>, key: String, value: Value)
    ensures
        object_members(*final(object)) == object_members(*old(object)).insert(key@, json(value)),
{
    object.insert(key, value);
}

/// Calls `<Value as From<serde_json::Map<String, Value>>>::from`.
#[verifier::external_body]
pub(crate) fn json_from_object(object: serde_json::Map<String, Value>) -> (value: Value)
    ensures
        json(value) == Json::Object(object_members(object)),
{
    Value::from(object)
}

/// Takes a `Value` apart by its variant `Value::Object`: the members of an
/// object; `None` for any other value.
#[verifier::external_body]
pub(crate) fn json_into_object(value: Value) -> (object: Option<serde_json::Map<String, Value>>)
    ensures
        match object {
            Some(object) => json(value) == Json::Object(object_members(object)),
            None => !(json(value) is Object),
        },
{
    match value {
        Value::Object(object) => Some(object),
        _ => None,
    }
}

/// Calls `<serde_json::Map<String, Value> as Extend<(String, Value)>>::extend`,
/// which sets every member of another object.
#[verifier::external_body]
pub(crate) fn json_extend(
    object: &mut serde_json::Map<String, Value>,
    other: serde_json::Map<String, Value>,
)
    ensures
        object_members(*final(object)) == object_members(*old(object)).union_prefer_right(
            object_members(other),
        ),
{
    object.extend(other)
}

/// Calls `<Value as Display>` through `ToString::to_string`, which writes the
/// value on one line.
#[verifier::external_body]
pub(crate) fn json_line(value: &Value) -> (text: String)
    ensures
        text@ == compact_text(json(*value)),
{
    value.to_string()
}

} // verus!
