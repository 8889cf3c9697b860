//! JSON documents: what a value holds, and the calls that read and change it.

use vstd::prelude::*;

use crate::order;
use crate::text;

verus! {

/// `serde_json::Value`, a JSON value.
#[verifier::external_type_specification]
#[verifier::external_body]
pub struct ExValue(serde_json::Value);

/// `serde_json::Map`, the members of a JSON object.
#[verifier::external_type_specification]
#[verifier::external_body]
#[verifier::reject_recursive_types(K)]
#[verifier::reject_recursive_types(V)]
pub struct ExMap<K, V>(serde_json::Map<K, V>);

/// A JSON value as the contracts see it.
#[verifier::ext_equal]
pub enum Json {
    Null,
    Boolean(bool),
    Integer(int),
    /// A number that is kept as a double, by the bits of the double.
    Fraction(u64),
    Text(Seq<char>),
    Array(Seq<Json>),
    Object(Map<Seq<char>, Json>),
}

/// What a value holds.
pub uninterp spec fn content(value: serde_json::Value) -> Json;

/// What an object holds: a value under each key.
pub uninterp spec fn entries(object: serde_json::Map<String, serde_json::Value>) -> Map<
    Seq<char>,
    Json,
>;

/// What a text in JSON stands for, or the reader's complaint about it.
pub uninterp spec fn json_parsed(bytes: Seq<u8>) -> Result<Json, Seq<char>>;

/// The compact JSON text of a value that holds this, or the writer's complaint about it.
pub uninterp spec fn json_written(json: Json) -> Result<Seq<u8>, Seq<char>>;

/// The greatest number of arrays and objects, one in the other, that the reader accepts.
pub const DEEPEST_NESTING: usize = 127;

/// Whether no more than so many arrays and objects lie one in the other.
pub open spec fn nests_within(json: Json, depth: nat) -> bool
    decreases json,
{
    match json {
        Json::Array(items) => {
            &&& depth > 0
            &&& forall|i: int|
                0 <= i < items.len() ==> nests_within(#[trigger] items[i], (depth - 1) as nat)
        },
        Json::Object(members) => {
            &&& depth > 0
            &&& forall|key: Seq<char>|
                members.contains_key(key) ==> nests_within(
                    #[trigger] members[key],
                    (depth - 1) as nat,
                )
        },
        _ => true,
    }
}

/// Whether no number in the value is kept as a double.
pub open spec fn has_no_fractions(json: Json) -> bool
    decreases json,
{
    match json {
        Json::Fraction(_) => false,
        Json::Array(items) => forall|i: int|
            0 <= i < items.len() ==> has_no_fractions(#[trigger] items[i]),
        Json::Object(members) => forall|key: Seq<char>|
            members.contains_key(key) ==> has_no_fractions(#[trigger] members[key]),
        _ => true,
    }
}

/// Whether both hold the same, but for the numbers that are kept as doubles.
pub open spec fn same_but_fractions(left: Json, right: Json) -> bool
    decreases left,
{
    match (left, right) {
        (Json::Fraction(_), Json::Fraction(_)) => true,
        (Json::Array(ours), Json::Array(theirs)) => {
            &&& ours.len() == theirs.len()
            &&& forall|i: int|
                0 <= i < ours.len() ==> same_but_fractions(#[trigger] ours[i], theirs[i])
        },
        (Json::Object(ours), Json::Object(theirs)) => {
            &&& ours.dom() == theirs.dom()
            &&& forall|key: Seq<char>|
                ours.contains_key(key) ==> same_but_fractions(#[trigger] ours[key], theirs[key])
        },
        _ => left == right,
    }
}

/// `serde_json::Map::contains_key`: whether the object has this key.
#[verifier::external_body]
pub(crate) fn has_key(object: &serde_json::Map<String, serde_json::Value>, key: &str) -> (found:
    bool)
    ensures
        found == entries(*object).contains_key(key@),
{
    object.contains_key(key)
}

/// `serde_json::Map::keys`: every key of the object once, in dictionary order. An object keeps its
/// members in a `BTreeMap`, unless the crate's `preserve_order` feature is on.
#[verifier::external_body]
pub(crate) fn keys(object: &serde_json::Map<String, serde_json::Value>) -> (list: Vec<String>)
    ensures
        order::is_listing(text::texts(list@), entries(*object).dom()),
{
    object.keys().cloned().collect()
}

/// `serde_json::Map::insert`: the key holds the value, and the other keys hold what they held.
#[verifier::external_body]
pub(crate) fn insert(
    object: &mut serde_json::Map<String, serde_json::Value>,
    key: String,
    value: serde_json::Value,
)
    ensures
        entries(*final(object)) == entries(*old(object)).insert(key@, content(value)),
{
    object.insert(key, value);
}

/// `serde_json::Value::String`: a JSON string.
#[verifier::external_body]
pub(crate) fn string_value(string: String) -> (value: serde_json::Value)
    ensures
        content(value) == Json::Text(string@),
{
    serde_json::Value::String(string)
}

/// `serde_json::from_slice`: what is read is a function of the bytes alone, and so is the
/// complaint. The reader refuses deeper nesting than `DEEPEST_NESTING`, unless the crate's
/// `unbounded_depth` feature is on.
#[verifier::external_body]
pub(crate) fn parse(bytes: &[u8]) -> (result: Result<serde_json::Value, String>)
    ensures
        match (result, json_parsed(bytes@)) {
            (Ok(value), Ok(expected)) => content(value) == expected,
            (Err(complaint), Err(expected)) => complaint@ == expected,
            _ => false,
        },
        result matches Ok(value) ==> nests_within(content(value), DEEPEST_NESTING as nat),
{
    match serde_json::from_slice::<serde_json::Value>(bytes) {
        Ok(value) => Ok(value),
        Err(error) => Err(error.to_string()),
    }
}

/// `serde_json::to_vec`: the text is a function of what the value holds, and so is the complaint.
/// Nothing may be nested too deep for the reader. `serde_json::from_slice` then reads what was
/// written, where no number is kept as a double. Such a number may come back rounded, unless the
/// crate's `float_roundtrip` feature is on, so that of a text with one it is said only that the
/// rest comes back where the text is accepted.
#[verifier::external_body]
pub(crate) fn write(value: &serde_json::Value) -> (result: Result<Vec<u8>, String>)
    requires
        nests_within(content(*value), DEEPEST_NESTING as nat),
    ensures
        match (result, json_written(content(*value))) {
            (Ok(bytes), Ok(expected)) => bytes@ == expected,
            (Err(complaint), Err(expected)) => complaint@ == expected,
            _ => false,
        },
        result matches Ok(bytes) ==> (has_no_fractions(content(*value)) ==> json_parsed(bytes@)
            == Ok::<Json, Seq<char>>(content(*value))),
        result matches Ok(bytes) ==> (json_parsed(bytes@) matches Ok(back) ==> same_but_fractions(
            content(*value),
            back,
        )),
{
    match serde_json::to_vec(value) {
        Ok(bytes) => Ok(bytes),
        Err(error) => Err(error.to_string()),
    }
}

/// `serde_json::Value::get_mut` with a key: the value under a key of an object, to be changed in
/// place. The other keys hold what they held. There is none where the value is no object or lacks
/// the key.
#[verifier::external_body]
pub(crate) fn member_mut<'a>(value: &'a mut serde_json::Value, key: &str) -> (member: Option<
    &'a mut serde_json::Value,
>)
    ensures
        match member {
            Some(member) => {
                &&& content(*old(value)) is Object
                &&& content(*old(value))->Object_0.contains_key(key@)
                &&& content(*member) == content(*old(value))->Object_0[key@]
                &&& content(*final(value)) == Json::Object(
                    content(*old(value))->Object_0.insert(key@, content(*final(member))),
                )
            },
            None => {
                &&& content(*final(value)) == content(*old(value))
                &&& content(*old(value)) matches Json::Object(members)
                    ==> !members.contains_key(key@)
            },
        },
{
    value.get_mut(key)
}

/// `serde_json::Value::as_object_mut`: the object that a value is, to be changed in place. There is
/// none where the value is something else.
pub assume_specification[ serde_json::Value::as_object_mut ](
    value: &mut serde_json::Value,
) -> (object: Option<&mut serde_json::Map<String, serde_json::Value>>)
    ensures
        match object {
            Some(object) => {
                &&& content(*old(value)) == Json::Object(entries(*object))
                &&& content(*final(value)) == Json::Object(entries(*final(object)))
            },
            None => {
                &&& content(*old(value)) !is Object
                &&& content(*final(value)) == content(*old(value))
            },
        },
;

} // verus!
