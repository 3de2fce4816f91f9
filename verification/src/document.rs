//! JSON documents: the values of the `json` crate, and the mathematical model
//! through which the contracts of this library speak of them.

use json::JsonValue;
use vstd::prelude::*;

verus! {

/// `json::JsonValue`, carried through as it is. What one holds is known only
/// through `json_view`.
#[verifier::external_type_specification]
#[verifier::external_body]
pub struct ExJsonValue(json::JsonValue);

/// The data of a JSON value.
pub enum Json {
    /// JSON `null`.
    Null,
    /// A JSON string.
    Text(Seq<char>),
    /// A JSON array: its elements, first to last.
    Array(Seq<Json>),
    /// A JSON object: its members, key and value, in the order in which they
    /// are written out.
    Object(Seq<(Seq<char>, Json)>),
    /// A number or a boolean. This library makes neither and tells neither
    /// apart.
    Other,
}

/// The data that a value of the `json` crate holds.
pub uninterp spec fn json_view(value: JsonValue) -> Json;

/// The members of an object; of any other value, none.
pub open spec fn members(doc: Json) -> Seq<(Seq<char>, Json)> {
    match doc {
        Json::Object(members) => members,
        _ => Seq::empty(),
    }
}

/// The elements of an array; of any other value, none.
pub open spec fn elements(doc: Json) -> Seq<Json> {
    match doc {
        Json::Array(elements) => elements,
        _ => Seq::empty(),
    }
}

/// Whether one of `members` is named `key`.
pub open spec fn has_key(members: Seq<(Seq<char>, Json)>, key: Seq<char>) -> bool {
    exists|i: int| 0 <= i < members.len() && (#[trigger] members[i]).0 == key
}

/// `members` after `key` is set to `value`: a member of that name keeps its
/// place and gets the new value, and where there is none the new member
/// comes last.
pub open spec fn with_member(
    members: Seq<(Seq<char>, Json)>,
    key: Seq<char>,
    value: Json,
) -> Seq<(Seq<char>, Json)> {
    if has_key(members, key) {
        Seq::new(
            members.len(),
            |i: int|
                if members[i].0 == key {
                    (key, value)
                } else {
                    members[i]
                },
        )
    } else {
        members.push((key, value))
    }
}

/// `JsonValue::new_array`: an array without elements.
#[verifier::external_body]
pub(crate) fn empty_array() -> (array: JsonValue)
    ensures
        json_view(array) == Json::Array(Seq::empty()),
{
    JsonValue::new_array()
}

/// `JsonValue::new_object`: an object without members.
#[verifier::external_body]
pub(crate) fn empty_object() -> (object: JsonValue)
    ensures
        json_view(object) == Json::Object(Seq::empty()),
{
    JsonValue::new_object()
}

/// The variant `JsonValue::Null`.
#[verifier::external_body]
pub(crate) fn null_value() -> (value: JsonValue)
    ensures
        json_view(value) == Json::Null,
{
    JsonValue::Null
}

/// `JsonValue::from` on a string slice: the JSON string with the same
/// characters, whatever its length.
#[verifier::external_body]
pub(crate) fn text_value(text: &str) -> (value: JsonValue)
    ensures
        json_view(value) == Json::Text(text@),
{
    JsonValue::from(text)
}

/// Assignment through `IndexMut<&str>` of `JsonValue`, that is
/// `object[key] = value`. A target that is no object is first replaced by an
/// empty one. A member named `key` then gets the new value where it stands;
/// without such a member the new one is added behind the others.
#[verifier::external_body]
pub(crate) fn set_member(object: &mut JsonValue, key: &str, value: JsonValue)
    ensures
        json_view(*final(object)) == Json::Object(
            with_member(members(json_view(*old(object))), key@, json_view(value)),
        ),
{
    object[key] = value;
}

/// `JsonValue::push`. On an array it adds `element` behind the others and
/// succeeds. On any other value it fails and changes nothing.
#[verifier::external_body]
pub(crate) fn push_element(array: &mut JsonValue, element: JsonValue) -> (pushed: bool)
    ensures
        pushed <==> json_view(*old(array)) is Array,
        pushed ==> json_view(*final(array)) == Json::Array(
            elements(json_view(*old(array))).push(json_view(element)),
        ),
        !pushed ==> json_view(*final(array)) == json_view(*old(array)),
{
    array.push(element).is_ok()
}

} // verus!
