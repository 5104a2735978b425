//! JSON values, which the runtime carries and seldom reads.

use vstd::prelude::*;

verus! {

/// `serde_json::Value`, held as an opaque value.
#[verifier::external_type_specification]
#[verifier::external_body]
pub struct ExJsonValue(serde_json::Value);

/// A JSON value.
#[derive(Debug, PartialEq, Eq)]
pub struct Json {
    pub value: serde_json::Value,
}

impl DeepView for Json {
    type V = serde_json::Value;

    open spec fn deep_view(&self) -> serde_json::Value {
        self.value
    }
}

/// `<serde_json::Value as Clone>::clone` is derived: it rebuilds the same tree.
pub assume_specification[ <serde_json::Value as Clone>::clone ](
    value: &serde_json::Value,
) -> (r: serde_json::Value)
    ensures
        r == *value,
;

impl Clone for Json {
    fn clone(&self) -> (r: Self)
        ensures
            r.deep_view() == self.deep_view(),
    {
        Json { value: self.value.clone() }
    }
}

/// The members of a JSON object; nothing for any other value.
pub uninterp spec fn members_of(value: serde_json::Value) -> Option<
    Map<Seq<char>, serde_json::Value>,
>;

/// The elements of a JSON array; nothing for any other value.
pub uninterp spec fn elements_of(value: serde_json::Value) -> Option<Seq<serde_json::Value>>;

/// The text of a JSON string; nothing for any other value.
pub uninterp spec fn text_of(value: serde_json::Value) -> Option<Seq<char>>;

/// The flag of a JSON boolean; nothing for any other value.
pub uninterp spec fn flag_of(value: serde_json::Value) -> Option<bool>;

/// Whether a value is the JSON null.
pub uninterp spec fn null_of(value: serde_json::Value) -> bool;

/// The JSON boolean of a flag.
pub uninterp spec fn flag_value(flag: bool) -> serde_json::Value;

/// The JSON string of a text, or the JSON null.
pub uninterp spec fn text_value(text: Option<Seq<char>>) -> serde_json::Value;

/// Whether two JSON values compare equal.
pub uninterp spec fn equal_values(a: serde_json::Value, b: serde_json::Value) -> bool;

/// The member that a JSON object has under a key.
pub open spec fn member_of(value: serde_json::Value, key: Seq<char>) -> Option<serde_json::Value> {
    match members_of(value) {
        Some(members) => if members.contains_key(key) {
            Some(members[key])
        } else {
            None
        },
        None => None,
    }
}

/// `serde_json::Value::get` with a string: the member of an object under that
/// key; nothing if there is none or if the value is no object.
#[verifier::external_body]
pub(crate) fn member(json: &Json, key: &str) -> (r: Option<Json>)
    ensures
        r.deep_view() == member_of(json.deep_view(), key@),
{
    match json.value.get(key) {
        Some(value) => Some(Json { value: value.clone() }),
        None => None,
    }
}

/// `serde_json::Map::insert` on what `serde_json::Value::as_object_mut` gives:
/// an object gets the member or has it replaced; any other value stays.
#[verifier::external_body]
pub(crate) fn set_member(json: &mut Json, key: &str, value: Json)
    ensures
        members_of(old(json).deep_view()) is None ==> final(json).deep_view() == old(
            json,
        ).deep_view(),
        members_of(old(json).deep_view()) matches Some(members) ==> members_of(
            final(json).deep_view(),
        ) == Some(members.insert(key@, value.deep_view())),
{
    if let Some(object) = json.value.as_object_mut() {
        object.insert(key.to_string(), value.value);
    }
}

/// `serde_json::Value::as_array`: the elements of an array; nothing for any
/// other value.
#[verifier::external_body]
pub(crate) fn elements(json: &Json) -> (r: Option<Vec<serde_json::Value>>)
    ensures
        match elements_of(json.deep_view()) {
            Some(values) => r is Some && r->Some_0@ == values,
            None => r is None,
        },
{
    json.value.as_array().cloned()
}

/// `serde_json::Value::as_str`: the text of a string; nothing for any other
/// value.
#[verifier::external_body]
pub(crate) fn text(json: &Json) -> (r: Option<String>)
    ensures
        r.deep_view() == text_of(json.deep_view()),
{
    match json.value.as_str() {
        Some(text) => Some(text.to_string()),
        None => None,
    }
}

/// `serde_json::Value::as_bool`: the flag of a boolean; nothing for any other
/// value.
#[verifier::external_body]
pub(crate) fn flag(json: &Json) -> (r: Option<bool>)
    ensures
        r == flag_of(json.deep_view()),
{
    json.value.as_bool()
}

/// `serde_json::Value::is_null`.
#[verifier::external_body]
pub(crate) fn is_null(json: &Json) -> (r: bool)
    ensures
        r == null_of(json.deep_view()),
{
    json.value.is_null()
}

/// `<serde_json::Value as From<bool>>::from`: the boolean of the flag.
#[verifier::external_body]
pub(crate) fn from_flag(flag: bool) -> (r: Json)
    ensures
        r.deep_view() == flag_value(flag),
        flag_of(r.deep_view()) == Some(flag),
{
    Json { value: serde_json::Value::from(flag) }
}

/// `<serde_json::Value as From<Option<String>>>::from`: the string of the text,
/// or null.
#[verifier::external_body]
pub(crate) fn from_text(text: Option<String>) -> (r: Json)
    ensures
        r.deep_view() == text_value(text.deep_view()),
        text_of(r.deep_view()) == text.deep_view(),
        null_of(r.deep_view()) == (text is None),
{
    Json { value: serde_json::Value::from(text) }
}

/// `<serde_json::Value as PartialEq>::eq`: depends on the two values alone, and
/// holds of a value and itself.
#[verifier::external_body]
pub(crate) fn same_json(a: &Json, b: &Json) -> (r: bool)
    ensures
        r == equal_values(a.deep_view(), b.deep_view()),
        a.deep_view() == b.deep_view() ==> r,
{
    a.value == b.value
}

} // verus!
