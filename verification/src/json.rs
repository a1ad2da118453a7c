//! Reading JSON objects.
use vstd::prelude::*;

verus! {

/// A JSON value of the `serde_json` crate.
#[verifier::external_type_specification]
#[verifier::external_body]
pub struct ExJsonValue(serde_json::Value);

/// The members of a JSON object that are strings, by key. A value that is no
/// object has none.
pub uninterp spec fn text_members(value: serde_json::Value) -> Map<Seq<char>, Seq<char>>;

/// The members of a JSON object that are booleans, by key. A value that is no
/// object has none.
pub uninterp spec fn flag_members(value: serde_json::Value) -> Map<Seq<char>, bool>;

/// What the reading of a text as JSON comes to: the string members and the
/// boolean members of the value, or the message of the error.
pub uninterp spec fn json_reading(text: Seq<char>) -> Result<
    (Map<Seq<char>, Seq<char>>, Map<Seq<char>, bool>),
    Seq<char>,
>;

/// `serde_json::from_str` into a `serde_json::Value`, with an error as the text
/// that it displays. The outcome depends on the text alone and is named
/// [`json_reading`]; which texts are JSON is left unsaid.
#[verifier::external_body]
pub(crate) fn read_json(text: &str) -> (r: Result<serde_json::Value, String>)
    ensures
        match r {
            Ok(value) => json_reading(text@) == Ok::<
                (Map<Seq<char>, Seq<char>>, Map<Seq<char>, bool>),
                Seq<char>,
            >((text_members(value), flag_members(value))),
            Err(message) => json_reading(text@) == Err::<
                (Map<Seq<char>, Seq<char>>, Map<Seq<char>, bool>),
                Seq<char>,
            >(message@),
        },
{
    serde_json::from_str::<serde_json::Value>(text).map_err(|err| err.to_string())
}

/// `serde_json::Value::get` by key with `serde_json::Value::as_str`: the string
/// member of an object under a key, `None` where there is no such member or it
/// is no string.
#[verifier::external_body]
pub(crate) fn text_member(value: &serde_json::Value, key: &str) -> (r: Option<String>)
    ensures
        match r {
            Some(s) => text_members(*value).dom().contains(key@) && text_members(*value)[key@]
                == s@,
            None => !text_members(*value).dom().contains(key@),
        },
{
    value.get(key).and_then(serde_json::Value::as_str).map(str::to_owned)
}

/// `serde_json::Value::get` by key with `serde_json::Value::as_bool`: the
/// boolean member of an object under a key, `None` where there is no such member
/// or it is no boolean.
#[verifier::external_body]
pub(crate) fn flag_member(value: &serde_json::Value, key: &str) -> (r: Option<bool>)
    ensures
        match r {
            Some(b) => flag_members(*value).dom().contains(key@) && flag_members(*value)[key@] == b,
            None => !flag_members(*value).dom().contains(key@),
        },
{
    value.get(key).and_then(serde_json::Value::as_bool)
}

} // verus!
