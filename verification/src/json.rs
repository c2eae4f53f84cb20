//! JSON values, as far as the updater looks into them.

use vstd::prelude::*;

verus! {

/// `serde_json::Value`, a JSON value.
#[verifier::external_type_specification]
#[verifier::external_body]
pub struct ExValue(serde_json::Value);

/// The members of a JSON object whose values are strings; none where the value
/// is no object.
pub uninterp spec fn string_members(value: serde_json::Value) -> Map<Seq<char>, Seq<char>>;

/// Calls `serde_json::Value::get` with a key and `Value::as_str` on what it
/// finds. The first gives the value of the object's member with that key, or
/// nothing where the value is no object or has no such member; the second gives
/// the text of a string, or nothing where the value is none.
#[verifier::external_body]
pub(crate) fn string_member<'a>(value: &'a serde_json::Value, key: &str) -> (r: Option<&'a str>)
    ensures
        r is Some <==> string_members(*value).contains_key(key@),
        r matches Some(text) ==> text@ == string_members(*value)[key@],
{
    value.get(key)?.as_str()
}

} // verus!
