//! JSON documents, read by `serde_json`.

use crate::pattern::str_views;
use crate::text::opt_view;
use vstd::prelude::*;

verus! {

/// Whether `serde_json::from_str` reads the text as a JSON value.
pub uninterp spec fn json_parses(text: Seq<char>) -> bool;

/// The string found in the JSON value `text` by going down the object
/// keys of `path` in turn. `None` where a key is missing on the way or
/// the value found is no string.
pub uninterp spec fn json_text_at(text: Seq<char>, path: Seq<Seq<char>>) -> Option<Seq<char>>;

/// The unsigned whole number found in the JSON value `text` by going down
/// the object keys of `path` in turn. `None` where a key is missing on the
/// way or the value found is no such number.
pub uninterp spec fn json_number_at(text: Seq<char>, path: Seq<Seq<char>>) -> Option<u64>;

/// `serde_json::Error`: why a text is no JSON. Nothing is read from it.
#[verifier::external_type_specification]
#[verifier::external_body]
pub struct ExJsonError(serde_json::Error);

/// `serde_json::from_str` into a `Value`, indexed by each key of `path` in
/// turn, then `Value::as_str`. Fails exactly when the text is not JSON.
#[verifier::external_body]
pub(crate) fn json_string_at(text: &str, path: &Vec<&str>) -> (r: Result<
    Option<String>,
    serde_json::Error,
>)
    ensures
        r is Ok <==> json_parses(text@),
        r matches Ok(found) ==> opt_view(found) == json_text_at(text@, str_views(path@)),
{
    let value: serde_json::Value = serde_json::from_str(text)?;
    Ok(path.iter().fold(&value, |at, key| &at[*key]).as_str().map(|s| s.to_owned()))
}

/// `serde_json::from_str` into a `Value`, indexed by each key of `path` in
/// turn, then `Value::as_u64`. Fails exactly when the text is not JSON.
#[verifier::external_body]
pub(crate) fn json_unsigned_at(text: &str, path: &Vec<&str>) -> (r: Result<
    Option<u64>,
    serde_json::Error,
>)
    ensures
        r is Ok <==> json_parses(text@),
        r matches Ok(found) ==> found == json_number_at(text@, str_views(path@)),
{
    let value: serde_json::Value = serde_json::from_str(text)?;
    Ok(path.iter().fold(&value, |at, key| &at[*key]).as_u64())
}

} // verus!
