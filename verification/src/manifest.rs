//! Reading fields out of manifest files (`package.json`, `Cargo.toml`).
//!
//! Parsing is done by `serde_json` and `toml`; what they return is named here,
//! and the library's own logic works on those results.

use vstd::prelude::*;

verus! {

/// The member names of the JSON object found under key `field` of the JSON document
/// `content`, in the order `serde_json` iterates them; `None` when `content` is not valid
/// JSON, is not an object, or has no object under `field`.
pub uninterp spec fn json_object_keys(content: Seq<char>, field: Seq<char>) -> Option<Seq<Seq<char>>>;

/// The string under key `field` of the JSON document `content`; `None` when `content`
/// is not valid JSON, is not an object, or `field` holds no string.
pub uninterp spec fn json_string_member(content: Seq<char>, field: Seq<char>) -> Option<Seq<char>>;

/// The string under key `field` of table `table` of the TOML document `content`; `None`
/// when `content` is not valid TOML or that entry is missing or is not a string.
pub uninterp spec fn toml_string_member(content: Seq<char>, table: Seq<char>, field: Seq<char>) -> Option<Seq<char>>;

/// Parses `content` with `serde_json::from_str` into a `serde_json::Value` and lists the
/// keys of the object under `field` (`Value::get`, `Value::as_object`, `Map::keys`).
/// The contract claims only that the result is the named function of the arguments.
#[verifier::external_body]
pub(crate) fn object_keys_of_json(content: &str, field: &str) -> (r: Option<Vec<String>>)
    ensures
        match r {
            Some(v) => json_object_keys(content@, field@) == Some(v@.map_values(|s: String| s@)),
            None => json_object_keys(content@, field@) is None,
        },
{
    let value: serde_json::Value = serde_json::from_str(content).ok()?;
    let object = value.get(field)?.as_object()?;
    Some(object.keys().cloned().collect())
}

/// Parses `content` with `serde_json::from_str` into a `serde_json::Value` and reads the
/// string under `field` (`Value::get`, `Value::as_str`).
/// The contract claims only that the result is the named function of the arguments.
#[verifier::external_body]
pub(crate) fn string_of_json(content: &str, field: &str) -> (r: Option<String>)
    ensures
        match r {
            Some(s) => json_string_member(content@, field@) == Some(s@),
            None => json_string_member(content@, field@) is None,
        },
{
    let value: serde_json::Value = serde_json::from_str(content).ok()?;
    value.get(field)?.as_str().map(String::from)
}

/// Parses `content` as a `toml::Value` (its `FromStr`, which reads a whole document) and
/// reads the string under `table` → `field` (`Value::get`, `Value::as_str`).
/// The contract claims only that the result is the named function of the arguments.
#[verifier::external_body]
pub(crate) fn string_of_toml(content: &str, table: &str, field: &str) -> (r: Option<String>)
    ensures
        match r {
            Some(s) => toml_string_member(content@, table@, field@) == Some(s@),
            None => toml_string_member(content@, table@, field@) is None,
        },
{
    let value: toml::Value = content.parse().ok()?;
    value.get(table)?.get(field)?.as_str().map(String::from)
}

} // verus!
