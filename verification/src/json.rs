//! JSON text, read and written by `serde_json`.
//!
//! Nothing here is proved: the contracts say what `serde_json` does, and the
//! rest of the crate builds on them.

use crate::catalog::{distinct_names, pairs_map, pairs_view};
use std::collections::{BTreeMap, HashMap};
use vstd::prelude::*;

verus! {

/// The error type of `serde_json`, carried through as it is.
#[verifier::external_type_specification]
#[verifier::external_body]
pub struct ExJsonError(serde_json::Error);

/// The map that `text` denotes when it is read as one JSON object whose
/// values are all strings, each name with the value of its last member; `None`
/// where `text` is no such object.
pub uninterp spec fn json_string_map(text: Seq<u8>) -> Option<Map<Seq<char>, Seq<char>>>;

/// The JSON text of a map of strings, its members in the order of their
/// names.
pub uninterp spec fn json_object_text(entries: Map<Seq<char>, Seq<char>>) -> Seq<u8>;

/// Reads `text` with `serde_json::from_slice` as a `HashMap` from strings to
/// strings and hands out its members, in no particular order.
///
/// Taken on trust of `from_slice`: it returns for every input, and whether it
/// fails and which map it gives depend on the bytes alone. `json_string_map`
/// is the name of that map, and is `None` where `from_slice` fails.
#[verifier::external_body]
pub(crate) fn read_string_map(text: &[u8]) -> (read: Result<
    Vec<(String, String)>,
    serde_json::Error,
>)
    ensures
        match read {
            Ok(pairs) => json_string_map(text@) == Some(pairs_map(pairs_view(pairs@))),
            Err(_) => json_string_map(text@) is None,
        },
{
    match serde_json::from_slice::<HashMap<String, String>>(text) {
        Ok(map) => Ok(map.into_iter().collect()),
        Err(error) => Err(error),
    }
}

/// Writes the pairs with `serde_json::to_vec` as one JSON object. The pairs
/// go into a `BTreeMap`, which hands them to `to_vec` in the order of their
/// names.
///
/// Taken on trust of `to_vec`: it returns for every such map, and the text it
/// gives depends on the members of the map alone. `json_object_text` is the
/// name of that text. It succeeds: it writes into a `Vec<u8>`, and of the
/// two ways to fail that it names, a value that refuses to be written and a
/// map whose keys are no strings, neither is open to a map from `&str` to
/// `&str`.
#[verifier::external_body]
pub(crate) fn write_string_map(pairs: &Vec<(String, String)>) -> (written: Result<
    Vec<u8>,
    serde_json::Error,
>)
    requires
        distinct_names(pairs_view(pairs@)),
    ensures
        written is Ok,
        written matches Ok(text) ==> text@ == json_object_text(pairs_map(pairs_view(pairs@))),
{
    let members = pairs.iter().map(|pair| (pair.0.as_str(), pair.1.as_str()));
    let map: BTreeMap<&str, &str> = members.collect();
    serde_json::to_vec(&map)
}

/// The words in which `serde_json` describes an error: what `to_string` gives
/// for a `serde_json::Error`. Nothing is claimed of them.
#[verifier::external_body]
pub(crate) fn error_message(error: &serde_json::Error) -> (message: String) {
    error.to_string()
}

} // verus!
