//! Reading JSON with `serde_json`.

use vstd::prelude::*;

verus! {

/// The keys of the JSON object that `serde_json::from_slice` reads from the
/// bytes; nothing where it does not read an object from them.
pub uninterp spec fn json_object_keys(bytes: Seq<u8>) -> Option<Set<Seq<char>>>;

/// The error with which `serde_json` refuses an input.
#[verifier::external_type_specification]
#[verifier::external_body]
pub struct ExJsonError(serde_json::Error);

/// `serde_json::from_slice` into a map from text to any JSON value: the keys
/// of the object that the bytes hold, each once and in no particular order,
/// or the error of bytes that hold no such object.
#[verifier::external_body]
pub(crate) fn object_keys(bytes: &[u8]) -> (keys: Result<Vec<String>, serde_json::Error>)
    ensures
        match keys {
            Ok(names) => names.deep_view().no_duplicates() && json_object_keys(bytes@) == Some(
                names.deep_view().to_set(),
            ),
            Err(_) => json_object_keys(bytes@) is None,
        },
{
    match serde_json::from_slice::<std::collections::HashMap<String, serde_json::Value>>(bytes) {
        Ok(object) => Ok(object.into_keys().collect()),
        Err(error) => Err(error),
    }
}

/// The text of a `serde_json::Error`, as its `to_string` gives it. Nothing
/// is claimed of the text.
#[verifier::external_body]
pub(crate) fn json_error_text(error: &serde_json::Error) -> (text: String) {
    error.to_string()
}

} // verus!
