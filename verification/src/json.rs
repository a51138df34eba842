//! The JSON value type the extension protocol carries through, and the few
//! `serde_json` calls the library makes on it.

use vstd::prelude::*;

verus! {

/// `serde_json::Value`, carried through opaquely.
#[verifier::external_type_specification]
#[verifier::external_body]
pub struct ExJsonValue(serde_json::Value);

/// `serde_json::Error`, the error of a failed serialization.
#[verifier::external_type_specification]
#[verifier::external_body]
pub struct ExJsonError(serde_json::Error);

/// The compact JSON text `serde_json::to_string` writes for `value`, when
/// it serializes.
pub uninterp spec fn json_text(value: serde_json::Value) -> Option<Seq<char>>;

/// `serde_json::to_string` on a value: `Ok` exactly when the value
/// serializes, with the text named (`json_text`).
#[verifier::external_body]
pub(crate) fn json_to_string(value: &serde_json::Value) -> (r: Result<String, serde_json::Error>)
    ensures
        match r {
            Ok(t) => json_text(*value) == Some(t@),
            Err(_) => json_text(*value) is None,
        },
{
    serde_json::to_string(value)
}

/// The `Display` text of a `serde_json::Error`.  Nothing is claimed of it.
#[verifier::external_body]
pub(crate) fn json_error_text(error: &serde_json::Error) -> String {
    error.to_string()
}

/// `Value::clone`: serde_json derives `Clone` for `Value`, so the copy is
/// the same value.
#[verifier::external_body]
pub(crate) fn json_clone(value: &serde_json::Value) -> (r: serde_json::Value)
    ensures
        r == *value,
{
    value.clone()
}

} // verus!
