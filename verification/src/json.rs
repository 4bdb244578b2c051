//! The JSON values that cross the wire, as `serde_json` represents them, and
//! the few `serde_json` / `std::io` calls the codec makes on raw bytes.
use vstd::prelude::*;

verus! {

/// A JSON value (`serde_json::Value`); opaque here, carried through.
#[verifier::external_type_specification]
#[verifier::external_body]
pub struct ExJsonValue(serde_json::Value);

/// A `serde_json` (de)serialization error; opaque here.
#[verifier::external_type_specification]
#[verifier::external_body]
pub struct ExJsonError(serde_json::Error);

/// A `std::io` error; opaque here.
#[verifier::external_type_specification]
#[verifier::external_body]
pub struct ExIoError(std::io::Error);

/// `<serde_json::Value as Clone>::clone` (derived). Claimed: the copy equals
/// the original.
pub assume_specification[ <serde_json::Value as Clone>::clone ](v: &serde_json::Value) -> (r: serde_json::Value)
    ensures
        r == *v,
;

/// The JSON value `serde_json::from_slice::<Value>` reads from `bytes`
/// (`None` when the bytes are not one JSON text, surrounding whitespace
/// allowed).
pub uninterp spec fn json_from_bytes(bytes: Seq<u8>) -> Option<serde_json::Value>;

/// The bytes `serde_json::to_vec` writes for `v` (`None` when it fails).
pub uninterp spec fn json_to_bytes(v: serde_json::Value) -> Option<Seq<u8>>;

/// The four bytes `null`.
pub open spec fn null_text() -> Seq<u8> {
    seq![110u8, 117u8, 108u8, 108u8]
}

/// `serde_json::from_slice::<serde_json::Value>`: parse one JSON text.
/// Claimed: it succeeds exactly when `json_from_bytes` of the bytes is
/// `Some`, and then yields that value; which error it reports is unsaid.
#[verifier::external_body]
pub(crate) fn json_parse(bytes: &[u8]) -> (r: Result<serde_json::Value, serde_json::Error>)
    ensures
        match r {
            Ok(v) => json_from_bytes(bytes@) == Some(v),
            Err(_) => json_from_bytes(bytes@) is None,
        },
{
    serde_json::from_slice::<serde_json::Value>(bytes)
}

/// `serde_json::to_vec` on a JSON value. Claimed: the bytes written are
/// `json_to_bytes(v)`; failure exactly when that is `None`. Of the bytes
/// written, also claimed (the compact writer's output): they hold no newline
/// byte (control characters inside strings are escaped, and no whitespace is
/// written between tokens), their first byte is not whitespace, and a
/// trailing newline does not change what they parse to (the reader skips
/// trailing whitespace). Whether they parse back to `v` itself is not
/// stated: without serde_json's `float_roundtrip` feature a float may come
/// back one unit in the last place off.
#[verifier::external_body]
pub(crate) fn json_encode(v: &serde_json::Value) -> (r: Result<Vec<u8>, serde_json::Error>)
    ensures
        match r {
            Ok(b) => json_to_bytes(*v) == Some(b@),
            Err(_) => json_to_bytes(*v) is None,
        },
        r matches Ok(b) ==> !b@.contains(10u8),
        r matches Ok(b) ==> (b@.len() > 0 && b@[0] != 32u8 && b@[0] != 9u8 && b@[0] != 12u8 && b@[0] != 13u8),
        r matches Ok(b) ==> json_from_bytes(b@.push(10u8)) == json_from_bytes(b@),
{
    serde_json::to_vec(v)
}

/// `serde_json::Value::Null`. Claimed: it is the value the text `null`
/// parses to.
#[verifier::external_body]
pub(crate) fn json_null() -> (r: serde_json::Value)
    ensures
        json_from_bytes(null_text()) == Some(r),
{
    serde_json::Value::Null
}

/// `<serde_json::Value as PartialEq>::eq` against `Value::Null`. Claimed: true
/// exactly for the value the text `null` parses to.
#[verifier::external_body]
pub(crate) fn json_is_null(v: &serde_json::Value) -> (r: bool)
    ensures
        r == (json_from_bytes(null_text()) == Some(*v)),
{
    v.is_null()
}

} // verus!
