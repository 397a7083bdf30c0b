//! The trusted boundary to the JSON parser.
//!
//! Venue payloads arrive as JSON text and are parsed by `serde_json`; the
//! parsed document is opaque here, and the decoder walks it through the
//! items below, pulling out the strings that the verified code then reads
//! as numbers.

use vstd::prelude::*;

verus! {

#[verifier::external_type_specification]
#[verifier::external_body]
pub struct ExValue(serde_json::Value);

#[verifier::external_type_specification]
#[verifier::external_body]
pub struct ExJsonError(serde_json::Error);

/// Whether `serde_json` accepts a text as a JSON document.  The answer
/// depends on the characters of the text alone.
pub uninterp spec fn json_wf(s: Seq<char>) -> bool;

/// Relies on `serde_json::from_str::<Value>`: it returns `Ok` exactly on
/// the texts it accepts as JSON documents.
#[verifier::external_body]
pub fn json_parse(s: &str) -> (r: Result<serde_json::Value, serde_json::Error>)
    ensures
        r is Ok <==> json_wf(s@),
{
    serde_json::from_str::<serde_json::Value>(s)
}

/// `serde_json::Value::get`: `Some` exactly when the value is an array
/// with that slot (index) or an object holding that key (string).
pub assume_specification<I: serde_json::value::Index>[ serde_json::Value::get ](
    v: &serde_json::Value,
    index: I,
) -> Option<&serde_json::Value>;

/// `serde_json::Value::as_str`: `Some` exactly on JSON strings.
pub assume_specification[ serde_json::Value::as_str ](v: &serde_json::Value) -> Option<&str>;

} // verus!
