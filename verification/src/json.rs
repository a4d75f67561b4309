//! The trusted boundary to the JSON collaborator: the value type, its
//! compact byte encoding, and its decoding, each with the contract that
//! serde_json's source and documentation support.

use crate::records::{rs_free, LF};
use vstd::prelude::*;

verus! {

#[verifier::external_type_specification]
#[verifier::external_body]
pub struct ExValue(serde_json::Value);

#[verifier::external_type_specification]
#[verifier::external_body]
pub struct ExJsonError(serde_json::Error);

/// The compact byte encoding of a JSON value, as serde_json writes it.
pub uninterp spec fn json_encoding(v: serde_json::Value) -> Seq<u8>;

/// What serde_json parses out of a byte sequence: the value, or nothing
/// when the bytes are not one JSON text it accepts.
pub uninterp spec fn json_decoding(s: Seq<u8>) -> Option<serde_json::Value>;

/// The nesting depth of a JSON value, as serde_json's parser charges it
/// against the fixed recursion limit of 128 that guards `from_slice`.
pub uninterp spec fn json_depth(v: serde_json::Value) -> nat;

/// Relies on serde_json::to_vec: it writes the compact encoding, which for a
/// `serde_json::Value` always succeeds (its `Serialize` never fails and its
/// maps have string keys), is never empty, and escapes every control
/// character inside strings, so no separator octet ever appears in it.
#[verifier::external_body]
pub(crate) fn encode_value(value: &serde_json::Value) -> (r: Result<Vec<u8>, serde_json::Error>)
    ensures
        r is Ok,
        r matches Ok(b) ==> b@ == json_encoding(*value) && b@.len() > 0 && rs_free(b@),
{
    serde_json::to_vec(value)
}

/// Relies on serde_json::from_slice: it parses one JSON text, tolerating
/// trailing whitespace, and deterministically; its recursion limit keeps
/// every value it builds within depth 128. On the compact encoding of a
/// value, with or without a trailing line feed, it succeeds whenever the
/// value's nesting stays within that limit, and what it returns is that
/// value: with the float_roundtrip feature on, numbers parse back to the
/// exact floats that were written.
#[verifier::external_body]
pub(crate) fn decode_value(bytes: &[u8]) -> (r: Result<serde_json::Value, serde_json::Error>)
    ensures
        r matches Ok(v) ==> json_decoding(bytes@) == Some(v),
        r matches Ok(v) ==> json_depth(v) <= 128,
        r is Err ==> json_decoding(bytes@) is None,
        r matches Ok(v) ==> forall|w: serde_json::Value| #![trigger json_encoding(w)]
            (bytes@ == json_encoding(w) || bytes@ == json_encoding(w).push(LF)) ==> v == w,
        r is Err ==> forall|w: serde_json::Value| #![trigger json_encoding(w)]
            json_depth(w) <= 128 ==> bytes@ != json_encoding(w) && bytes@ != json_encoding(
                w,
            ).push(LF),
{
    serde_json::from_slice(bytes)
}

} // verus!
