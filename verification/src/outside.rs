//! Calls to the outside: JSON, base64, UTF-8 and random identifiers.
use vstd::prelude::*;
use vstd::utf8::{decode_utf8, valid_utf8};
use base64::Engine;

verus! {

/// The error of `serde_json`.
#[verifier::external_type_specification]
#[verifier::external_body]
pub struct ExJsonError(serde_json::Error);

/// The error of `base64` decoding.
#[verifier::external_type_specification]
#[verifier::external_body]
pub struct ExDecodeError(base64::DecodeError);

// ---------------------------------------------------------------------------
// JSON
// ---------------------------------------------------------------------------

/// What a JSON text holds under a name at its top level: `None` where the bytes are no JSON text,
/// and `Some(None)` where there is no string under that name.
pub uninterp spec fn json_string_member(body: Seq<u8>, key: Seq<char>) -> Option<Option<Seq<char>>>;

/// A JSON text written without white space: `None` where the bytes are no JSON text.
pub uninterp spec fn json_compact_text(body: Seq<u8>) -> Option<Seq<char>>;

/// The content of an optional string.
pub open spec fn optional_text(s: Option<String>) -> Option<Seq<char>> {
    match s {
        Some(t) => Some(t@),
        None => None,
    }
}

/// Reads bytes by `serde_json::from_slice`, and looks a string up by `Value::get` and
/// `Value::as_str`. The contract says that the result depends on nothing but the bytes and the name,
/// and that there is one exactly if the bytes are a JSON text.
#[verifier::external_body]
pub(crate) fn json_member(body: &[u8], key: &str) -> (r: Result<Option<String>, serde_json::Error>)
    ensures
        match r {
            Ok(s) => json_string_member(body@, key@) == Some(optional_text(s)),
            Err(_) => json_string_member(body@, key@) is None,
        },
        r is Ok <==> json_compact_text(body@) is Some,
{
    let value: serde_json::Value = serde_json::from_slice(body)?;
    Ok(value.get(key).and_then(|v| v.as_str()).map(|s| s.to_string()))
}

/// Reads bytes by `serde_json::from_slice`, and writes the value as its `Display` does. The
/// contract says only that the result depends on nothing but the bytes.
#[verifier::external_body]
pub(crate) fn json_text(body: &[u8]) -> (r: Result<String, serde_json::Error>)
    ensures
        match r {
            Ok(s) => json_compact_text(body@) == Some(s@),
            Err(_) => json_compact_text(body@) is None,
        },
{
    let value: serde_json::Value = serde_json::from_slice(body)?;
    Ok(value.to_string())
}

// ---------------------------------------------------------------------------
// Base64
// ---------------------------------------------------------------------------

/// The bytes that a text stands for in the standard base64 alphabet with padding: `None` where it
/// stands for none.
pub uninterp spec fn base64_bytes(text: Seq<char>) -> Option<Seq<u8>>;

/// Calls `decode` of `base64::engine::general_purpose::STANDARD`. The contract says only that the
/// result depends on nothing but the text.
#[verifier::external_body]
pub(crate) fn base64_decode(text: &str) -> (r: Result<Vec<u8>, base64::DecodeError>)
    ensures
        match r {
            Ok(v) => base64_bytes(text@) == Some(v@),
            Err(_) => base64_bytes(text@) is None,
        },
{
    base64::engine::general_purpose::STANDARD.decode(text)
}

// ---------------------------------------------------------------------------
// UTF-8
// ---------------------------------------------------------------------------

/// Calls `String::from_utf8`: bytes are a text exactly if they are valid UTF-8, and the text is what
/// they encode.
#[verifier::external_body]
pub(crate) fn text_of(bytes: Vec<u8>) -> (r: Option<String>)
    ensures
        match r {
            Some(s) => valid_utf8(bytes@) && s@ == decode_utf8(bytes@),
            None => !valid_utf8(bytes@),
        },
{
    String::from_utf8(bytes).ok()
}

// ---------------------------------------------------------------------------
// Identifiers
// ---------------------------------------------------------------------------

/// A lower-case hexadecimal digit.
pub open spec fn hex_digit(c: char) -> bool {
    '0' <= c <= '9' || 'a' <= c <= 'f'
}

/// The text of a random (version 4) UUID: groups of 8, 4, 4, 4 and 12 hexadecimal digits with
/// hyphens between them, of which the first of the third group is `4`, and the first of the fourth
/// is `8`, `9`, `a` or `b`.
pub open spec fn random_uuid_text(s: Seq<char>) -> bool {
    &&& s.len() == 36
    &&& forall|i: int|
        0 <= i < 36 ==> if i == 8 || i == 13 || i == 18 || i == 23 {
            #[trigger] s[i] == '-'
        } else {
            hex_digit(s[i])
        }
    &&& s[14] == '4'
    &&& s[19] == '8' || s[19] == '9' || s[19] == 'a' || s[19] == 'b'
}

/// Calls `uuid::Uuid::new_v4` and writes it as its `Display` does. The contract gives the form of
/// the text; the rest of it is left to chance.
#[verifier::external_body]
pub(crate) fn random_uuid() -> (r: String)
    ensures
        random_uuid_text(r@),
{
    uuid::Uuid::new_v4().to_string()
}

} // verus!
