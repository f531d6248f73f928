//! The text of the context header: the context's serialized bytes in
//! standard base64 (with padding).
//!
//! The bytes themselves are the context serialized by bincode, which the
//! application does; the library encodes and decodes the header text with
//! the `base64` crate.
use base64::{engine::general_purpose::STANDARD as BASE64, Engine as _};
use vstd::prelude::*;

use crate::context::{invalid_context_header_base64_message, invalid_header_message, BASE64_REASON};

verus! {

/// What the standard base64 engine encodes `bytes` to.
pub uninterp spec fn base64_encoding(bytes: Seq<u8>) -> Seq<char>;

/// What the standard base64 engine decodes `text` to: the bytes, or the
/// text of the decoding error.
pub uninterp spec fn base64_decoding(text: Seq<char>) -> Result<Seq<u8>, Seq<char>>;

/// Decoding succeeded with `bytes`.
pub open spec fn decoded_ok(bytes: Seq<u8>) -> Result<Seq<u8>, Seq<char>> {
    Ok(bytes)
}

/// `Engine::encode` of `base64::engine::general_purpose::STANDARD`: the
/// base64 text of `bytes`. Decoding that text gives `bytes` back (the
/// crate's round-trip property).
#[verifier::external_body]
fn base64_encode(bytes: &[u8]) -> (r: String)
    ensures
        r@ == base64_encoding(bytes@),
        base64_decoding(r@) == decoded_ok(bytes@),
{
    BASE64.encode(bytes)
}

/// `Engine::decode` of `base64::engine::general_purpose::STANDARD`: the
/// decoded bytes, or the `Display` text of the `DecodeError`.
#[verifier::external_body]
fn base64_decode(text: &str) -> (r: Result<Vec<u8>, String>)
    ensures
        match r {
            Ok(v) => base64_decoding(text@) == Ok::<Seq<u8>, Seq<char>>(v@),
            Err(e) => base64_decoding(text@) == Err::<Seq<u8>, Seq<char>>(e@),
        },
{
    match BASE64.decode(text) {
        Ok(v) => Ok(v),
        Err(e) => Err(format!("{}", e)),
    }
}

/// The header text for the serialized context `payload`.
pub fn context_header_string(payload: &[u8]) -> (r: String)
    ensures
        r@ == base64_encoding(payload@),
        base64_decoding(r@) == decoded_ok(payload@),
{
    base64_encode(payload)
}

/// The serialized context carried by the header text `header`, or the
/// message of an invalid base64 header.
pub fn context_header_payload(header: &str) -> (r: Result<Vec<u8>, String>)
    ensures
        match base64_decoding(header@) {
            Ok(bytes) => r matches Ok(v) && v@ == bytes,
            Err(e) => r matches Err(msg) && msg@ == invalid_header_message(BASE64_REASON@, e),
        },
{
    match base64_decode(header) {
        Ok(v) => Ok(v),
        Err(e) => Err(invalid_context_header_base64_message(e.as_str())),
    }
}

} // verus!
