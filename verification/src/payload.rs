//! Payloads: what a participant writes about themselves, as it is stored.
//!
//! The store keeps names and hints as opaque text. This module turns what
//! a participant typed into that text and back.

use base64::Engine;
use vstd::prelude::*;
use vstd::utf8::*;

verus! {

/// The text that the standard base64 engine writes for a byte string.
pub uninterp spec fn base64_text(bytes: Seq<u8>) -> Seq<char>;

/// The bytes that the standard base64 engine reads out of a text, or `None`
/// where it reports an error.
pub uninterp spec fn base64_bytes(text: Seq<char>) -> Option<Seq<u8>>;

/// The input is short enough for its encoding to have a length.
pub open spec fn encodable(len: nat) -> bool {
    len / 3 * 4 + 4 <= usize::MAX
}

/// The payload that stands for a text.
pub open spec fn payload_of(text: Seq<char>) -> Seq<char> {
    base64_text(encode_utf8(text))
}

/// The text that a payload stands for, if it stands for one.
pub open spec fn text_of(payload: Seq<char>) -> Option<Seq<char>> {
    match base64_bytes(payload) {
        Some(bytes) => if valid_utf8(bytes) {
            Some(decode_utf8(bytes))
        } else {
            None
        },
        None => None,
    }
}

/// Calls `Engine::encode` on `BASE64_STANDARD`. The text is the engine's
/// encoding of the bytes, and the same engine decodes it to the same bytes.
/// The engine gives up on inputs whose encoded length does not fit a `usize`.
#[verifier::external_body]
fn base64_encode(bytes: &[u8]) -> (text: String)
    requires
        encodable(bytes@.len()),
    ensures
        text@ == base64_text(bytes@),
        base64_bytes(text@) == Some(bytes@),
{
    base64::prelude::BASE64_STANDARD.encode(bytes)
}

/// Calls `Engine::decode` on `BASE64_STANDARD`. On success the bytes are the
/// ones the text stands for; the engine's error, which says where the text
/// went wrong, is dropped.
#[verifier::external_body]
fn base64_decode(text: &str) -> (decoded: Option<Vec<u8>>)
    ensures
        match decoded {
            Some(bytes) => base64_bytes(text@) == Some(bytes@),
            None => base64_bytes(text@) is None,
        },
{
    base64::prelude::BASE64_STANDARD.decode(text).ok()
}

/// Calls `String::from_utf8`: the bytes become a string exactly if they are
/// valid UTF-8, and the string then holds the characters they encode.
#[verifier::external_body]
fn utf8_string(bytes: Vec<u8>) -> (text: Option<String>)
    ensures
        match text {
            Some(s) => valid_utf8(bytes@) && s@ == decode_utf8(bytes@),
            None => !valid_utf8(bytes@),
        },
{
    String::from_utf8(bytes).ok()
}

/// Encodes what a participant typed as a payload. The payload decodes to the
/// same text. A text too long for its encoding to have a length has no
/// payload.
pub fn encode_payload(text: &str) -> (payload: Option<String>)
    ensures
        match payload {
            Some(encoded) => {
                &&& encodable(encode_utf8(text@).len())
                &&& encoded@ == payload_of(text@)
                &&& text_of(encoded@) == Some(text@)
            },
            None => !encodable(encode_utf8(text@).len()),
        },
{
    let bytes = text.as_bytes();
    if bytes.len() / 3 > (usize::MAX - 4) / 4 {
        return None;
    }
    proof {
        encode_utf8_valid_utf8(text@);
        encode_utf8_decode_utf8(text@);
    }
    Some(base64_encode(bytes))
}

/// Decodes a payload to the text it stands for. A payload that is not base64,
/// or whose bytes are not text, stands for none.
pub fn decode_payload(payload: &str) -> (text: Option<String>)
    ensures
        match text {
            Some(s) => text_of(payload@) == Some(s@),
            None => text_of(payload@) is None,
        },
{
    match base64_decode(payload) {
        Some(bytes) => utf8_string(bytes),
        None => None,
    }
}

} // verus!
