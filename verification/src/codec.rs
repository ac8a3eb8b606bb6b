//! Base64 text for message bodies, computed by the `base64` crate.

use vstd::prelude::*;
use base64::Engine;

verus! {

/// What `base64::engine::general_purpose::STANDARD.encode` writes for some bytes.
pub uninterp spec fn base64_encoded(data: Seq<u8>) -> Seq<char>;

/// What `base64::engine::general_purpose::STANDARD.decode` makes of some
/// bytes of text: the decoded bytes, or the `Display` text of the
/// `base64::DecodeError` it returns.
pub uninterp spec fn base64_decoded(text: Seq<u8>) -> Result<Seq<u8>, Seq<char>>;

/// Decoding gave these bytes.
pub open spec fn decoded_as(bytes: Seq<u8>) -> Result<Seq<u8>, Seq<char>> {
    Ok(bytes)
}

/// Decoding failed with this error text.
pub open spec fn not_decoded(error_text: Seq<char>) -> Result<Seq<u8>, Seq<char>> {
    Err(error_text)
}

/// The longest body chunk that `encode_body` takes; a longer input could
/// overflow the computation of the output length in the `base64` crate.
pub open spec fn encodable_len(n: nat) -> bool {
    n / 3 * 4 + 4 <= usize::MAX
}

/// Calls `base64::engine::general_purpose::STANDARD.encode`. The result is
/// named `base64_encoded` of the input. Decoding the encoded text gives the
/// input back: the engine writes canonical padded text, which its decoder
/// accepts and reads back, as the crate's round-trip tests check.
#[verifier::external_body]
pub(crate) fn encode_body(body: &[u8]) -> (text: String)
    requires
        encodable_len(body@.len()),
    ensures
        text@ == base64_encoded(body@),
        base64_decoded(vstd::utf8::encode_utf8(text@)) == decoded_as(body@),
{
    base64::engine::general_purpose::STANDARD.encode(body)
}

/// Calls `base64::engine::general_purpose::STANDARD.decode` on the bytes of
/// the text; an error is handed back as its `Display` text. The result is
/// `base64_decoded` of those bytes.
#[verifier::external_body]
pub(crate) fn decode_body(body_base64: &str) -> (r: Result<Vec<u8>, String>)
    ensures
        match r {
            Ok(bytes) => base64_decoded(vstd::utf8::encode_utf8(body_base64@)) == decoded_as(bytes@),
            Err(text) => base64_decoded(vstd::utf8::encode_utf8(body_base64@)) == not_decoded(text@),
        },
{
    match base64::engine::general_purpose::STANDARD.decode(body_base64) {
        Ok(bytes) => Ok(bytes),
        Err(error) => Err(format!("{error}")),
    }
}

} // verus!
