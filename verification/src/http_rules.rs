//! What the `http` crate (through `axum::http`) decides about status codes
//! and header names.

use vstd::prelude::*;

verus! {

/// How `http` reads one byte of a header name (its `HEADER_CHARS` table):
/// upper-case letters become lower-case, the other token characters stay,
/// and every other byte maps to 0, which refuses the name.
pub open spec fn header_name_byte(b: u8) -> u8 {
    if 65 <= b <= 90 {
        (b + 32) as u8
    } else if (97 <= b <= 122) || (48 <= b <= 57) || b == 33 || (35 <= b <= 39) || b == 42
        || b == 43 || b == 45 || b == 46 || (94 <= b <= 96) || b == 124 || b == 126 {
        b
    } else {
        0
    }
}

/// The longest header name that `http` accepts.
pub open spec fn max_header_name_len() -> nat {
    65535
}

/// The name that `http::HeaderName::from_bytes` makes of some bytes: from 1
/// to 65535 bytes, each a token character, taken lower-case; else `None`.
pub open spec fn header_name_parsed(name: Seq<u8>) -> Option<Seq<char>> {
    if 1 <= name.len() <= max_header_name_len() && forall|i: int|
        0 <= i < name.len() ==> header_name_byte(#[trigger] name[i]) != 0 {
        Some(name.map_values(|b: u8| header_name_byte(b) as char))
    } else {
        None
    }
}

/// Calls `http::StatusCode::from_u16`, which accepts exactly the codes from
/// 100 to 999 (its documentation and source say so).
#[verifier::external_body]
pub(crate) fn status_code_valid(status: u16) -> (r: bool)
    ensures
        r == (100 <= status && status <= 999),
{
    axum::http::StatusCode::from_u16(status).is_ok()
}

/// Calls `http::HeaderName::from_bytes` on the UTF-8 bytes of `name` and
/// gives back the text of the header name it makes (`as_str`): as its
/// source (`parse_hdr` over `HEADER_CHARS`) shows, exactly
/// `header_name_parsed` of those bytes.
#[verifier::external_body]
pub(crate) fn parse_header_name(name: &str) -> (r: Option<String>)
    ensures
        r is None <==> header_name_parsed(vstd::utf8::encode_utf8(name@)) is None,
        r matches Some(n) ==> header_name_parsed(vstd::utf8::encode_utf8(name@)) == Some(n@),
{
    match axum::http::HeaderName::from_bytes(name.as_bytes()) {
        Ok(header_name) => Some(header_name.as_str().to_owned()),
        Err(_) => None,
    }
}

} // verus!
