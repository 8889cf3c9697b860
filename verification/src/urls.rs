//! Percent-encoded URLs.

use vstd::prelude::*;
use vstd::utf8::*;

verus! {

/// The value of a hexadecimal digit, in either case.
pub open spec fn hex_value(byte: u8) -> Option<u8> {
    if 48 <= byte <= 57 {
        Some((byte - 48) as u8)
    } else if 65 <= byte <= 70 {
        Some((byte - 55) as u8)
    } else if 97 <= byte <= 102 {
        Some((byte - 87) as u8)
    } else {
        None
    }
}

/// The bytes with every `%` and two hexadecimal digits turned into the byte they stand for. A `%`
/// that no two digits follow stands for itself.
pub open spec fn percent_decoded(bytes: Seq<u8>) -> Seq<u8>
    decreases bytes.len(),
{
    if bytes.len() == 0 {
        Seq::empty()
    } else if bytes.len() >= 3 && bytes[0] == 37 && hex_value(bytes[1]) is Some && hex_value(
        bytes[2],
    ) is Some {
        seq![(16 * hex_value(bytes[1])->0 + hex_value(bytes[2])->0) as u8] + percent_decoded(
            bytes.skip(3),
        )
    } else {
        seq![bytes[0]] + percent_decoded(bytes.skip(1))
    }
}

/// The text that a percent-encoded text stands for, where the decoded bytes are UTF-8.
pub open spec fn url_decoded(data: Seq<char>) -> Option<Seq<char>> {
    let bytes = percent_decoded(encode_utf8(data));
    if valid_utf8(bytes) {
        Some(decode_utf8(bytes))
    } else {
        None
    }
}

/// `urlencoding::decode`: it fails exactly where the decoded bytes are no UTF-8.
#[verifier::external_body]
pub(crate) fn url_decode(data: &str) -> (decoded: Option<String>)
    ensures
        crate::text::opt_text(decoded) == url_decoded(data@),
{
    match urlencoding::decode(data) {
        Ok(decoded) => Some(decoded.into_owned()),
        Err(_) => None,
    }
}

} // verus!
