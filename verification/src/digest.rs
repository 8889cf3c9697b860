//! SHA-1 digests in hexadecimal.

use vstd::prelude::*;

verus! {

/// The SHA-1 digest of a byte string.
pub uninterp spec fn sha1(bytes: Seq<u8>) -> Seq<u8>;

/// The lowercase hexadecimal digit for a value below sixteen.
pub open spec fn hex_char(value: u8) -> char {
    if value < 10 {
        ((48 + value) as u8) as char
    } else {
        ((87 + value) as u8) as char
    }
}

/// Two lowercase hexadecimal digits for each byte, the high half first.
pub open spec fn hex(bytes: Seq<u8>) -> Seq<char> {
    Seq::new(
        2 * bytes.len(),
        |i: int|
            if i % 2 == 0 {
                hex_char(bytes[i / 2] / 16)
            } else {
                hex_char(bytes[i / 2] % 16)
            },
    )
}

proof fn lemma_hex_char(left: u8, right: u8)
    requires
        left < 16,
        right < 16,
        hex_char(left) == hex_char(right),
    ensures
        left == right,
{
    assert(hex_char(left) as u32 == if left < 10 { 48 + left } else { 87 + left });
    assert(hex_char(right) as u32 == if right < 10 { 48 + right } else { 87 + right });
}

/// Byte strings with the same hexadecimal digits are the same.
pub proof fn law_hex_tells_bytes_apart(left: Seq<u8>, right: Seq<u8>)
    requires
        hex(left) == hex(right),
    ensures
        left == right,
{
    assert(hex(left).len() == 2 * left.len());
    assert(hex(right).len() == 2 * right.len());
    assert forall|i: int| 0 <= i < left.len() implies #[trigger] left[i] == right[i] by {
        assert((2 * i) / 2 == i && (2 * i + 1) / 2 == i);
        assert((2 * i) % 2 == 0 && (2 * i + 1) % 2 == 1);
        assert(hex(left)[2 * i] == hex_char(left[i] / 16));
        assert(hex(right)[2 * i] == hex_char(right[i] / 16));
        assert(hex(left)[2 * i + 1] == hex_char(left[i] % 16));
        assert(hex(right)[2 * i + 1] == hex_char(right[i] % 16));
        lemma_hex_char(left[i] / 16, right[i] / 16);
        lemma_hex_char(left[i] % 16, right[i] % 16);
    }
    assert(left =~= right);
}

/// `sha1::Sha1::digest`: the digest is a function of the bytes alone, and twenty bytes long.
#[verifier::external_body]
fn sha1_digest(bytes: &[u8]) -> (digest: Vec<u8>)
    ensures
        digest@ == sha1(bytes@),
        digest@.len() == 20,
{
    <sha1::Sha1 as sha1::Digest>::digest(bytes).to_vec()
}

fn hex_digit(value: u8) -> (digit: char)
    requires
        value < 16,
    ensures
        digit == hex_char(value),
{
    if value < 10 {
        (48 + value) as char
    } else {
        (87 + value) as char
    }
}

/// Writes bytes in hexadecimal.
pub fn hex_text(bytes: &[u8]) -> (text: String)
    ensures
        text@ == hex(bytes@),
{
    let mut text = String::new();
    let mut i: usize = 0;
    while i < bytes.len()
        invariant
            i <= bytes.len(),
            text@ =~= hex(bytes@.take(i as int)),
        decreases bytes.len() - i,
    {
        text.push(hex_digit(bytes[i] / 16));
        text.push(hex_digit(bytes[i] % 16));
        i += 1;
    }
    assert(bytes@.take(i as int) =~= bytes@);
    text
}

/// The SHA-1 digest of the bytes, as forty lowercase hexadecimal digits.
pub fn sha1_hex(bytes: &[u8]) -> (text: String)
    ensures
        text@ == hex(sha1(bytes@)),
        text@.len() == 40,
{
    let digest = sha1_digest(bytes);
    hex_text(digest.as_slice())
}

} // verus!
