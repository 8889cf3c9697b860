//! Chunk ids: which texts are UUIDs, and how an id is derived from a chunk's content.

use vstd::prelude::*;
use vstd::utf8::*;

verus! {

/// The hyphenated version 5 UUID of a name within a namespace.
pub uninterp spec fn uuid_v5(namespace: u128, name: Seq<u8>) -> Seq<char>;

/// Whether the character is a hexadecimal digit, in either case.
pub open spec fn is_hex(c: char) -> bool {
    ('0' <= c <= '9') || ('a' <= c <= 'f') || ('A' <= c <= 'F')
}

/// Eight, four, four, four and twelve hexadecimal digits with hyphens between the groups.
pub open spec fn is_hyphenated_uuid(text: Seq<char>) -> bool {
    &&& text.len() == 36
    &&& forall|i: int|
        0 <= i < 36 ==> if i == 8 || i == 13 || i == 18 || i == 23 {
            #[trigger] text[i] == '-'
        } else {
            is_hex(text[i])
        }
}

/// A hyphenated UUID in lowercase, of this version and of the variant that all versions share.
pub open spec fn is_versioned_uuid(text: Seq<char>, version: char) -> bool {
    &&& is_hyphenated_uuid(text)
    &&& forall|i: int| 0 <= i < 36 ==> !('A' <= #[trigger] text[i] <= 'F')
    &&& text[14] == version
    &&& text[19] == '8' || text[19] == '9' || text[19] == 'a' || text[19] == 'b'
}

/// Whether two characters are the same letter in either case, or the same character.
pub open spec fn same_letter(c: char, lower: char) -> bool {
    c == lower || ('a' <= lower <= 'z' && c as u32 + 32 == lower as u32)
}

/// A UUID in one of the accepted spellings: plain digits, hyphenated, hyphenated in braces, or
/// hyphenated behind `urn:uuid:` in any case.
pub open spec fn is_uuid(text: Seq<char>) -> bool {
    ||| text.len() == 32 && forall|i: int| 0 <= i < 32 ==> is_hex(#[trigger] text[i])
    ||| is_hyphenated_uuid(text)
    ||| {
        &&& text.len() == 38
        &&& text[0] == '{'
        &&& text[37] == '}'
        &&& is_hyphenated_uuid(text.subrange(1, 37))
    }
    ||| {
        let urn = seq!['u', 'r', 'n', ':', 'u', 'u', 'i', 'd', ':'];
        &&& text.len() == 45
        &&& forall|i: int| 0 <= i < 9 ==> same_letter(#[trigger] text[i], urn[i])
        &&& is_hyphenated_uuid(text.skip(9))
    }
}

/// The id derived from a chunk's content within a namespace.
pub open spec fn content_id(namespace: u128, content: Seq<char>) -> Seq<char> {
    uuid_v5(namespace, encode_utf8(content))
}

/// `uuid::Uuid::parse_str`: it accepts exactly the spellings of `is_uuid`. Which UUID was read is
/// not used.
#[verifier::external_body]
fn parses_as_uuid(text: &str) -> (accepted: bool)
    ensures
        accepted == is_uuid(text@),
{
    uuid::Uuid::parse_str(text).is_ok()
}

/// `uuid::Uuid::new_v5`: the id is a function of the namespace and the name alone, is of version 5,
/// and prints hyphenated and in lowercase.
#[verifier::external_body]
fn name_based_id(namespace: u128, name: &[u8]) -> (id: String)
    ensures
        id@ == uuid_v5(namespace, name@),
        is_versioned_uuid(id@, '5'),
{
    uuid::Uuid::new_v5(&uuid::Uuid::from_u128(namespace), name).to_string()
}

/// Where fresh ids come from. It remembers which ids it has made.
pub struct IdSource {
    issued: Ghost<Set<Seq<char>>>,
}

impl IdSource {
    /// The ids that the source has made.
    pub closed spec fn issued(self) -> Set<Seq<char>> {
        self.issued@
    }

    /// A source that has made no id.
    pub fn new() -> (source: IdSource)
        ensures
            source.issued() == Set::<Seq<char>>::empty(),
    {
        IdSource { issued: Ghost(Set::empty()) }
    }

    /// `uuid::Uuid::now_v7`: an id of version 7, made of the current time, a counter and random
    /// bits, printed hyphenated and in lowercase. All ids that it makes in one process are ordered
    /// by their creation, so that no two of them are the same. Which id it is depends on the clock
    /// and on chance; so does whether another process made it before. The call panics where the
    /// clock stands before the Unix epoch, or where the system gives no random bits; no argument
    /// decides that.
    #[verifier::external_body]
    pub(crate) fn next_id(&mut self) -> (id: String)
        ensures
            is_versioned_uuid(id@, '7'),
            !old(self).issued().contains(id@),
            final(self).issued() == old(self).issued().insert(id@),
    {
        uuid::Uuid::now_v7().to_string()
    }
}

/// Whether a debug id found on a chunk is no UUID, so that it cannot serve as a chunk id.
pub fn is_malformed_debug_id(debug_id: &str) -> (malformed: bool)
    ensures
        malformed == !is_uuid(debug_id@),
{
    !parses_as_uuid(debug_id)
}

/// Derives a chunk id from the pristine minified source, as a version 5 UUID within the namespace
/// of chunk ids. Identical builds produce identical ids on every machine and rebuild.
///
/// The source map is no part of the identity: it carries the original sources, so an edit of a
/// comment rewrites the map while the minified code stays the same.
pub fn stable_chunk_id(namespace: u128, source_content: &str) -> (id: String)
    ensures
        id@ == content_id(namespace, source_content@),
        id@ == uuid_v5(namespace, encode_utf8(source_content@)),
        is_versioned_uuid(id@, '5'),
        is_uuid(id@),
{
    name_based_id(namespace, source_content.as_bytes())
}

} // verus!
