//! Minified chunks, their source maps, and the payload that injection puts into them.

use vstd::prelude::*;
use vstd::utf8::*;

use crate::error::{ErrorView, InjectError};
use crate::paths::{FilePath, PathView};
use crate::text;

verus! {

/// A file that was read.
#[derive(Debug)]
pub struct SourceFile {
    pub path: FilePath,
    /// The text, without what injection put into it.
    pub content: String,
}

/// What injection puts into a chunk.
#[derive(Debug)]
pub struct Payload {
    pub chunk_id: String,
    /// The release that the chunk reports at run time.
    pub release_id: Option<String>,
}

/// A minified chunk.
#[derive(Debug)]
pub struct MinifiedSourceFile {
    pub inner: SourceFile,
    pub payload: Option<Payload>,
}

/// A source map, with the release id stamped into it.
#[derive(Debug)]
pub struct SourceMapFile {
    pub inner: SourceFile,
    pub release_id: Option<String>,
}

/// A minified chunk and its source map.
#[derive(Debug)]
pub struct SourcePair {
    pub source: MinifiedSourceFile,
    pub sourcemap: SourceMapFile,
    /// The debug id that the bundler left in the pair.
    pub debug_id: Option<String>,
    /// Why the chunk or its map cannot be edited, if they cannot.
    pub edit_failure: Option<String>,
}

/// A file as the contracts see it.
#[verifier::ext_equal]
pub struct FileView {
    pub path: PathView,
    pub content: Seq<char>,
}

/// A payload as the contracts see it.
#[verifier::ext_equal]
pub struct PayloadView {
    pub chunk_id: Seq<char>,
    pub release_id: Option<Seq<char>>,
}

/// A chunk as the contracts see it.
#[verifier::ext_equal]
pub struct SourceView {
    pub file: FileView,
    pub payload: Option<PayloadView>,
}

/// A source map as the contracts see it.
#[verifier::ext_equal]
pub struct SourceMapView {
    pub file: FileView,
    pub release_id: Option<Seq<char>>,
}

/// A pair as the contracts see it.
#[verifier::ext_equal]
pub struct PairView {
    pub source: SourceView,
    pub sourcemap: SourceMapView,
    pub debug_id: Option<Seq<char>>,
    pub edit_failure: Option<Seq<char>>,
}

impl View for SourceFile {
    type V = FileView;

    open spec fn view(&self) -> FileView {
        FileView { path: self.path@, content: self.content@ }
    }
}

impl View for Payload {
    type V = PayloadView;

    open spec fn view(&self) -> PayloadView {
        PayloadView { chunk_id: self.chunk_id@, release_id: text::opt_text(self.release_id) }
    }
}

impl View for MinifiedSourceFile {
    type V = SourceView;

    open spec fn view(&self) -> SourceView {
        SourceView {
            file: self.inner@,
            payload: match self.payload {
                Some(payload) => Some(payload@),
                None => None,
            },
        }
    }
}

impl View for SourceMapFile {
    type V = SourceMapView;

    open spec fn view(&self) -> SourceMapView {
        SourceMapView { file: self.inner@, release_id: text::opt_text(self.release_id) }
    }
}

impl View for SourcePair {
    type V = PairView;

    open spec fn view(&self) -> PairView {
        PairView {
            source: self.source@,
            sourcemap: self.sourcemap@,
            debug_id: text::opt_text(self.debug_id),
            edit_failure: text::opt_text(self.edit_failure),
        }
    }
}

impl PairView {
    /// The chunk id that the chunk carries.
    pub open spec fn chunk_id(self) -> Option<Seq<char>> {
        match self.source.payload {
            Some(payload) => Some(payload.chunk_id),
            None => None,
        }
    }

    /// The release id that the chunk carries.
    pub open spec fn injected_release_id(self) -> Option<Seq<char>> {
        match self.source.payload {
            Some(payload) => payload.release_id,
            None => None,
        }
    }

    /// The same pair with another payload in its chunk.
    pub open spec fn with_payload(self, payload: Option<PayloadView>) -> PairView {
        PairView { source: SourceView { payload, ..self.source }, ..self }
    }

    /// The same pair with another release id in its source map.
    pub open spec fn with_release_id(self, release_id: Option<Seq<char>>) -> PairView {
        PairView { sourcemap: SourceMapView { release_id, ..self.sourcemap }, ..self }
    }
}

/// The pairs of a list as the contracts see them.
pub open spec fn pair_views(pairs: Seq<SourcePair>) -> Seq<PairView> {
    pairs.map_values(|pair: SourcePair| pair@)
}

/// The bytes of a payload, each part behind a byte that no text holds.
pub open spec fn payload_bytes(payload: Option<PayloadView>) -> Seq<u8> {
    match payload {
        None => Seq::empty(),
        Some(payload) => match payload.release_id {
            None => seq![0xFFu8] + encode_utf8(payload.chunk_id),
            Some(release_id) => seq![0xFFu8] + encode_utf8(payload.chunk_id) + seq![0xFFu8]
                + encode_utf8(release_id),
        },
    }
}

/// The bytes that stand for what a chunk holds: its text, then its payload.
pub open spec fn source_bytes(source: SourceView) -> Seq<u8> {
    encode_utf8(source.file.content) + payload_bytes(source.payload)
}

/// Whether the bytes are empty or start with the byte that no text holds.
spec fn starts_apart(bytes: Seq<u8>) -> bool {
    bytes.len() == 0 || bytes[0] == 0xFF
}

proof fn lemma_scalar_holds_no_ff(scalar: u32, i: int)
    requires
        0 <= i < encode_scalar(scalar).len(),
    ensures
        encode_scalar(scalar)[i] != 0xFF,
{
    assert((scalar & 0x7F) as u8 != 0xFFu8) by (bit_vector);
    assert(0xC0u8 | ((scalar >> 6) & 0x1F) as u8 != 0xFFu8) by (bit_vector);
    assert(0xE0u8 | ((scalar >> 12) & 0x0F) as u8 != 0xFFu8) by (bit_vector);
    assert(0xF0u8 | ((scalar >> 18) & 0x7) as u8 != 0xFFu8) by (bit_vector);
    assert(0x80u8 | (scalar & 0x3F) as u8 != 0xFFu8) by (bit_vector);
    assert(0x80u8 | ((scalar >> 6) & 0x3F) as u8 != 0xFFu8) by (bit_vector);
    assert(0x80u8 | ((scalar >> 12) & 0x3F) as u8 != 0xFFu8) by (bit_vector);
}

proof fn lemma_text_holds_no_ff(chars: Seq<char>)
    ensures
        forall|i: int| 0 <= i < encode_utf8(chars).len() ==> #[trigger] encode_utf8(chars)[i] != 0xFF,
    decreases chars.len(),
{
    if chars.len() > 0 {
        let first = encode_scalar(chars[0] as u32);
        lemma_text_holds_no_ff(chars.drop_first());
        assert forall|i: int| 0 <= i < encode_utf8(chars).len() implies #[trigger] encode_utf8(
            chars,
        )[i] != 0xFF by {
            if i < first.len() {
                lemma_scalar_holds_no_ff(chars[0] as u32, i);
            } else {
                assert(encode_utf8(chars)[i] == encode_utf8(chars.drop_first())[i - first.len()]);
            }
        }
    }
}

proof fn lemma_cut(left: Seq<char>, left_rest: Seq<u8>, right: Seq<char>, right_rest: Seq<u8>)
    requires
        starts_apart(left_rest),
        starts_apart(right_rest),
        encode_utf8(left) + left_rest == encode_utf8(right) + right_rest,
    ensures
        left == right,
        left_rest == right_rest,
{
    let a = encode_utf8(left);
    let b = encode_utf8(right);
    let whole = a + left_rest;
    lemma_text_holds_no_ff(left);
    lemma_text_holds_no_ff(right);
    if a.len() < b.len() {
        assert(whole[a.len() as int] == b[a.len() as int]);
        assert(whole[a.len() as int] == left_rest[0]);
    }
    if b.len() < a.len() {
        assert(whole[b.len() as int] == a[b.len() as int]);
        assert((b + right_rest)[b.len() as int] == right_rest[0]);
    }
    assert(a =~= whole.take(a.len() as int));
    assert(b =~= whole.take(b.len() as int));
    assert(left_rest =~= whole.skip(a.len() as int));
    assert(right_rest =~= whole.skip(b.len() as int));
    encode_utf8_decode_utf8(left);
    encode_utf8_decode_utf8(right);
}

/// The bytes that stand for what a chunk holds tell its text and its payload: two chunks with the
/// same bytes hold the same.
pub proof fn law_source_bytes_tell_chunks_apart(left: SourceView, right: SourceView)
    requires
        source_bytes(left) == source_bytes(right),
    ensures
        left.file.content == right.file.content,
        left.payload == right.payload,
{
    lemma_cut(
        left.file.content,
        payload_bytes(left.payload),
        right.file.content,
        payload_bytes(right.payload),
    );
    if left.payload is Some {
        let p = left.payload->0;
        let q = right.payload->0;
        let p_rest = match p.release_id {
            None => Seq::<u8>::empty(),
            Some(id) => seq![0xFFu8] + encode_utf8(id),
        };
        let q_rest = match q.release_id {
            None => Seq::<u8>::empty(),
            Some(id) => seq![0xFFu8] + encode_utf8(id),
        };
        assert(payload_bytes(left.payload).skip(1) =~= encode_utf8(p.chunk_id) + p_rest);
        assert(payload_bytes(right.payload).skip(1) =~= encode_utf8(q.chunk_id) + q_rest);
        lemma_cut(p.chunk_id, p_rest, q.chunk_id, q_rest);
        if p.release_id is Some {
            assert(p_rest.skip(1) =~= encode_utf8(p.release_id->0));
            assert(q_rest.skip(1) =~= encode_utf8(q.release_id->0));
            encode_utf8_decode_utf8(p.release_id->0);
            encode_utf8_decode_utf8(q.release_id->0);
        }
    }
}

fn append_bytes(bytes: &mut Vec<u8>, more: &[u8])
    ensures
        final(bytes)@ == old(bytes)@ + more@,
{
    let ghost before = bytes@;
    let mut i: usize = 0;
    while i < more.len()
        invariant
            i <= more.len(),
            bytes@ =~= before + more@.take(i as int),
        decreases more.len() - i,
    {
        bytes.push(more[i]);
        i += 1;
    }
    assert(more@.take(i as int) =~= more@);
}

impl MinifiedSourceFile {
    /// The bytes that stand for what the chunk holds.
    pub fn bytes(&self) -> (bytes: Vec<u8>)
        ensures
            bytes@ == source_bytes(self@),
    {
        let mut bytes: Vec<u8> = Vec::new();
        append_bytes(&mut bytes, self.inner.content.as_str().as_bytes());
        if let Some(payload) = &self.payload {
            bytes.push(0xFF);
            append_bytes(&mut bytes, payload.chunk_id.as_str().as_bytes());
            if let Some(release_id) = &payload.release_id {
                bytes.push(0xFF);
                append_bytes(&mut bytes, release_id.as_str().as_bytes());
            }
        }
        assert(bytes@ =~= source_bytes(self@));
        bytes
    }
}

impl SourceMapFile {
    /// Whether a release id is stamped into the map.
    pub fn has_release_id(&self) -> (found: bool)
        ensures
            found == (self@.release_id is Some),
    {
        self.release_id.is_some()
    }
}

impl SourcePair {
    /// The chunk id that the chunk carries.
    pub fn get_chunk_id(&self) -> (id: Option<String>)
        ensures
            text::opt_text(id) == self@.chunk_id(),
    {
        match &self.source.payload {
            Some(payload) => Some(payload.chunk_id.clone()),
            None => None,
        }
    }

    /// The release id that the chunk carries.
    pub fn get_injected_release_id(&self) -> (id: Option<String>)
        ensures
            text::opt_text(id) == self@.injected_release_id(),
    {
        match &self.source.payload {
            Some(payload) => text::copy_opt(&payload.release_id),
            None => None,
        }
    }

    /// The debug id that the bundler left in the pair.
    pub fn get_debug_id(&self) -> (id: Option<String>)
        ensures
            text::opt_text(id) == self@.debug_id,
    {
        text::copy_opt(&self.debug_id)
    }

    /// The release id stamped into the source map.
    pub fn get_release_id(&self) -> (id: Option<String>)
        ensures
            text::opt_text(id) == self@.sourcemap.release_id,
    {
        text::copy_opt(&self.sourcemap.release_id)
    }

    /// Stamps a release id into the source map, or takes it out.
    pub fn set_release_id(&mut self, release_id: Option<String>)
        ensures
            final(self)@ == old(self)@.with_release_id(text::opt_text(release_id)),
    {
        self.sourcemap.release_id = release_id;
    }

    /// Puts a payload into a chunk that carries none. A chunk that carries one, or cannot be
    /// edited, is left as it is.
    pub fn add_chunk_id(&mut self, chunk_id: String, release_id: Option<&str>) -> (result: Result<
        (),
        InjectError,
    >)
        ensures
            result is Ok <==> old(self)@.source.payload is None && old(self)@.edit_failure is None,
            result is Ok ==> final(self)@ == old(self)@.with_payload(
                Some(PayloadView { chunk_id: chunk_id@, release_id: text::opt_str(release_id) }),
            ),
            result matches Err(error) ==> {
                &&& final(self)@ == old(self)@
                &&& error@ == if old(self)@.source.payload is Some {
                    ErrorView::ChunkIdAlreadySet
                } else {
                    ErrorView::EditPair { cause: old(self)@.edit_failure->0 }
                }
            },
    {
        if self.source.payload.is_some() {
            return Err(InjectError::ChunkIdAlreadySet);
        }
        if let Some(cause) = &self.edit_failure {
            return Err(InjectError::EditPair { cause: cause.clone() });
        }
        let release_id: Option<String> = match release_id {
            Some(text) => Some(text.to_string()),
            None => None,
        };
        self.source.payload = Some(Payload { chunk_id, release_id });
        Ok(())
    }

    /// Takes the payload with this chunk id out of the chunk. A chunk that does not carry the id,
    /// or cannot be edited, is left as it is.
    pub fn remove_chunk_id(&mut self, chunk_id: String) -> (result: Result<(), InjectError>)
        ensures
            result is Ok <==> old(self)@.chunk_id() == Some(chunk_id@)
                && old(self)@.edit_failure is None,
            result is Ok ==> final(self)@ == old(self)@.with_payload(None),
            result matches Err(error) ==> {
                &&& final(self)@ == old(self)@
                &&& error@ == if old(self)@.chunk_id() != Some(chunk_id@) {
                    ErrorView::ChunkIdMismatch
                } else {
                    ErrorView::EditPair { cause: old(self)@.edit_failure->0 }
                }
            },
    {
        let carried = self.get_chunk_id();
        if !text::same_opt(&carried, &Some(chunk_id)) {
            return Err(InjectError::ChunkIdMismatch);
        }
        if let Some(cause) = &self.edit_failure {
            return Err(InjectError::EditPair { cause: cause.clone() });
        }
        self.source.payload = None;
        Ok(())
    }

    /// Gives the chunk a new chunk id and no release id, in place of the payload with
    /// `previous_chunk_id`. A chunk that does not carry that id, or cannot be edited, is left as it
    /// is.
    pub fn update_chunk_id(
        &mut self,
        previous_chunk_id: String,
        new_chunk_id: String,
    ) -> (result: Result<(), InjectError>)
        ensures
            result is Ok <==> old(self)@.chunk_id() == Some(previous_chunk_id@)
                && old(self)@.edit_failure is None,
            result is Ok ==> final(self)@ == old(self)@.with_payload(
                Some(PayloadView { chunk_id: new_chunk_id@, release_id: None }),
            ),
            result matches Err(error) ==> {
                &&& final(self)@ == old(self)@
                &&& error@ == if old(self)@.chunk_id() != Some(previous_chunk_id@) {
                    ErrorView::ChunkIdMismatch
                } else {
                    ErrorView::EditPair { cause: old(self)@.edit_failure->0 }
                }
            },
    {
        match self.remove_chunk_id(previous_chunk_id) {
            Ok(()) => self.add_chunk_id(new_chunk_id, None),
            Err(error) => Err(error),
        }
    }
}

} // verus!
