//! What holds of the report on rewritten chunks, and of the parts that it is made of.

use vstd::prelude::*;

use crate::digest;
use crate::error;
use crate::error::ErrorView;
use crate::pairs;
use crate::pairs::{PairView, PayloadView, SourceView};
use crate::paths;
use crate::paths::{PartView, PathView};
use crate::rewritten;
use crate::text;

verus! {

/// The rewritten paths are those of the chunks whose digest is not the one recorded for their path,
/// all of them and in order.
pub proof fn law_every_chunk_with_another_digest_is_reported(
    pairs: Seq<PairView>,
    hashes_before: Map<Seq<char>, Seq<char>>,
)
    ensures
        rewritten::rewritten_paths(pairs, hashes_before) == pairs.filter_map(
            |pair: PairView|
                if hashes_before.contains_key(paths::path_key(pair.source.file.path.names()))
                    && hashes_before[paths::path_key(pair.source.file.path.names())] == digest::hex(
                    digest::sha1(pairs::source_bytes(pair.source)),
                ) {
                    None
                } else {
                    Some(pair.source.file.path)
                },
        ),
    decreases pairs.len(),
{
    if pairs.len() > 0 {
        law_every_chunk_with_another_digest_is_reported(pairs.drop_last(), hashes_before);
        assert(rewritten::rewritten_paths(pairs, hashes_before) =~= pairs.filter_map(
            |pair: PairView|
                if hashes_before.contains_key(paths::path_key(pair.source.file.path.names()))
                    && hashes_before[paths::path_key(pair.source.file.path.names())] == digest::hex(
                    digest::sha1(pairs::source_bytes(pair.source)),
                ) {
                    None
                } else {
                    Some(pair.source.file.path)
                },
        ));
    }
}

/// The digest that is recorded for a path is that of the last chunk with the path, and only paths of
/// chunks have one.
pub proof fn law_the_last_chunk_with_a_path_counts(pairs: Seq<PairView>, i: int)
    requires
        0 <= i < pairs.len(),
        forall|j: int|
            i < j < pairs.len() ==> (#[trigger] pairs[j]).source.file.path.names()
                != pairs[i].source.file.path.names(),
    ensures
        rewritten::hashes_by_path(pairs).contains_key(
            paths::path_key(pairs[i].source.file.path.names()),
        ),
        rewritten::hashes_by_path(pairs)[paths::path_key(pairs[i].source.file.path.names())]
            == digest::hex(digest::sha1(pairs::source_bytes(pairs[i].source))),
        forall|key: Seq<char>|
            #[trigger] rewritten::hashes_by_path(pairs).contains_key(key) ==> exists|k: int|
                0 <= k < pairs.len() && key == paths::path_key(
                    (#[trigger] pairs[k]).source.file.path.names(),
                ),
    decreases pairs.len(),
{
    lemma_only_chunks_have_digests(pairs);
    let last = pairs.len() - 1;
    assert(pairs.last() == pairs[last]);
    if i < last {
        let shorter = pairs.drop_last();
        assert(shorter[i] == pairs[i]);
        assert forall|j: int| i < j < shorter.len() implies (
        #[trigger] shorter[j]).source.file.path.names() != shorter[i].source.file.path.names() by {
            assert(shorter[j] == pairs[j]);
        }
        law_the_last_chunk_with_a_path_counts(shorter, i);
        let ours = pairs[i].source.file.path.names();
        let theirs = pairs[last].source.file.path.names();
        if paths::path_key(ours) == paths::path_key(theirs) {
            paths::law_keys_tell_paths_apart(ours, theirs);
        }
    }
}

proof fn lemma_only_chunks_have_digests(pairs: Seq<PairView>)
    ensures
        forall|key: Seq<char>|
            #[trigger] rewritten::hashes_by_path(pairs).contains_key(key) ==> exists|k: int|
                0 <= k < pairs.len() && key == paths::path_key(
                    (#[trigger] pairs[k]).source.file.path.names(),
                ),
    decreases pairs.len(),
{
    if pairs.len() > 0 {
        let shorter = pairs.drop_last();
        lemma_only_chunks_have_digests(shorter);
        assert forall|key: Seq<char>| #[trigger]
            rewritten::hashes_by_path(pairs).contains_key(key) implies exists|k: int|
            0 <= k < pairs.len() && key == paths::path_key(
                (#[trigger] pairs[k]).source.file.path.names(),
            ) by {
            if rewritten::hashes_by_path(shorter).contains_key(key) {
                let k = choose|k: int|
                    0 <= k < shorter.len() && key == paths::path_key(
                        (#[trigger] shorter[k]).source.file.path.names(),
                    );
                assert(pairs[k] == shorter[k]);
            } else {
                assert(pairs[pairs.len() - 1] == pairs.last());
            }
        }
    }
}

/// Nothing is said where nothing was rewritten. Otherwise a headline gives the number of rewritten
/// files, and that of repaired manifests where there are any, and a line of its own names each file,
/// in order.
pub proof fn law_report_names_every_rewritten_file(
    rewritten: Seq<PathView>,
    repaired_manifests: nat,
)
    ensures
        rewritten.len() == 0 ==> rewritten::rewritten_warnings(
            rewritten,
            repaired_manifests,
        ).len() == 0,
        rewritten.len() > 0 ==> {
            let lines = rewritten::rewritten_warnings(rewritten, repaired_manifests);
            &&& lines.len() == rewritten.len() + 1
            &&& forall|i: int|
                0 <= i < rewritten.len() ==> #[trigger] lines[i + 1] == "  rewrote "@
                    + rewritten[i].display
            &&& repaired_manifests == 0 ==> lines[0] == "injection rewrote "@ + text::decimal(
                rewritten.len(),
            )
                + " built file(s) in place. Any asset hash computed before this step (service worker manifest, Subresource Integrity attribute, deploy manifest) no longer matches and must be regenerated after injecting:"@
            &&& repaired_manifests > 0 ==> lines[0] == "injection rewrote "@ + text::decimal(
                rewritten.len(),
            ) + " built file(s) in place and updated "@ + text::decimal(repaired_manifests)
                + " Angular service-worker manifest(s). Any other asset hash computed before this step (Subresource Integrity attribute, deploy manifest) must still be regenerated:"@
        },
{
}

/// A change of a pair's payload or stamp changes that and nothing else, and is read back.
pub proof fn law_edits_touch_one_thing(
    pair: PairView,
    payload: Option<PayloadView>,
    release_id: Option<Seq<char>>,
)
    ensures
        pair.with_payload(payload).source.payload == payload,
        pair.with_payload(payload).source.file == pair.source.file,
        pair.with_payload(payload).sourcemap == pair.sourcemap,
        pair.with_payload(payload).debug_id == pair.debug_id,
        pair.with_payload(payload).edit_failure == pair.edit_failure,
        pair.with_release_id(release_id).sourcemap.release_id == release_id,
        pair.with_release_id(release_id).sourcemap.file == pair.sourcemap.file,
        pair.with_release_id(release_id).source == pair.source,
        pair.with_release_id(release_id).debug_id == pair.debug_id,
        pair.with_release_id(release_id).edit_failure == pair.edit_failure,
        payload matches Some(given) ==> pair.with_payload(payload).chunk_id() == Some(
            given.chunk_id,
        ) && pair.with_payload(payload).injected_release_id() == given.release_id,
        payload is None ==> pair.with_payload(payload).chunk_id() is None && pair.with_payload(
            payload,
        ).injected_release_id() is None,
{
}

/// The bytes of a chunk start with its text, whatever payload it carries, and are the text alone
/// where it carries none.
pub proof fn law_chunk_bytes_start_with_the_text(source: SourceView)
    ensures
        source.payload is None ==> pairs::source_bytes(source) == vstd::utf8::encode_utf8(
            source.file.content,
        ),
        vstd::utf8::encode_utf8(source.file.content).is_prefix_of(pairs::source_bytes(source)),
{
    let content = vstd::utf8::encode_utf8(source.file.content);
    assert(content =~= pairs::source_bytes(source).take(content.len() as int));
    if source.payload is None {
        assert(pairs::source_bytes(source) =~= content);
    }
}

/// The names and the texts of a path are those of its parts, one for one.
pub proof fn law_names_and_texts_are_those_of_the_parts(parts: Seq<PartView>, i: int)
    requires
        0 <= i < parts.len(),
    ensures
        paths::names(parts).len() == parts.len(),
        paths::names(parts)[i] == parts[i].name,
        paths::part_texts(parts).len() == parts.len(),
        paths::part_texts(parts)[i] == parts[i].text,
{
}

/// Paths are the same exactly where they have equally many parts with the same names.
pub proof fn law_paths_are_the_same_part_by_part(left: PathView, right: PathView)
    ensures
        left.names() == right.names() <==> left.parts.len() == right.parts.len() && forall|i: int|
            0 <= i < left.parts.len() ==> (#[trigger] left.parts[i]).name == right.parts[i].name,
{
    if left.names() == right.names() {
        assert(left.names().len() == right.names().len());
        assert forall|i: int| 0 <= i < left.parts.len() implies (#[trigger] left.parts[i]).name
            == right.parts[i].name by {
            assert(left.names()[i] == right.names()[i]);
        }
    }
    if left.parts.len() == right.parts.len() && forall|i: int|
        0 <= i < left.parts.len() ==> (#[trigger] left.parts[i]).name == right.parts[i].name {
        assert forall|i: int| 0 <= i < left.names().len() implies left.names()[i]
            == right.names()[i] by {
            assert(left.parts[i].name == right.parts[i].name);
        }
        assert(left.names() =~= right.names());
    }
}

/// A report is the message alone, or the message, a colon and the failure underneath, which is given
/// for every error that reading, resolving or git led to.
pub proof fn law_reports_give_message_and_cause(error: ErrorView)
    ensures
        match error {
            ErrorView::ReadManifest { path, cause } => error::error_report(error)
                == "Failed to read "@ + path + ": "@ + cause,
            ErrorView::ParseManifest { path, cause } => error::error_report(error)
                == "Failed to parse "@ + path + ": "@ + cause,
            ErrorView::NoHashTable { path } => error::error_report(error) == path
                + " has no hashTable object"@,
            ErrorView::ResolveBuildDirectory { path, cause } => error::error_report(error)
                == "Failed to resolve Angular build directory "@ + path + ": "@ + cause,
            ErrorView::ResolveRewrittenFile { path, cause } => error::error_report(error)
                == "Failed to resolve rewritten file "@ + path + ": "@ + cause,
            ErrorView::HashRewrittenFile { path, cause } => error::error_report(error)
                == "Failed to hash rewritten file "@ + path + ": "@ + cause,
            ErrorView::GitInfo { cause } => error::error_report(error)
                == "Failed to determine git info for release"@ + ": "@ + cause,
            ErrorView::Selection { cause } => error::error_report(error) == cause,
            ErrorView::EditPair { cause } => error::error_report(error) == cause,
            ErrorView::SerializeManifest { cause } => error::error_report(error) == cause,
            ErrorView::NoSourceFiles => error::error_report(error) == "no source files found"@,
            ErrorView::ChunkIdAlreadySet => error::error_report(error) == "Chunk ID already set"@,
            ErrorView::ChunkIdMismatch => error::error_report(error) == "Chunk ID mismatch"@,
            ErrorView::AmbiguousManifestEntry { relative_url, matches } => error::error_report(
                error,
            ) == "Angular service-worker manifest has multiple entries matching "@ + relative_url
                + ": "@ + text::joined(matches, ", "@),
            ErrorView::IncompleteRelease => error::error_report(error)
                == "Release fields are incomplete and git info is unavailable. Provide both --release-name and --release-version, or run from a git repository or supported CI environment."@,
        },
{
}

} // verus!
