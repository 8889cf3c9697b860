//! Which chunks a run rewrote, and what is said about them.

use vstd::hash_map::StringHashMap;
use vstd::prelude::*;

use crate::digest;
use crate::pairs;
use crate::pairs::{MinifiedSourceFile, PairView, SourcePair, SourceView};
use crate::paths;
use crate::paths::{FilePath, PathView};
use crate::text;

verus! {

/// The hash of what a chunk holds.
pub open spec fn source_hash(source: SourceView) -> Seq<char> {
    digest::hex(digest::sha1(pairs::source_bytes(source)))
}

/// The hash of each chunk under the key of its path; of chunks with the same path, the last counts.
pub open spec fn hashes_by_path(pairs: Seq<PairView>) -> Map<Seq<char>, Seq<char>>
    decreases pairs.len(),
{
    if pairs.len() == 0 {
        Map::empty()
    } else {
        hashes_by_path(pairs.drop_last()).insert(
            paths::path_key(pairs.last().source.file.path.names()),
            source_hash(pairs.last().source),
        )
    }
}

/// The hashes of a table as the contracts see them.
pub open spec fn hash_views(hashes: Map<Seq<char>, String>) -> Map<Seq<char>, Seq<char>> {
    hashes.map_values(|hash: String| hash@)
}

/// Whether a chunk holds something else than what was hashed for its path before.
pub open spec fn is_rewritten(
    source: SourceView,
    hashes_before: Map<Seq<char>, Seq<char>>,
) -> bool {
    let key = paths::path_key(source.file.path.names());
    !(hashes_before.contains_key(key) && hashes_before[key] == source_hash(source))
}

/// The paths of the rewritten chunks, in order.
pub open spec fn rewritten_paths(
    pairs: Seq<PairView>,
    hashes_before: Map<Seq<char>, Seq<char>>,
) -> Seq<PathView>
    decreases pairs.len(),
{
    if pairs.len() == 0 {
        Seq::empty()
    } else {
        let earlier = rewritten_paths(pairs.drop_last(), hashes_before);
        if is_rewritten(pairs.last().source, hashes_before) {
            earlier.push(pairs.last().source.file.path)
        } else {
            earlier
        }
    }
}

/// The lines that warn of rewritten files.
pub open spec fn rewritten_warnings(rewritten: Seq<PathView>, repaired_manifests: nat) -> Seq<
    Seq<char>,
> {
    if rewritten.len() == 0 {
        Seq::empty()
    } else {
        let headline = if repaired_manifests == 0 {
            "injection rewrote "@ + text::decimal(rewritten.len())
                + " built file(s) in place. Any asset hash computed before this step (service worker manifest, Subresource Integrity attribute, deploy manifest) no longer matches and must be regenerated after injecting:"@
        } else {
            "injection rewrote "@ + text::decimal(rewritten.len())
                + " built file(s) in place and updated "@ + text::decimal(repaired_manifests)
                + " Angular service-worker manifest(s). Any other asset hash computed before this step (Subresource Integrity attribute, deploy manifest) must still be regenerated:"@
        };
        seq![headline] + rewritten.map_values(|path: PathView| "  rewrote "@ + path.display)
    }
}

/// The hash of what a chunk holds.
fn content_hash(source: &MinifiedSourceFile) -> (hash: String)
    ensures
        hash@ == source_hash(source@),
{
    let bytes = source.bytes();
    digest::sha1_hex(bytes.as_slice())
}

/// Maps each chunk's path to a hash of what it holds, to be compared after injection.
pub fn source_content_hashes(pairs: &[SourcePair]) -> (hashes: StringHashMap<String>)
    ensures
        hash_views(hashes@) == hashes_by_path(pairs::pair_views(pairs@)),
{
    let mut hashes = StringHashMap::<String>::new();
    let ghost views = pairs::pair_views(pairs@);
    let mut i: usize = 0;
    assert(hash_views(hashes@) =~= hashes_by_path(views.take(0)));
    while i < pairs.len()
        invariant
            i <= pairs.len(),
            views == pairs::pair_views(pairs@),
            hash_views(hashes@) == hashes_by_path(views.take(i as int)),
        decreases pairs.len() - i,
    {
        let hash = content_hash(&pairs[i].source);
        let ghost before = hashes@;
        hashes.insert(pairs[i].source.inner.path.key(), hash);
        proof {
            assert(views.take(i + 1).drop_last() =~= views.take(i as int));
            assert(views.take(i + 1).last() == pairs@[i as int]@);
            assert(hash_views(hashes@) =~= hash_views(before).insert(
                paths::path_key(pairs@[i as int]@.source.file.path.names()),
                hash@,
            ));
        }
        i += 1;
    }
    assert(views.take(i as int) =~= views);
    hashes
}

/// The paths of the chunks that hold something else than before, so that a run over a build that
/// is already injected reports nothing.
pub fn rewritten_source_paths(
    pairs: &[SourcePair],
    hashes_before: &StringHashMap<String>,
) -> (changed: Vec<FilePath>)
    ensures
        paths::path_views(changed@) == rewritten_paths(
            pairs::pair_views(pairs@),
            hash_views(hashes_before@),
        ),
{
    let mut changed: Vec<FilePath> = Vec::new();
    let ghost views = pairs::pair_views(pairs@);
    let ghost before = hash_views(hashes_before@);
    let mut i: usize = 0;
    assert(paths::path_views(changed@) =~= rewritten_paths(views.take(0), before));
    while i < pairs.len()
        invariant
            i <= pairs.len(),
            views == pairs::pair_views(pairs@),
            before == hash_views(hashes_before@),
            paths::path_views(changed@) == rewritten_paths(views.take(i as int), before),
        decreases pairs.len() - i,
    {
        let hash_now = content_hash(&pairs[i].source);
        let path = &pairs[i].source.inner.path;
        let unchanged = match hashes_before.get(path.key().as_str()) {
            Some(hash) => *hash == hash_now,
            None => false,
        };
        let ghost earlier = changed@;
        if !unchanged {
            changed.push(path.clone());
        }
        proof {
            assert(views.take(i + 1).drop_last() =~= views.take(i as int));
            assert(views.take(i + 1).last() == pairs@[i as int]@);
            assert(!unchanged ==> paths::path_views(changed@) =~= paths::path_views(earlier).push(
                path@,
            ));
        }
        i += 1;
    }
    assert(views.take(i as int) =~= views);
    changed
}

/// The lines that warn of rewritten files, so that pipelines that pin a content hash regenerate
/// it. Nothing is said where nothing was rewritten.
pub fn warn_about_rewritten_files(
    rewritten: &[FilePath],
    repaired_manifests: &[FilePath],
) -> (lines: Vec<String>)
    ensures
        text::texts(lines@) == rewritten_warnings(
            paths::path_views(rewritten@),
            repaired_manifests@.len(),
        ),
{
    let mut lines: Vec<String> = Vec::new();
    if rewritten.len() == 0 {
        assert(text::texts(lines@) =~= Seq::<Seq<char>>::empty());
        return lines;
    }
    let count = text::decimal_text(rewritten.len());
    let headline = if repaired_manifests.len() == 0 {
        "injection rewrote ".to_string().concat(count.as_str()).concat(
            " built file(s) in place. Any asset hash computed before this step (service worker manifest, Subresource Integrity attribute, deploy manifest) no longer matches and must be regenerated after injecting:",
        )
    } else {
        let repaired = text::decimal_text(repaired_manifests.len());
        "injection rewrote ".to_string().concat(count.as_str()).concat(
            " built file(s) in place and updated ",
        ).concat(repaired.as_str()).concat(
            " Angular service-worker manifest(s). Any other asset hash computed before this step (Subresource Integrity attribute, deploy manifest) must still be regenerated:",
        )
    };
    let ghost expected = rewritten_warnings(paths::path_views(rewritten@), repaired_manifests@.len());
    lines.push(headline);
    let mut i: usize = 0;
    assert(text::texts(lines@) =~= expected.take(1));
    while i < rewritten.len()
        invariant
            i <= rewritten.len(),
            rewritten@.len() > 0,
            expected == rewritten_warnings(paths::path_views(rewritten@), repaired_manifests@.len()),
            text::texts(lines@) == expected.take(i + 1),
        decreases rewritten.len() - i,
    {
        let line = "  rewrote ".to_string().concat(rewritten[i].display.as_str());
        let ghost earlier = lines@;
        lines.push(line);
        proof {
            assert(expected[i + 1] == line@);
            assert(text::texts(lines@) =~= text::texts(earlier).push(line@));
            assert(expected.take(i + 2) =~= expected.take(i + 1).push(line@));
        }
        i += 1;
    }
    assert(expected.take(i + 1) =~= expected);
    lines
}

} // verus!
