//! What holds of injection as a whole.

use vstd::prelude::*;
use vstd::utf8::*;

use crate::args::ReleaseMode;
use crate::digest;
use crate::error::ErrorView;
use crate::ids;
use crate::inject;
use crate::pairs;
use crate::pairs::PairView;
use crate::paths;
use crate::paths::PathView;
use crate::rewritten;
use crate::run;
use crate::run::Setting;
use crate::text;

verus! {

/// Whether chunks with the same path hash alike.
pub open spec fn agree_by_path(pairs: Seq<PairView>) -> bool {
    forall|i: int, j: int|
        0 <= i < pairs.len() && 0 <= j < pairs.len() && (#[trigger] pairs[i]).source.file.path.names()
            == (#[trigger] pairs[j]).source.file.path.names() ==> rewritten::source_hash(pairs[i].source)
            == rewritten::source_hash(pairs[j].source)
}

/// Whether no two chunks have the same path.
pub open spec fn distinct_paths(pairs: Seq<PairView>) -> bool {
    forall|i: int, j: int|
        0 <= i < pairs.len() && 0 <= j < pairs.len() && i != j ==> (
        #[trigger] pairs[i]).source.file.path.names() != (
        #[trigger] pairs[j]).source.file.path.names()
}

/// Event-mode injection into a build that it has already injected with the same release, or for
/// which no release resolves now, changes nothing.
pub proof fn law_event_rerun_changes_nothing(
    namespace: u128,
    pairs: Seq<PairView>,
    release_id: Option<Seq<char>>,
    release_id_now: Option<Seq<char>>,
)
    requires
        release_id_now == release_id || release_id_now is None,
    ensures
        inject::event_pairs(
            namespace,
            inject::event_pairs(namespace, pairs, release_id),
            release_id_now,
        )
            == inject::event_pairs(namespace, pairs, release_id),
{
    let once = inject::event_pairs(namespace, pairs, release_id);
    let twice = inject::event_pairs(namespace, once, release_id_now);
    assert forall|i: int| 0 <= i < pairs.len() implies #[trigger] twice[i] == once[i] by {
        assert(once[i] == inject::event_pair(namespace, pairs[i], release_id));
        assert(twice[i] == inject::event_pair(namespace, once[i], release_id_now));
    }
    assert(twice =~= once);
}

/// After event-mode injection every chunk carries a chunk id, and the release id where a release
/// resolved.
pub proof fn law_event_chunks_carry_the_ids(
    namespace: u128,
    pair: PairView,
    release_id: Option<Seq<char>>,
)
    ensures
        inject::event_pair(namespace, pair, release_id).chunk_id() is Some,
        release_id is Some ==> inject::event_pair(namespace, pair, release_id).injected_release_id()
            == release_id,
{
}

/// Event-mode injection keeps the chunk id of a chunk that carries one, whatever release resolves.
pub proof fn law_event_keeps_chunk_ids(
    namespace: u128,
    pair: PairView,
    release_id: Option<Seq<char>>,
)
    requires
        pair.chunk_id() is Some,
    ensures
        inject::event_pair(namespace, pair, release_id).chunk_id() == pair.chunk_id(),
{
}

/// Where no release resolves, event-mode injection leaves a pair with a chunk id as it is.
pub proof fn law_event_without_release_leaves_injected_pairs(namespace: u128, pair: PairView)
    requires
        pair.chunk_id() is Some,
    ensures
        inject::event_pair(namespace, pair, None) == pair,
{
}

/// Event-mode injection changes nothing of a pair but the payload of its chunk.
pub proof fn law_event_changes_payloads_only(
    namespace: u128,
    pair: PairView,
    release_id: Option<Seq<char>>,
)
    ensures
        inject::event_pair(namespace, pair, release_id).with_payload(pair.source.payload) == pair,
{
}

/// The chunk id that a chunk has after event mode depends on the id it had, on its content and on
/// the bundler's debug id. A change of the source map, of the path or of the release keeps it.
pub proof fn law_map_only_changes_keep_the_chunk_id(
    namespace: u128,
    pair: PairView,
    other: PairView,
    release_id: Option<Seq<char>>,
    other_release_id: Option<Seq<char>>,
)
    requires
        pair.chunk_id() == other.chunk_id(),
        pair.source.file.content == other.source.file.content,
        pair.debug_id == other.debug_id,
    ensures
        inject::event_pair(namespace, pair, release_id).chunk_id() == inject::event_pair(
            namespace,
            other,
            other_release_id,
        ).chunk_id(),
{
}

/// A debug id that is a UUID becomes the chunk id, and any other is as good as none.
pub proof fn law_only_uuid_debug_ids_are_adopted(
    namespace: u128,
    pair: PairView,
    debug_id: Seq<char>,
    release_id: Option<Seq<char>>,
)
    requires
        pair.chunk_id() is None,
        pair.debug_id == Some(debug_id),
    ensures
        ids::is_uuid(debug_id) ==> inject::event_pair(namespace, pair, release_id).chunk_id() == Some(
            debug_id,
        ),
        !ids::is_uuid(debug_id) ==> inject::event_pair(namespace, pair, release_id).chunk_id()
            == inject::event_pair(namespace, PairView { debug_id: None, ..pair }, release_id).chunk_id(),
{
}

/// After symbol-set-mode injection every source map is stamped with the created release id, and
/// every chunk carries a chunk id.
pub proof fn law_symbol_set_pairs_are_stamped(
    before: Seq<PairView>,
    created_release_id: Option<Seq<char>>,
    issued: Set<Seq<char>>,
    after: Seq<PairView>,
    i: int,
)
    requires
        inject::legacy_pairs(before, created_release_id, issued, after),
        0 <= i < before.len(),
    ensures
        after[i].sourcemap.release_id == created_release_id,
        after[i].chunk_id() is Some,
        after[i].source.file == before[i].source.file,
        after[i].sourcemap.file == before[i].sourcemap.file,
{
    assert(inject::legacy_pair(before[i], created_release_id, after[i]));
}

/// Symbol-set-mode injection into a build that it has already injected with the same release
/// changes nothing: chunk ids are made anew only where the release changes or is missing. Without a
/// release there is no such rest: see `law_symbol_set_without_release_draws_every_id`.
pub proof fn law_symbol_set_rerun_changes_nothing(
    before: Seq<PairView>,
    created_release_id: Option<Seq<char>>,
    issued: Set<Seq<char>>,
    after: Seq<PairView>,
    issued_again: Set<Seq<char>>,
    again: Seq<PairView>,
)
    requires
        created_release_id is Some,
        inject::legacy_pairs(before, created_release_id, issued, after),
        inject::legacy_pairs(after, created_release_id, issued_again, again),
    ensures
        again == after,
{
    assert forall|i: int| 0 <= i < after.len() implies #[trigger] again[i] == after[i] by {
        law_symbol_set_pairs_are_stamped(before, created_release_id, issued, after, i);
        assert(inject::legacy_pair(after[i], created_release_id, again[i]));
    }
    assert(again =~= after);
}

/// No two of the chunk ids that symbol-set mode makes in a build are the same.
pub proof fn law_symbol_set_ids_of_a_build_differ(
    before: Seq<PairView>,
    created_release_id: Option<Seq<char>>,
    issued: Set<Seq<char>>,
    after: Seq<PairView>,
    i: int,
    j: int,
)
    requires
        inject::legacy_pairs(before, created_release_id, issued, after),
        0 <= i < before.len(),
        0 <= j < before.len(),
        i != j,
        inject::needs_stamp(before[i], created_release_id),
        inject::needs_stamp(before[j], created_release_id),
    ensures
        after[i].chunk_id() is Some,
        after[j].chunk_id() is Some,
        after[i].chunk_id() != after[j].chunk_id(),
{
    assert(inject::legacy_pair(before[i], created_release_id, after[i]));
    assert(inject::legacy_pair(before[j], created_release_id, after[j]));
}

/// A chunk id that symbol-set mode replaces gives way to another one, where it is one that the
/// source of ids made earlier, or no lowercase version 7 UUID. Left out are ids of that shape from
/// elsewhere, such as from a run of another process: from those a new id differs but for chance.
pub proof fn law_symbol_set_replaces_chunk_ids(
    before: Seq<PairView>,
    created_release_id: Option<Seq<char>>,
    issued: Set<Seq<char>>,
    after: Seq<PairView>,
    i: int,
)
    requires
        inject::legacy_pairs(before, created_release_id, issued, after),
        0 <= i < before.len(),
        inject::needs_stamp(before[i], created_release_id),
        before[i].chunk_id() matches Some(id) ==> issued.contains(id) || !ids::is_versioned_uuid(
            id,
            '7',
        ),
    ensures
        after[i].chunk_id() is Some,
        after[i].chunk_id() != before[i].chunk_id(),
{
    assert(inject::legacy_pair(before[i], created_release_id, after[i]));
}

/// Where no release was created, symbol-set-mode injection clears every stamp and puts a fresh id
/// into every chunk, stamped or not, that no other chunk of the build has and that the source of
/// ids did not make earlier: a run without a release over a stamped build is not quiet.
pub proof fn law_symbol_set_without_release_draws_every_id(
    before: Seq<PairView>,
    issued: Set<Seq<char>>,
    after: Seq<PairView>,
    i: int,
)
    requires
        inject::legacy_pairs(before, None, issued, after),
        0 <= i < before.len(),
    ensures
        inject::needs_stamp(before[i], None),
        after[i].sourcemap.release_id is None,
        after[i].chunk_id() is Some,
        ids::is_versioned_uuid(after[i].chunk_id()->0, '7'),
        !issued.contains(after[i].chunk_id()->0),
        forall|j: int|
            0 <= j < before.len() && j != i ==> (#[trigger] after[j]).chunk_id()
                != after[i].chunk_id(),
{
    assert(inject::legacy_pair(before[i], None, after[i]));
    assert forall|j: int| 0 <= j < before.len() && j != i implies (
    #[trigger] after[j]).chunk_id() != after[i].chunk_id() by {
        law_symbol_set_ids_of_a_build_differ(before, None, issued, after, i, j);
    }
}

/// No id that symbol-set mode makes is one that event mode derives from content.
pub proof fn law_fresh_ids_are_no_derived_ids(fresh: Seq<char>, derived: Seq<char>)
    requires
        ids::is_versioned_uuid(fresh, '7'),
        ids::is_versioned_uuid(derived, '5'),
    ensures
        fresh != derived,
{
}

proof fn lemma_hashes_by_path(pairs: Seq<PairView>, i: int)
    requires
        agree_by_path(pairs),
        0 <= i < pairs.len(),
    ensures
        rewritten::hashes_by_path(pairs).contains_key(
            paths::path_key(pairs[i].source.file.path.names()),
        ),
        rewritten::hashes_by_path(pairs)[paths::path_key(pairs[i].source.file.path.names())]
            == rewritten::source_hash(pairs[i].source),
    decreases pairs.len(),
{
    let shorter = pairs.drop_last();
    let names = pairs[i].source.file.path.names();
    let last_names = pairs.last().source.file.path.names();
    if paths::path_key(names) == paths::path_key(last_names) {
        paths::law_keys_tell_paths_apart(names, last_names);
        assert(pairs.last() == pairs[pairs.len() - 1]);
    } else {
        assert(i < shorter.len());
        assert(shorter[i] == pairs[i]);
        assert forall|k: int, l: int|
            0 <= k < shorter.len() && 0 <= l < shorter.len() && (
            #[trigger] shorter[k]).source.file.path.names() == (
            #[trigger] shorter[l]).source.file.path.names() implies rewritten::source_hash(
            shorter[k].source,
        ) == rewritten::source_hash(shorter[l].source) by {
            assert(shorter[k] == pairs[k] && shorter[l] == pairs[l]);
        }
        lemma_hashes_by_path(shorter, i);
    }
}

proof fn lemma_nothing_rewritten(
    pairs: Seq<PairView>,
    hashes: Map<Seq<char>, Seq<char>>,
)
    requires
        forall|i: int|
            0 <= i < pairs.len() ==> !rewritten::is_rewritten((#[trigger] pairs[i]).source, hashes),
    ensures
        rewritten::rewritten_paths(pairs, hashes).len() == 0,
    decreases pairs.len(),
{
    if pairs.len() > 0 {
        let shorter = pairs.drop_last();
        assert forall|i: int| 0 <= i < shorter.len() implies !rewritten::is_rewritten(
            (#[trigger] shorter[i]).source,
            hashes,
        ) by {
            assert(shorter[i] == pairs[i]);
        }
        lemma_nothing_rewritten(shorter, hashes);
        assert(pairs.last() == pairs[pairs.len() - 1]);
    }
}

/// A build that a run left as it was is reported as rewritten nowhere, and nothing is said of it.
/// Left out are builds in which chunks share a path and differ.
pub proof fn law_unchanged_build_is_quiet(pairs: Seq<PairView>, repaired_manifests: nat)
    requires
        agree_by_path(pairs),
    ensures
        rewritten::rewritten_paths(pairs, rewritten::hashes_by_path(pairs)).len() == 0,
        rewritten::rewritten_warnings(
            rewritten::rewritten_paths(pairs, rewritten::hashes_by_path(pairs)),
            repaired_manifests,
        ).len() == 0,
{
    let hashes = rewritten::hashes_by_path(pairs);
    assert forall|i: int| 0 <= i < pairs.len() implies !rewritten::is_rewritten(
        (#[trigger] pairs[i]).source,
        hashes,
    ) by {
        lemma_hashes_by_path(pairs, i);
    }
    lemma_nothing_rewritten(pairs, hashes);
}

pub(crate) proof fn lemma_rewritten_paths(
    pairs: Seq<PairView>,
    hashes: Map<Seq<char>, Seq<char>>,
    path: PathView,
)
    ensures
        rewritten::rewritten_paths(pairs, hashes).contains(path) <==> exists|i: int|
            0 <= i < pairs.len() && (#[trigger] pairs[i]).source.file.path == path
                && rewritten::is_rewritten(pairs[i].source, hashes),
    decreases pairs.len(),
{
    let all = rewritten::rewritten_paths(pairs, hashes);
    if pairs.len() > 0 {
        let shorter = pairs.drop_last();
        let earlier = rewritten::rewritten_paths(shorter, hashes);
        let last = pairs.len() - 1;
        lemma_rewritten_paths(shorter, hashes, path);
        if all.contains(path) {
            let k = choose|k: int| 0 <= k < all.len() && all[k] == path;
            if k < earlier.len() {
                assert(earlier[k] == path);
                let i = choose|i: int|
                    0 <= i < shorter.len() && (#[trigger] shorter[i]).source.file.path == path
                        && rewritten::is_rewritten(shorter[i].source, hashes);
                assert(pairs[i] == shorter[i]);
            } else {
                assert(pairs[last].source.file.path == path);
            }
        }
        if exists|i: int|
            0 <= i < pairs.len() && (#[trigger] pairs[i]).source.file.path == path
                && rewritten::is_rewritten(pairs[i].source, hashes) {
            let i = choose|i: int|
                0 <= i < pairs.len() && (#[trigger] pairs[i]).source.file.path == path
                    && rewritten::is_rewritten(pairs[i].source, hashes);
            if i == last {
                assert(all[all.len() - 1] == path);
            } else {
                assert(shorter[i] == pairs[i]);
                let k = choose|k: int| 0 <= k < earlier.len() && earlier[k] == path;
                assert(all[k] == path);
            }
        }
    }
}

/// A run reports a chunk as rewritten exactly where the chunk holds something else than before.
/// Left out are builds in which chunks share a path, and digests that collide.
pub proof fn law_rewritten_chunks_are_those_that_changed(
    before: Seq<PairView>,
    after: Seq<PairView>,
    i: int,
)
    requires
        after.len() == before.len(),
        forall|k: int|
            0 <= k < before.len() ==> (#[trigger] after[k]).source.file.path
                == before[k].source.file.path,
        distinct_paths(before),
        0 <= i < before.len(),
        digest::sha1(pairs::source_bytes(before[i].source)) == digest::sha1(
            pairs::source_bytes(after[i].source),
        ) ==> pairs::source_bytes(before[i].source) == pairs::source_bytes(after[i].source),
    ensures
        rewritten::rewritten_paths(after, rewritten::hashes_by_path(before)).contains(
            before[i].source.file.path,
        ) <==> after[i].source != before[i].source,
{
    let hashes = rewritten::hashes_by_path(before);
    let path = before[i].source.file.path;
    assert(agree_by_path(before));
    lemma_hashes_by_path(before, i);
    lemma_rewritten_paths(after, hashes, path);
    assert(after[i].source.file.path == path);
    assert forall|k: int|
        0 <= k < after.len() && (#[trigger] after[k]).source.file.path == path implies k == i by {
        assert(before[k].source.file.path.names() == before[i].source.file.path.names());
    }
    if after[i].source != before[i].source {
        if rewritten::source_hash(after[i].source) == rewritten::source_hash(before[i].source) {
            digest::law_hex_tells_bytes_apart(
                digest::sha1(pairs::source_bytes(before[i].source)),
                digest::sha1(pairs::source_bytes(after[i].source)),
            );
            pairs::law_source_bytes_tell_chunks_apart(before[i].source, after[i].source);
            assert(after[i].source =~= before[i].source);
        }
    }
}

/// A second run over a build, in the same mode and with the same release, has nothing to edit, so
/// that it cannot fail on a pair. Left out is symbol-set mode without a release, which edits every
/// pair in every run.
pub proof fn law_rerun_edits_nothing(
    setting: Setting,
    before: Seq<PairView>,
    release_id: Option<Seq<char>>,
    after: Seq<PairView>,
)
    requires
        setting.release_mode == ReleaseMode::Event || release_id is Some,
        run::mode_pairs(setting, before, release_id, after),
    ensures
        run::mode_editable(setting.release_mode, after, release_id),
{
    match setting.release_mode {
        ReleaseMode::Event => {
            assert forall|i: int| 0 <= i < after.len() implies !inject::event_edits(
                #[trigger] after[i],
                release_id,
            ) by {
                assert(after[i] == inject::event_pair(setting.namespace, before[i], release_id));
            }
        },
        ReleaseMode::SymbolSet => {
            assert forall|i: int| 0 <= i < after.len() implies !inject::needs_stamp(
                #[trigger] after[i],
                release_id,
            ) by {
                law_symbol_set_pairs_are_stamped(before, release_id, setting.issued, after, i);
            }
        },
    }
}

/// A second run over a build, in the same mode and with the same release, reports no rewritten
/// file, and nothing is said of it. Left out are builds in which injected chunks share a path and
/// differ, and symbol-set mode without a release, which gives every chunk a new id in every run.
pub proof fn law_rerun_is_quiet(
    setting: Setting,
    setting_again: Setting,
    before: Seq<PairView>,
    release_id: Option<Seq<char>>,
    after: Seq<PairView>,
    again: Seq<PairView>,
    repaired_manifests: nat,
)
    requires
        setting.release_mode == ReleaseMode::Event || release_id is Some,
        setting_again.release_mode == setting.release_mode,
        setting_again.namespace == setting.namespace,
        run::mode_pairs(setting, before, release_id, after),
        run::mode_pairs(setting_again, after, release_id, again),
        agree_by_path(after),
    ensures
        again == after,
        rewritten::rewritten_paths(again, rewritten::hashes_by_path(after)).len() == 0,
        rewritten::rewritten_warnings(
            rewritten::rewritten_paths(again, rewritten::hashes_by_path(after)),
            repaired_manifests,
        ).len() == 0,
{
    match setting.release_mode {
        ReleaseMode::Event => law_event_rerun_changes_nothing(
            setting.namespace,
            before,
            release_id,
            release_id,
        ),
        ReleaseMode::SymbolSet => law_symbol_set_rerun_changes_nothing(
            before,
            release_id,
            setting.issued,
            after,
            setting_again.issued,
            again,
        ),
    }
    law_unchanged_build_is_quiet(after, repaired_manifests);
}

/// The id that event mode derives for a chunk is the version 5 UUID of the whole content, where the
/// chunk has no id and the bundler left no UUID to adopt.
pub proof fn law_derived_ids_are_those_of_the_whole_content(
    namespace: u128,
    pair: PairView,
    release_id: Option<Seq<char>>,
)
    requires
        pair.source.payload is None,
        pair.debug_id is None || !ids::is_uuid(pair.debug_id->0),
    ensures
        inject::event_pair(namespace, pair, release_id).source.payload matches Some(payload)
            && payload.chunk_id == ids::uuid_v5(namespace, encode_utf8(pair.source.file.content))
            && payload.release_id == release_id,
{
}

/// Chunks with different contents get different derived ids, unless version 5 UUIDs collide, and
/// chunks with the same content get the same id.
pub proof fn law_derived_ids_tell_contents_apart(
    namespace: u128,
    left: PairView,
    right: PairView,
    release_id: Option<Seq<char>>,
)
    requires
        left.source.payload is None,
        right.source.payload is None,
        left.debug_id is None,
        right.debug_id is None,
        ids::uuid_v5(namespace, encode_utf8(left.source.file.content)) == ids::uuid_v5(
            namespace,
            encode_utf8(right.source.file.content),
        ) ==> encode_utf8(left.source.file.content) == encode_utf8(right.source.file.content),
    ensures
        inject::event_pair(namespace, left, release_id).chunk_id() == inject::event_pair(
            namespace,
            right,
            release_id,
        ).chunk_id() <==> left.source.file.content == right.source.file.content,
{
    law_derived_ids_are_those_of_the_whole_content(namespace, left, release_id);
    law_derived_ids_are_those_of_the_whole_content(namespace, right, release_id);
    encode_utf8_decode_utf8(left.source.file.content);
    encode_utf8_decode_utf8(right.source.file.content);
}

/// A UUID in any of its spellings is adopted as it stands.
pub proof fn law_every_spelling_of_a_uuid_is_adopted(
    namespace: u128,
    pair: PairView,
    release_id: Option<Seq<char>>,
    uuid: Seq<char>,
)
    requires
        pair.source.payload is None,
        ids::is_hyphenated_uuid(uuid),
        pair.debug_id == Some(uuid) || pair.debug_id == Some(seq!['{'] + uuid + seq!['}'])
            || pair.debug_id == Some(seq!['u', 'r', 'n', ':', 'u', 'u', 'i', 'd', ':'] + uuid),
    ensures
        inject::event_pair(namespace, pair, release_id).chunk_id() == pair.debug_id,
{
    let braced = seq!['{'] + uuid + seq!['}'];
    let urn = seq!['u', 'r', 'n', ':', 'u', 'u', 'i', 'd', ':'] + uuid;
    assert(braced.subrange(1, 37) =~= uuid);
    assert(urn.skip(9) =~= uuid);
}

/// Event mode leaves a chunk that has an id alone where no release resolved or the chunk reports it
/// already, and otherwise gives it the release and keeps its id.
pub proof fn law_event_refreshes_stale_releases_only(
    namespace: u128,
    pair: PairView,
    release_id: Option<Seq<char>>,
)
    requires
        pair.source.payload is Some,
    ensures
        release_id is None || pair.source.payload->0.release_id == release_id
            ==> inject::event_pair(namespace, pair, release_id) == pair,
        release_id is Some && pair.source.payload->0.release_id != release_id ==> {
            &&& inject::event_pair(namespace, pair, release_id).source.payload matches Some(payload)
            &&& payload.chunk_id == pair.source.payload->0.chunk_id
            &&& payload.release_id == release_id
        },
{
}

/// Event mode works on each pair by itself and keeps their order.
pub proof fn law_event_pairs_stand_one_for_one(
    namespace: u128,
    pairs: Seq<PairView>,
    release_id: Option<Seq<char>>,
    i: int,
)
    requires
        0 <= i < pairs.len(),
    ensures
        inject::event_pairs(namespace, pairs, release_id).len() == pairs.len(),
        inject::event_pairs(namespace, pairs, release_id)[i] == inject::event_pair(
            namespace,
            pairs[i],
            release_id,
        ),
{
}

/// Event mode fails exactly where some pair cannot be edited whose chunk has no id, or reports
/// another release than the one that resolved.
pub proof fn law_event_succeeds_where_it_can_edit(
    pairs: Seq<PairView>,
    release_id: Option<Seq<char>>,
)
    ensures
        inject::event_editable(pairs, release_id) <==> forall|i: int|
            0 <= i < pairs.len() && (#[trigger] pairs[i]).edit_failure is Some
                ==> pairs[i].source.payload is Some && (release_id is None
                || pairs[i].source.payload->0.release_id == release_id),
        inject::event_editable(pairs, release_id) <==> !exists|error: ErrorView| #[trigger]
            inject::event_failure(pairs, release_id, error),
    decreases pairs.len(),
{
    if inject::event_editable(pairs, release_id) {
        assert forall|i: int|
            0 <= i < pairs.len() && (#[trigger] pairs[i]).edit_failure is Some implies
            pairs[i].source.payload is Some && (release_id is None
            || pairs[i].source.payload->0.release_id == release_id) by {
            assert(!inject::event_edits(pairs[i], release_id));
        }
    } else {
        let shorter = pairs.drop_last();
        let last = pairs.len() - 1;
        if inject::event_editable(shorter, release_id) {
            let k = choose|k: int|
                0 <= k < pairs.len() && inject::event_edits(#[trigger] pairs[k], release_id)
                    && pairs[k].edit_failure is Some;
            if k < last {
                assert(shorter[k] == pairs[k]);
            }
            assert(pairs.take(last) =~= shorter);
            assert(inject::event_failure(
                pairs,
                release_id,
                ErrorView::EditPair { cause: pairs[last].edit_failure->0 },
            ));
        } else {
            law_event_succeeds_where_it_can_edit(shorter, release_id);
            let error = choose|error: ErrorView| #[trigger]
                inject::event_failure(shorter, release_id, error);
            let k = choose|k: int|
                {
                    &&& 0 <= k < shorter.len()
                    &&& inject::event_edits(#[trigger] shorter[k], release_id)
                    &&& shorter[k].edit_failure is Some
                    &&& inject::event_editable(shorter.take(k), release_id)
                    &&& error == (ErrorView::EditPair { cause: shorter[k].edit_failure->0 })
                };
            assert(shorter.take(k) =~= pairs.take(k));
            assert(pairs[k] == shorter[k]);
            assert(inject::event_failure(pairs, release_id, error));
        }
        let k = choose|k: int|
            0 <= k < pairs.len() && inject::event_edits(#[trigger] pairs[k], release_id)
                && pairs[k].edit_failure is Some;
        assert(pairs[k].edit_failure is Some);
    }
}

/// Event mode fails for one reason only: that of the first pair that stands in its way.
pub proof fn law_event_fails_for_the_first_reason(
    pairs: Seq<PairView>,
    release_id: Option<Seq<char>>,
    error: ErrorView,
    i: int,
)
    requires
        inject::event_failure(pairs, release_id, error),
        0 <= i < pairs.len(),
        pairs[i].edit_failure is Some,
        pairs[i].source.payload is None || (release_id is Some
            && pairs[i].source.payload->0.release_id != release_id),
        forall|k: int| 0 <= k < i ==> (#[trigger] pairs[k]).edit_failure is None,
    ensures
        error == (ErrorView::EditPair { cause: pairs[i].edit_failure->0 }),
{
    let k = choose|k: int|
        {
            &&& 0 <= k < pairs.len()
            &&& inject::event_edits(#[trigger] pairs[k], release_id)
            &&& pairs[k].edit_failure is Some
            &&& inject::event_editable(pairs.take(k), release_id)
            &&& error == (ErrorView::EditPair { cause: pairs[k].edit_failure->0 })
        };
    if i < k {
        assert(pairs.take(k)[i] == pairs[i]);
        assert(inject::event_edits(pairs.take(k)[i], release_id));
    }
}

/// Each debug id that is no UUID, on a chunk without an id, is announced once and in order, where
/// every pair but perhaps the last can be edited as far as it has to be.
pub proof fn law_every_ignored_debug_id_is_announced(
    pairs: Seq<PairView>,
    release_id: Option<Seq<char>>,
)
    requires
        pairs.len() > 0 ==> inject::event_editable(pairs.drop_last(), release_id),
    ensures
        inject::ignored_lines(pairs, release_id) == pairs.filter_map(
            |pair: PairView|
                if pair.source.payload is None && pair.debug_id is Some && !ids::is_uuid(
                    pair.debug_id->0,
                ) {
                    Some(
                        "ignoring malformed debug id "@ + text::debug_text(pair.debug_id->0)
                            + " on "@ + pair.source.file.path.display
                            + " — falling back to a content-derived chunk id"@,
                    )
                } else {
                    None
                },
        ),
    decreases pairs.len(),
{
    if pairs.len() > 0 {
        let shorter = pairs.drop_last();
        if shorter.len() > 0 {
            assert forall|i: int|
                0 <= i < shorter.drop_last().len() && inject::event_edits(
                    #[trigger] shorter.drop_last()[i],
                    release_id,
                ) implies shorter.drop_last()[i].edit_failure is None by {
                assert(shorter[i] == shorter.drop_last()[i]);
            }
        }
        law_every_ignored_debug_id_is_announced(shorter, release_id);
    }
}

/// What stands behind a pair that stops event mode is not announced any more.
pub proof fn law_nothing_is_announced_behind_a_failure(
    front: Seq<PairView>,
    back: Seq<PairView>,
    release_id: Option<Seq<char>>,
)
    requires
        !inject::event_editable(front, release_id),
    ensures
        inject::ignored_lines(front + back, release_id) == inject::ignored_lines(front, release_id),
    decreases back.len(),
{
    if back.len() == 0 {
        assert(front + back =~= front);
    } else {
        let all = front + back;
        law_nothing_is_announced_behind_a_failure(front, back.drop_last(), release_id);
        assert(all.drop_last() =~= front + back.drop_last());
        let k = choose|k: int|
            0 <= k < front.len() && inject::event_edits(#[trigger] front[k], release_id)
                && front[k].edit_failure is Some;
        assert(all.drop_last()[k] == front[k]);
        assert(!inject::event_editable(all.drop_last(), release_id));
    }
}

/// Symbol-set mode leaves a pair alone exactly where its map is stamped with the created release and
/// its chunk has an id. Any other pair gets a fresh id and no release id into its chunk, and the
/// created release into its map.
pub proof fn law_symbol_set_renews_or_leaves_alone(
    before: Seq<PairView>,
    created_release_id: Option<Seq<char>>,
    issued: Set<Seq<char>>,
    after: Seq<PairView>,
    i: int,
)
    requires
        inject::legacy_pairs(before, created_release_id, issued, after),
        0 <= i < before.len(),
    ensures
        after.len() == before.len(),
        created_release_id is Some && before[i].sourcemap.release_id == created_release_id
            && before[i].source.payload is Some ==> after[i] == before[i],
        created_release_id is None || before[i].sourcemap.release_id != created_release_id
            || before[i].source.payload is None ==> {
            &&& after[i].sourcemap.release_id == created_release_id
            &&& after[i].source.payload matches Some(payload)
            &&& payload.release_id is None
            &&& ids::is_versioned_uuid(payload.chunk_id, '7')
            &&& !issued.contains(payload.chunk_id)
        },
        after[i].source.file == before[i].source.file,
        after[i].sourcemap.file == before[i].sourcemap.file,
        after[i].debug_id == before[i].debug_id,
{
    assert(inject::legacy_pair(before[i], created_release_id, after[i]));
}

/// Symbol-set mode fails exactly where some pair cannot be edited that is not stamped with the
/// created release or has no chunk id.
pub proof fn law_symbol_set_succeeds_where_it_can_edit(
    pairs: Seq<PairView>,
    created_release_id: Option<Seq<char>>,
)
    ensures
        inject::legacy_editable(pairs, created_release_id) <==> forall|i: int|
            0 <= i < pairs.len() && (#[trigger] pairs[i]).edit_failure is Some
                ==> pairs[i].source.payload is Some && created_release_id is Some
                && pairs[i].sourcemap.release_id == created_release_id,
        inject::legacy_editable(pairs, created_release_id) <==> !exists|error: ErrorView| #[trigger]
            inject::legacy_failure(pairs, created_release_id, error),
    decreases pairs.len(),
{
    if inject::legacy_editable(pairs, created_release_id) {
        assert forall|i: int|
            0 <= i < pairs.len() && (#[trigger] pairs[i]).edit_failure is Some implies
            pairs[i].source.payload is Some && created_release_id is Some
            && pairs[i].sourcemap.release_id == created_release_id by {
            assert(!inject::needs_stamp(pairs[i], created_release_id));
        }
    } else {
        let shorter = pairs.drop_last();
        let last = pairs.len() - 1;
        if inject::legacy_editable(shorter, created_release_id) {
            let k = choose|k: int|
                0 <= k < pairs.len() && inject::needs_stamp(
                    #[trigger] pairs[k],
                    created_release_id,
                ) && pairs[k].edit_failure is Some;
            if k < last {
                assert(shorter[k] == pairs[k]);
            }
            assert(pairs.take(last) =~= shorter);
            assert(inject::legacy_failure(
                pairs,
                created_release_id,
                ErrorView::EditPair { cause: pairs[last].edit_failure->0 },
            ));
        } else {
            law_symbol_set_succeeds_where_it_can_edit(shorter, created_release_id);
            let error = choose|error: ErrorView| #[trigger]
                inject::legacy_failure(shorter, created_release_id, error);
            let k = choose|k: int|
                {
                    &&& 0 <= k < shorter.len()
                    &&& inject::needs_stamp(#[trigger] shorter[k], created_release_id)
                    &&& shorter[k].edit_failure is Some
                    &&& inject::legacy_editable(shorter.take(k), created_release_id)
                    &&& error == (ErrorView::EditPair { cause: shorter[k].edit_failure->0 })
                };
            assert(shorter.take(k) =~= pairs.take(k));
            assert(pairs[k] == shorter[k]);
            assert(inject::legacy_failure(pairs, created_release_id, error));
        }
        let k = choose|k: int|
            0 <= k < pairs.len() && inject::needs_stamp(#[trigger] pairs[k], created_release_id)
                && pairs[k].edit_failure is Some;
        assert(pairs[k].edit_failure is Some);
    }
}

/// Symbol-set mode fails for one reason only: that of the first pair that stands in its way.
pub proof fn law_symbol_set_fails_for_the_first_reason(
    pairs: Seq<PairView>,
    created_release_id: Option<Seq<char>>,
    error: ErrorView,
    i: int,
)
    requires
        inject::legacy_failure(pairs, created_release_id, error),
        0 <= i < pairs.len(),
        pairs[i].edit_failure is Some,
        pairs[i].source.payload is None || created_release_id is None
            || pairs[i].sourcemap.release_id != created_release_id,
        forall|k: int| 0 <= k < i ==> (#[trigger] pairs[k]).edit_failure is None,
    ensures
        error == (ErrorView::EditPair { cause: pairs[i].edit_failure->0 }),
{
    let k = choose|k: int|
        {
            &&& 0 <= k < pairs.len()
            &&& inject::needs_stamp(#[trigger] pairs[k], created_release_id)
            &&& pairs[k].edit_failure is Some
            &&& inject::legacy_editable(pairs.take(k), created_release_id)
            &&& error == (ErrorView::EditPair { cause: pairs[k].edit_failure->0 })
        };
    if i < k {
        assert(pairs.take(k)[i] == pairs[i]);
        assert(inject::needs_stamp(pairs.take(k)[i], created_release_id));
    }
}

/// A text is a UUID exactly where it is 32 hexadecimal digits, or 8, 4, 4, 4 and 12 of them with
/// hyphens between, bare, in braces, or behind `urn:uuid:` in any case.
pub proof fn law_uuids_are_digits_in_four_spellings(text: Seq<char>)
    ensures
        ids::is_uuid(text) <==> {
            ||| text.len() == 32 && are_hex_digits(text)
            ||| are_five_groups(text)
            ||| text.len() == 38 && text[0] == '{' && text[37] == '}' && are_five_groups(
                text.subrange(1, 37),
            )
            ||| {
                &&& text.len() == 45
                &&& text[0] == 'u' || text[0] == 'U'
                &&& text[1] == 'r' || text[1] == 'R'
                &&& text[2] == 'n' || text[2] == 'N'
                &&& text[3] == ':'
                &&& text[4] == 'u' || text[4] == 'U'
                &&& text[5] == 'u' || text[5] == 'U'
                &&& text[6] == 'i' || text[6] == 'I'
                &&& text[7] == 'd' || text[7] == 'D'
                &&& text[8] == ':'
                &&& are_five_groups(text.skip(9))
            }
        },
{
    lemma_five_groups(text);
    lemma_hex_digits(text);
    if text.len() == 38 {
        lemma_five_groups(text.subrange(1, 37));
    }
    if text.len() == 45 {
        lemma_five_groups(text.skip(9));
        let urn = seq!['u', 'r', 'n', ':', 'u', 'u', 'i', 'd', ':'];
        assert(urn[0] == 'u' && urn[1] == 'r' && urn[2] == 'n' && urn[3] == ':' && urn[4] == 'u'
            && urn[5] == 'u' && urn[6] == 'i' && urn[7] == 'd' && urn[8] == ':');
        lemma_same_letter(text[0], 'u', 'U');
        lemma_same_letter(text[1], 'r', 'R');
        lemma_same_letter(text[2], 'n', 'N');
        lemma_same_letter(text[4], 'u', 'U');
        lemma_same_letter(text[5], 'u', 'U');
        lemma_same_letter(text[6], 'i', 'I');
        lemma_same_letter(text[7], 'd', 'D');
    }
}

/// Whether every character is a hexadecimal digit.
pub open spec fn are_hex_digits(text: Seq<char>) -> bool {
    forall|i: int|
        0 <= i < text.len() ==> ('0' <= #[trigger] text[i] <= '9') || ('a' <= text[i] <= 'f') || (
        'A' <= text[i] <= 'F')
}

/// Whether the text is five groups of hexadecimal digits with hyphens between.
pub open spec fn are_five_groups(text: Seq<char>) -> bool {
    &&& text.len() == 36
    &&& text[8] == '-'
    &&& text[13] == '-'
    &&& text[18] == '-'
    &&& text[23] == '-'
    &&& are_hex_digits(text.subrange(0, 8))
    &&& are_hex_digits(text.subrange(9, 13))
    &&& are_hex_digits(text.subrange(14, 18))
    &&& are_hex_digits(text.subrange(19, 23))
    &&& are_hex_digits(text.subrange(24, 36))
}

proof fn lemma_hex_digits(text: Seq<char>)
    ensures
        are_hex_digits(text) <==> forall|i: int|
            0 <= i < text.len() ==> ids::is_hex(#[trigger] text[i]),
{
}

proof fn lemma_group(text: Seq<char>, start: int, end: int)
    requires
        0 <= start <= end <= text.len(),
    ensures
        are_hex_digits(text.subrange(start, end)) <==> forall|i: int|
            start <= i < end ==> ids::is_hex(#[trigger] text[i]),
{
    let group = text.subrange(start, end);
    if are_hex_digits(group) {
        assert forall|i: int| start <= i < end implies ids::is_hex(#[trigger] text[i]) by {
            assert(group[i - start] == text[i]);
        }
    }
    if forall|i: int| start <= i < end ==> ids::is_hex(#[trigger] text[i]) {
        assert forall|i: int| 0 <= i < group.len() implies ids::is_hex(#[trigger] group[i]) by {
            assert(group[i] == text[start + i]);
        }
    }
}

proof fn lemma_five_groups(text: Seq<char>)
    ensures
        ids::is_hyphenated_uuid(text) <==> are_five_groups(text),
{
    if text.len() == 36 {
        lemma_group(text, 0, 8);
        lemma_group(text, 9, 13);
        lemma_group(text, 14, 18);
        lemma_group(text, 19, 23);
        lemma_group(text, 24, 36);
        if ids::is_hyphenated_uuid(text) {
            assert(text[8] == '-' && text[13] == '-' && text[18] == '-' && text[23] == '-');
        }
    }
}

proof fn lemma_same_letter(c: char, lower: char, upper: char)
    requires
        'a' <= lower <= 'z',
        upper as u32 + 32 == lower as u32,
    ensures
        ids::same_letter(c, lower) <==> c == lower || c == upper,
{
    if c as u32 + 32 == lower as u32 {
        char_u32_cast(c, c as u32);
        char_u32_cast(upper, c as u32);
    }
}

} // verus!
