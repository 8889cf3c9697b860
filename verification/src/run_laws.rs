//! What holds of an injection run from its arguments to its results.

use vstd::prelude::*;
use vstd::utf8::*;

use crate::args::ReleaseMode;
use crate::digest;
use crate::error::ErrorView;
use crate::ids;
use crate::inject;
use crate::inject_laws;
use crate::pairs;
use crate::pairs::PairView;
use crate::paths;
use crate::release::{BuilderView, GitView, ReleaseFields};
use crate::rewritten;
use crate::run;
use crate::run::{FailedRun, InjectStep, Injection, Setting};
use crate::text;

verus! {

/// Event mode asks git in every run without an existing release, so that no run goes on without
/// having looked for one.
pub proof fn law_event_run_always_looks_for_a_release(fields: ReleaseFields, pairs: Seq<PairView>)
    ensures
        run::asks_git(ReleaseMode::Event, fields, pairs),
{
}

/// Symbol-set mode asks git exactly where a flag gives a name, a version or a build, or the source
/// map of some pair has no release id.
pub proof fn law_symbol_set_run_looks_where_a_release_is_needed(
    fields: ReleaseFields,
    pairs: Seq<PairView>,
)
    ensures
        run::asks_git(ReleaseMode::SymbolSet, fields, pairs) <==> {
            ||| fields.name is Some
            ||| fields.version is Some
            ||| fields.build is Some
            ||| !(forall|i: int|
                0 <= i < pairs.len() ==> (#[trigger] pairs[i]).sourcemap.release_id is Some)
        },
{
    let maps = run::maps_of(pairs);
    if forall|i: int| 0 <= i < pairs.len() ==> (#[trigger] pairs[i]).sourcemap.release_id is Some {
        assert forall|i: int| 0 <= i < maps.len() implies (#[trigger] maps[i]).release_id is Some by {
            assert(maps[i] == pairs[i].sourcemap);
        }
    } else {
        let i = choose|i: int|
            0 <= i < pairs.len() && (#[trigger] pairs[i]).sourcemap.release_id is None;
        assert(maps[i].release_id is None);
    }
}

/// In either mode, a run whose flags give a name and a version, or a build in its place, asks git
/// and then fetches or creates exactly that release, whatever git says and however the maps are
/// stamped.
pub proof fn law_run_fetches_the_named_release(
    release_mode: ReleaseMode,
    fields: ReleaseFields,
    git: Result<Option<GitView>, Seq<char>>,
    pairs: Seq<PairView>,
)
    requires
        fields.name is Some,
        fields.version is Some || fields.build is Some,
    ensures
        run::asks_git(release_mode, fields, pairs),
        run::mode_release(release_mode, fields, git, pairs) matches Ok(Some(builder)) && {
            &&& builder.fields.name == fields.name
            &&& builder.fields.version == fields.version
            &&& builder.fields.build == fields.build
        },
{
}

/// A run that asked git goes on without a release exactly where no name is to be had: flags give
/// nothing and there is no git, or neither flags nor the repository give a name.
pub proof fn law_run_goes_without_a_release_only_where_none_is_identified(
    release_mode: ReleaseMode,
    fields: ReleaseFields,
    git: Result<Option<GitView>, Seq<char>>,
    pairs: Seq<PairView>,
)
    requires
        run::asks_git(release_mode, fields, pairs),
    ensures
        run::mode_release(release_mode, fields, git, pairs) == Ok::<Option<BuilderView>, ErrorView>(
            None,
        ) <==> match git {
            Ok(Some(info)) => fields.name is None && info.repo_name is None,
            Ok(None) => fields.name is None && fields.version is None && fields.build is None,
            Err(_) => false,
        },
{
}

/// Both modes fetch or create the same release, wherever symbol-set mode looks for one.
pub proof fn law_both_modes_fetch_the_same_release(
    fields: ReleaseFields,
    git: Result<Option<GitView>, Seq<char>>,
    pairs: Seq<PairView>,
)
    requires
        run::asks_git(ReleaseMode::SymbolSet, fields, pairs),
    ensures
        run::mode_release(ReleaseMode::SymbolSet, fields, git, pairs) == run::mode_release(
            ReleaseMode::Event,
            fields,
            git,
            pairs,
        ),
{
}

/// A run with a release puts its id where the mode says, into every pair: in event mode each chunk
/// reports it, in symbol-set mode each source map is stamped with it. Every chunk has an id.
pub proof fn law_run_puts_the_release_into_every_pair(
    setting: Setting,
    before: Seq<PairView>,
    release_id: Seq<char>,
    injection: Injection,
    i: int,
)
    requires
        run::is_injection(setting, before, Some(release_id), injection),
        0 <= i < before.len(),
    ensures
        injection.pairs@.len() == before.len(),
        injection.pairs@[i]@.source.payload is Some,
        setting.release_mode == ReleaseMode::Event
            ==> injection.pairs@[i]@.source.payload->0.release_id == Some(release_id),
        setting.release_mode == ReleaseMode::SymbolSet
            ==> injection.pairs@[i]@.sourcemap.release_id == Some(release_id),
{
    let after = pairs::pair_views(injection.pairs@);
    assert(after.len() == injection.pairs@.len());
    match setting.release_mode {
        ReleaseMode::Event => {
            assert(after[i] == inject::event_pair(setting.namespace, before[i], Some(release_id)));
        },
        ReleaseMode::SymbolSet => {
            assert(inject::legacy_pair(before[i], Some(release_id), after[i]));
        },
    }
    assert(after[i] == injection.pairs@[i]@);
}

/// A run without a release still gives every chunk an id. Event mode leaves the release that a chunk
/// reports and every stamp as they were; symbol-set mode clears the stamps.
pub proof fn law_run_without_release_still_gives_ids(
    setting: Setting,
    before: Seq<PairView>,
    injection: Injection,
    i: int,
)
    requires
        run::is_injection(setting, before, None, injection),
        0 <= i < before.len(),
    ensures
        injection.pairs@.len() == before.len(),
        injection.pairs@[i]@.source.payload is Some,
        setting.release_mode == ReleaseMode::Event ==> {
            &&& injection.pairs@[i]@.sourcemap == before[i].sourcemap
            &&& before[i].source.payload is Some ==> injection.pairs@[i]@ == before[i]
            &&& before[i].source.payload is None
                ==> injection.pairs@[i]@.source.payload->0.release_id is None
        },
        setting.release_mode == ReleaseMode::SymbolSet
            ==> injection.pairs@[i]@.sourcemap.release_id is None,
{
    let after = pairs::pair_views(injection.pairs@);
    assert(after.len() == injection.pairs@.len());
    match setting.release_mode {
        ReleaseMode::Event => {
            assert(after[i] == inject::event_pair(setting.namespace, before[i], None));
        },
        ReleaseMode::SymbolSet => {
            assert(inject::legacy_pair(before[i], None, after[i]));
        },
    }
    assert(after[i] == injection.pairs@[i]@);
}

/// A run keeps every pair, in order, with the text of its chunk and of its source map, and in event
/// mode also the stamp of the map.
pub proof fn law_run_keeps_every_text(
    setting: Setting,
    before: Seq<PairView>,
    release_id: Option<Seq<char>>,
    injection: Injection,
    i: int,
)
    requires
        run::is_injection(setting, before, release_id, injection),
        0 <= i < before.len(),
    ensures
        injection.pairs@.len() == before.len(),
        injection.pairs@[i]@.source.file == before[i].source.file,
        injection.pairs@[i]@.sourcemap.file == before[i].sourcemap.file,
        injection.pairs@[i]@.debug_id == before[i].debug_id,
        setting.release_mode == ReleaseMode::Event ==> injection.pairs@[i]@.sourcemap
            == before[i].sourcemap,
{
    let after = pairs::pair_views(injection.pairs@);
    assert(after.len() == injection.pairs@.len());
    match setting.release_mode {
        ReleaseMode::Event => {
            assert(after[i] == inject::event_pair(setting.namespace, before[i], release_id));
        },
        ReleaseMode::SymbolSet => {
            assert(inject::legacy_pair(before[i], release_id, after[i]));
        },
    }
    assert(after[i] == injection.pairs@[i]@);
}

/// A run reports a chunk as rewritten exactly where it saves another chunk than it read, and reports
/// nothing else. Left out are builds in which chunks share a path, and digests that collide.
pub proof fn law_run_reports_what_it_rewrote(
    setting: Setting,
    before: Seq<PairView>,
    release_id: Option<Seq<char>>,
    injection: Injection,
    i: int,
)
    requires
        run::is_injection(setting, before, release_id, injection),
        inject_laws::distinct_paths(before),
        0 <= i < before.len(),
        digest::sha1(pairs::source_bytes(before[i].source)) == digest::sha1(
            pairs::source_bytes(injection.pairs@[i]@.source),
        ) ==> pairs::source_bytes(before[i].source) == pairs::source_bytes(
            injection.pairs@[i]@.source,
        ),
    ensures
        injection.pairs@.len() == before.len(),
        paths::path_views(injection.rewritten@).contains(before[i].source.file.path)
            <==> injection.pairs@[i]@.source != before[i].source,
        forall|k: int|
            0 <= k < injection.rewritten@.len() ==> exists|j: int|
                0 <= j < before.len() && (#[trigger] before[j]).source.file.path == (
                #[trigger] injection.rewritten@[k])@,
{
    let after = pairs::pair_views(injection.pairs@);
    let reported = paths::path_views(injection.rewritten@);
    assert(after.len() == injection.pairs@.len());
    assert forall|k: int| 0 <= k < before.len() implies (#[trigger] after[k]).source.file.path
        == before[k].source.file.path by {
        law_run_keeps_every_text(setting, before, release_id, injection, k);
        assert(after[k] == injection.pairs@[k]@);
    }
    law_run_keeps_every_text(setting, before, release_id, injection, i);
    assert(after[i] == injection.pairs@[i]@);
    inject_laws::law_rewritten_chunks_are_those_that_changed(before, after, i);
    assert forall|k: int| 0 <= k < injection.rewritten@.len() implies exists|j: int|
        0 <= j < before.len() && (#[trigger] before[j]).source.file.path == (
        #[trigger] injection.rewritten@[k])@ by {
        assert(reported[k] == injection.rewritten@[k]@);
        assert(reported.contains(reported[k]));
        inject_laws::lemma_rewritten_paths(after, rewritten::hashes_by_path(before), reported[k]);
        let j = choose|j: int|
            0 <= j < after.len() && (#[trigger] after[j]).source.file.path == reported[k]
                && rewritten::is_rewritten(after[j].source, rewritten::hashes_by_path(before));
        assert(before[j].source.file.path == reported[k]);
    }
}

/// A run over pairs that can all be edited does not fail.
pub proof fn law_run_over_editable_pairs_succeeds(
    setting: Setting,
    pairs: Seq<PairView>,
    release_id: Option<Seq<char>>,
    result: Result<InjectStep, FailedRun>,
)
    requires
        run::injects(setting, pairs, release_id, result),
        forall|i: int| 0 <= i < pairs.len() ==> (#[trigger] pairs[i]).edit_failure is None,
    ensures
        result is Ok,
        result->Ok_0 is Save,
{
}

/// A run that fails once the release is known fails for a pair that cannot be edited, with the
/// reason that the pair gives, and none of the pairs before it stood in the way.
pub proof fn law_run_fails_for_a_pair_that_cannot_be_edited(
    setting: Setting,
    pairs: Seq<PairView>,
    release_id: Option<Seq<char>>,
    result: Result<InjectStep, FailedRun>,
)
    requires
        run::injects(setting, pairs, release_id, result),
        result is Err,
    ensures
        exists|i: int|
            {
                &&& 0 <= i < pairs.len()
                &&& (#[trigger] pairs[i]).edit_failure is Some
                &&& result->Err_0.error@ == (ErrorView::EditPair {
                    cause: pairs[i].edit_failure->0,
                })
                &&& pairs[i].source.payload is None || release_id is Some || setting.release_mode
                    == ReleaseMode::SymbolSet
                &&& forall|k: int|
                    0 <= k < i && (#[trigger] pairs[k]).source.payload is None
                        ==> pairs[k].edit_failure is None
            },
{
    match setting.release_mode {
        ReleaseMode::Event => {
            let i = choose|i: int|
                {
                    &&& 0 <= i < pairs.len()
                    &&& inject::event_edits(#[trigger] pairs[i], release_id)
                    &&& pairs[i].edit_failure is Some
                    &&& inject::event_editable(pairs.take(i), release_id)
                    &&& result->Err_0.error@ == (ErrorView::EditPair {
                        cause: pairs[i].edit_failure->0,
                    })
                };
            assert forall|k: int| 0 <= k < i && (
            #[trigger] pairs[k]).source.payload is None implies pairs[k].edit_failure is None by {
                assert(pairs.take(i)[k] == pairs[k]);
            }
        },
        ReleaseMode::SymbolSet => {
            let i = choose|i: int|
                {
                    &&& 0 <= i < pairs.len()
                    &&& inject::needs_stamp(#[trigger] pairs[i], release_id)
                    &&& pairs[i].edit_failure is Some
                    &&& inject::legacy_editable(pairs.take(i), release_id)
                    &&& result->Err_0.error@ == (ErrorView::EditPair {
                        cause: pairs[i].edit_failure->0,
                    })
                };
            assert forall|k: int| 0 <= k < i && (
            #[trigger] pairs[k]).source.payload is None implies pairs[k].edit_failure is None by {
                assert(pairs.take(i)[k] == pairs[k]);
            }
        },
    }
}

/// A run over pairs that can all be edited warns of nothing in symbol-set mode. In event mode it
/// warns of a missing release exactly where there is none, first of all, and then of each debug id
/// that is no UUID on a chunk without an id, in order.
pub proof fn law_run_warns_of_what_is_missing_or_ignored(
    setting: Setting,
    pairs: Seq<PairView>,
    release_id: Option<Seq<char>>,
    result: Result<InjectStep, FailedRun>,
)
    requires
        run::injects(setting, pairs, release_id, result),
        forall|i: int| 0 <= i < pairs.len() ==> (#[trigger] pairs[i]).edit_failure is None,
    ensures
        result matches Ok(InjectStep::Save(injection)) && text::texts(injection.warnings@) == (
        match setting.release_mode {
            ReleaseMode::SymbolSet => Seq::<Seq<char>>::empty(),
            ReleaseMode::Event => (if release_id is None {
                seq![
                    "no release could be resolved, injecting chunk ids only — events will carry no release"@,
                ]
            } else {
                Seq::empty()
            }) + pairs.filter_map(
                |pair: PairView|
                    if pair.source.payload is None && pair.debug_id is Some && !ids::is_uuid(
                        pair.debug_id->0,
                    ) {
                        Some(
                            "ignoring malformed debug id "@ + text::debug_text(pair.debug_id->0)
                                + " on "@ + pair.source.file.path.display
                                + " — falling back to a content-derived chunk id"@,
                        )
                    } else {
                        None
                    },
            ),
        }),
{
    law_run_over_editable_pairs_succeeds(setting, pairs, release_id, result);
    inject_laws::law_every_ignored_debug_id_is_announced(pairs, release_id);
}

/// A run that fails keeps what it warned of before: in event mode of a missing release, and of the
/// ignored debug ids up to and including that of the pair that stopped it.
pub proof fn law_failed_run_keeps_its_warnings(
    setting: Setting,
    pairs: Seq<PairView>,
    release_id: Option<Seq<char>>,
    result: Result<InjectStep, FailedRun>,
    i: int,
)
    requires
        run::injects(setting, pairs, release_id, result),
        0 <= i < pairs.len(),
        pairs[i].edit_failure is Some,
        pairs[i].source.payload is None,
        forall|k: int| 0 <= k < i ==> (#[trigger] pairs[k]).edit_failure is None,
    ensures
        result matches Err(failed) && text::texts(failed.warnings@) == (
        match setting.release_mode {
            ReleaseMode::SymbolSet => Seq::<Seq<char>>::empty(),
            ReleaseMode::Event => (if release_id is None {
                seq![
                    "no release could be resolved, injecting chunk ids only — events will carry no release"@,
                ]
            } else {
                Seq::empty()
            }) + pairs.take(i + 1).filter_map(
                |pair: PairView|
                    if pair.source.payload is None && pair.debug_id is Some && !ids::is_uuid(
                        pair.debug_id->0,
                    ) {
                        Some(
                            "ignoring malformed debug id "@ + text::debug_text(pair.debug_id->0)
                                + " on "@ + pair.source.file.path.display
                                + " — falling back to a content-derived chunk id"@,
                        )
                    } else {
                        None
                    },
            ),
        }),
{
    let front = pairs.take(i + 1);
    let back = pairs.skip(i + 1);
    assert(front + back =~= pairs);
    assert(front[i] == pairs[i]);
    assert(front.drop_last() =~= pairs.take(i));
    match setting.release_mode {
        ReleaseMode::Event => {
            assert(inject::event_edits(pairs[i], release_id));
            assert(!inject::event_editable(front, release_id));
            assert forall|k: int|
                0 <= k < front.drop_last().len() && inject::event_edits(
                    #[trigger] front.drop_last()[k],
                    release_id,
                ) implies front.drop_last()[k].edit_failure is None by {
                assert(front.drop_last()[k] == pairs[k]);
            }
            inject_laws::law_every_ignored_debug_id_is_announced(front, release_id);
            inject_laws::law_nothing_is_announced_behind_a_failure(front, back, release_id);
        },
        ReleaseMode::SymbolSet => {
            assert(inject::needs_stamp(pairs[i], release_id));
        },
    }
}

/// Event mode keeps the id of a chunk that has one, adopts a debug id that is a UUID, and otherwise
/// derives the id from the whole content within the namespace of the run.
pub proof fn law_event_run_gives_content_addressed_ids(
    setting: Setting,
    before: Seq<PairView>,
    release_id: Option<Seq<char>>,
    injection: Injection,
    i: int,
)
    requires
        setting.release_mode == ReleaseMode::Event,
        run::is_injection(setting, before, release_id, injection),
        0 <= i < before.len(),
    ensures
        injection.pairs@.len() == before.len(),
        injection.pairs@[i]@.source.payload matches Some(payload) && payload.chunk_id == (
        match before[i].source.payload {
            Some(carried) => carried.chunk_id,
            None => if before[i].debug_id is Some && ids::is_uuid(before[i].debug_id->0) {
                before[i].debug_id->0
            } else {
                ids::uuid_v5(setting.namespace, encode_utf8(before[i].source.file.content))
            },
        }),
{
    let after = pairs::pair_views(injection.pairs@);
    assert(after.len() == injection.pairs@.len());
    assert(after[i] == inject::event_pair(setting.namespace, before[i], release_id));
    assert(after[i] == injection.pairs@[i]@);
}

/// Symbol-set mode gives a new id to every chunk that has none or whose map is not stamped with the
/// release, different from every other new id of the run and from all that were issued earlier, and
/// leaves every other pair as it is.
pub proof fn law_symbol_set_run_gives_fresh_ids(
    setting: Setting,
    before: Seq<PairView>,
    release_id: Option<Seq<char>>,
    injection: Injection,
    i: int,
    j: int,
)
    requires
        setting.release_mode == ReleaseMode::SymbolSet,
        run::is_injection(setting, before, release_id, injection),
        0 <= i < before.len(),
        0 <= j < before.len(),
        i != j,
        before[j].source.payload is None || release_id is None || before[j].sourcemap.release_id
            != release_id,
    ensures
        injection.pairs@.len() == before.len(),
        before[i].source.payload is Some && release_id is Some && before[i].sourcemap.release_id
            == release_id ==> injection.pairs@[i]@ == before[i],
        before[i].source.payload is None || release_id is None || before[i].sourcemap.release_id
            != release_id ==> {
            &&& injection.pairs@[i]@.chunk_id() matches Some(id)
            &&& ids::is_versioned_uuid(id, '7')
            &&& !setting.issued.contains(id)
            &&& injection.pairs@[j]@.chunk_id() is Some
            &&& injection.pairs@[j]@.chunk_id() != Some(id)
        },
{
    let after = pairs::pair_views(injection.pairs@);
    assert(after.len() == injection.pairs@.len());
    assert(after[i] == injection.pairs@[i]@);
    assert(after[j] == injection.pairs@[j]@);
    inject_laws::law_symbol_set_renews_or_leaves_alone(
        before,
        release_id,
        setting.issued,
        after,
        i,
    );
    if before[i].source.payload is None || release_id is None || before[i].sourcemap.release_id
        != release_id {
        inject_laws::law_symbol_set_ids_of_a_build_differ(
            before,
            release_id,
            setting.issued,
            after,
            i,
            j,
        );
    }
}

} // verus!
