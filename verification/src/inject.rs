//! Injection into the pairs of a build, in both release modes.

use vstd::prelude::*;
use vstd::utf8::*;

use crate::error::{ErrorView, InjectError};
use crate::ids;
use crate::ids::IdSource;
use crate::pairs;
use crate::pairs::{PairView, PayloadView, SourcePair};
use crate::text;

verus! {

/// The bundler's debug id, where it is a UUID.
pub open spec fn adopted(debug_id: Option<Seq<char>>) -> Option<Seq<char>> {
    match debug_id {
        Some(id) => if ids::is_uuid(id) { Some(id) } else { None },
        None => None,
    }
}

/// The chunk id that event mode gives to a chunk without one.
pub open spec fn event_chunk_id(namespace: u128, pair: PairView) -> Seq<char> {
    match adopted(pair.debug_id) {
        Some(id) => id,
        None => ids::content_id(namespace, pair.source.file.content),
    }
}

/// Whether the id is of the kind that event mode gives to a chunk without one: a UUID, and of
/// version 5 unless the bundler's debug id was adopted.
pub open spec fn is_given_id(pair: PairView, id: Seq<char>) -> bool {
    &&& ids::is_uuid(id)
    &&& adopted(pair.debug_id) is None ==> ids::is_versioned_uuid(id, '5')
}

/// Whether event mode edits the pair: its chunk has no id, or reports another release than the one
/// that resolved.
pub open spec fn event_edits(pair: PairView, release_id: Option<Seq<char>>) -> bool {
    match pair.source.payload {
        None => true,
        Some(payload) => release_id is Some && payload.release_id != release_id,
    }
}

/// A pair after event-mode injection.
pub open spec fn event_pair(
    namespace: u128,
    pair: PairView,
    release_id: Option<Seq<char>>,
) -> PairView {
    if event_edits(pair, release_id) {
        let chunk_id = match pair.source.payload {
            None => event_chunk_id(namespace, pair),
            Some(payload) => payload.chunk_id,
        };
        pair.with_payload(Some(PayloadView { chunk_id, release_id }))
    } else {
        pair
    }
}

/// The pairs of a build after event-mode injection.
pub open spec fn event_pairs(
    namespace: u128,
    pairs: Seq<PairView>,
    release_id: Option<Seq<char>>,
) -> Seq<PairView> {
    pairs.map_values(|pair: PairView| event_pair(namespace, pair, release_id))
}

/// Whether symbol-set mode gives the pair a new chunk id: its map is stamped with another release
/// or with none, or its chunk has no id.
pub open spec fn needs_stamp(pair: PairView, created_release_id: Option<Seq<char>>) -> bool {
    pair.sourcemap.release_id != created_release_id || pair.sourcemap.release_id is None
        || pair.source.payload is None
}

/// A pair stamped with a release id and given a new chunk id.
pub open spec fn stamped_pair(
    pair: PairView,
    created_release_id: Option<Seq<char>>,
    chunk_id: Seq<char>,
) -> PairView {
    pair.with_release_id(created_release_id).with_payload(
        Some(PayloadView { chunk_id, release_id: None }),
    )
}

/// Whether symbol-set-mode injection may turn `before` into `after`.
pub open spec fn legacy_pair(
    before: PairView,
    created_release_id: Option<Seq<char>>,
    after: PairView,
) -> bool {
    if needs_stamp(before, created_release_id) {
        &&& after.source.payload is Some
        &&& ids::is_versioned_uuid(after.source.payload->0.chunk_id, '7')
        &&& after == stamped_pair(
            before,
            created_release_id,
            after.source.payload->0.chunk_id,
        )
    } else {
        after == before
    }
}

/// Whether symbol-set-mode injection may turn the build `before` into `after`: each new chunk id is
/// of the right kind, none of those issued earlier, and no two are the same.
pub open spec fn legacy_pairs(
    before: Seq<PairView>,
    created_release_id: Option<Seq<char>>,
    issued: Set<Seq<char>>,
    after: Seq<PairView>,
) -> bool {
    &&& after.len() == before.len()
    &&& forall|i: int|
        0 <= i < before.len() ==> legacy_pair(
            #[trigger] before[i],
            created_release_id,
            after[i],
        )
    &&& forall|i: int|
        0 <= i < before.len() && needs_stamp(#[trigger] before[i], created_release_id)
            ==> !issued.contains(after[i].source.payload->0.chunk_id)
    &&& forall|i: int, j: int|
        0 <= i < j < before.len() && needs_stamp(#[trigger] before[i], created_release_id)
            && needs_stamp(#[trigger] before[j], created_release_id)
            ==> after[i].source.payload->0.chunk_id != after[j].source.payload->0.chunk_id
}

/// Whether this is the failure of the first pair that event mode has to edit and cannot.
pub open spec fn event_failure(
    pairs: Seq<PairView>,
    release_id: Option<Seq<char>>,
    error: ErrorView,
) -> bool {
    exists|i: int|
        {
            &&& 0 <= i < pairs.len()
            &&& event_edits(#[trigger] pairs[i], release_id)
            &&& pairs[i].edit_failure is Some
            &&& event_editable(pairs.take(i), release_id)
            &&& error == (ErrorView::EditPair { cause: pairs[i].edit_failure->0 })
        }
}

/// Whether event mode can edit every pair that it has to.
pub open spec fn event_editable(pairs: Seq<PairView>, release_id: Option<Seq<char>>) -> bool {
    forall|i: int|
        0 <= i < pairs.len() && event_edits(#[trigger] pairs[i], release_id)
            ==> pairs[i].edit_failure is None
}

/// The line that warns of a debug id that event mode ignores: one that is no UUID, on a chunk
/// without an id.
pub open spec fn ignored_line(pair: PairView) -> Option<Seq<char>> {
    match (pair.source.payload, pair.debug_id) {
        (None, Some(debug_id)) => if ids::is_uuid(debug_id) {
            None
        } else {
            Some(
                "ignoring malformed debug id "@ + text::debug_text(debug_id) + " on "@
                    + pair.source.file.path.display
                    + " — falling back to a content-derived chunk id"@,
            )
        },
        _ => None,
    }
}

/// The lines that warn of ignored debug ids, up to the first pair that event mode has to edit and
/// cannot.
pub open spec fn ignored_lines(pairs: Seq<PairView>, release_id: Option<Seq<char>>) -> Seq<
    Seq<char>,
>
    decreases pairs.len(),
{
    if pairs.len() == 0 {
        Seq::empty()
    } else {
        let earlier = ignored_lines(pairs.drop_last(), release_id);
        match ignored_line(pairs.last()) {
            Some(line) => if event_editable(pairs.drop_last(), release_id) {
                earlier.push(line)
            } else {
                earlier
            },
            None => earlier,
        }
    }
}

/// Whether this is the failure of the first pair that symbol-set mode has to edit and cannot.
pub open spec fn legacy_failure(
    pairs: Seq<PairView>,
    created_release_id: Option<Seq<char>>,
    error: ErrorView,
) -> bool {
    exists|i: int|
        {
            &&& 0 <= i < pairs.len()
            &&& needs_stamp(#[trigger] pairs[i], created_release_id)
            &&& pairs[i].edit_failure is Some
            &&& legacy_editable(pairs.take(i), created_release_id)
            &&& error == (ErrorView::EditPair { cause: pairs[i].edit_failure->0 })
        }
}

/// Whether symbol-set mode can edit every pair that it has to.
pub open spec fn legacy_editable(
    pairs: Seq<PairView>,
    created_release_id: Option<Seq<char>>,
) -> bool {
    forall|i: int|
        0 <= i < pairs.len() && needs_stamp(#[trigger] pairs[i], created_release_id)
            ==> pairs[i].edit_failure is None
}

/// The bundler's debug id as a chunk id, so that one id names the chunk across the whole
/// toolchain. A value that is no UUID is refused: the id flows into uploads and events, where a
/// malformed one is worse than a derived one.
pub fn adopted_debug_id(pair: &SourcePair) -> (id: Option<String>)
    ensures
        text::opt_text(id) == adopted(pair@.debug_id),
{
    match pair.get_debug_id() {
        Some(debug_id) => {
            if ids::is_malformed_debug_id(debug_id.as_str()) {
                None
            } else {
                Some(debug_id)
            }
        },
        None => None,
    }
}

/// The line that warns of a debug id that event mode ignores on a chunk without an id.
pub fn ignored_debug_id(pair: &SourcePair) -> (line: Option<String>)
    ensures
        text::opt_text(line) == ignored_line(pair@),
{
    if pair.get_chunk_id().is_some() {
        return None;
    }
    match pair.get_debug_id() {
        Some(debug_id) => {
            if ids::is_malformed_debug_id(debug_id.as_str()) {
                let id = text::quoted(debug_id.as_str());
                Some(
                    "ignoring malformed debug id ".to_string().concat(id.as_str()).concat(
                        " on ",
                    ).concat(pair.source.inner.path.display.as_str()).concat(
                        " — falling back to a content-derived chunk id",
                    ),
                )
            } else {
                None
            }
        },
        None => None,
    }
}

/// Whether event mode edits the pair.
fn needs_event_edit(pair: &SourcePair, release_id: Option<&str>) -> (needed: bool)
    ensures
        needed == event_edits(pair@, text::opt_str(release_id)),
{
    if pair.get_chunk_id().is_none() {
        return true;
    }
    match release_id {
        Some(release_id) => !text::same_opt(
            &pair.get_injected_release_id(),
            &Some(release_id.to_string()),
        ),
        None => false,
    }
}

/// The lines that warn of the debug ids that event-mode injection ignores, in order. Injection does
/// not get past the first pair that it has to edit and cannot.
pub fn ignored_debug_ids(pairs: &[SourcePair], release_id: Option<&str>) -> (lines: Vec<String>)
    ensures
        text::texts(lines@) == ignored_lines(
            pairs::pair_views(pairs@),
            text::opt_str(release_id),
        ),
{
    let mut lines: Vec<String> = Vec::new();
    let ghost views = pairs::pair_views(pairs@);
    let ghost release = text::opt_str(release_id);
    let mut stopped = false;
    let mut i: usize = 0;
    assert(text::texts(lines@) =~= ignored_lines(views.take(0), release));
    while i < pairs.len()
        invariant
            i <= pairs.len(),
            views == pairs::pair_views(pairs@),
            release == text::opt_str(release_id),
            stopped == !event_editable(views.take(i as int), release),
            text::texts(lines@) == ignored_lines(views.take(i as int), release),
        decreases pairs.len() - i,
    {
        let pair = &pairs[i];
        let ghost earlier = lines@;
        let ghost shorter = views.take(i as int);
        let ghost longer = views.take(i + 1);
        let ghost was_stopped = stopped;
        proof {
            assert(longer.drop_last() =~= shorter);
            assert(longer.last() == pair@);
            assert(longer =~= shorter.push(pair@));
        }
        if !stopped {
            if let Some(line) = ignored_debug_id(pair) {
                lines.push(line);
                assert(text::texts(lines@) =~= text::texts(earlier) + seq![line@]);
            }
            stopped = needs_event_edit(pair, release_id) && pair.edit_failure.is_some();
        }
        proof {
            if was_stopped {
                let k = choose|k: int|
                    0 <= k < shorter.len() && event_edits(#[trigger] shorter[k], release)
                        && shorter[k].edit_failure is Some;
                assert(longer[k] == shorter[k]);
            } else if stopped {
                assert(longer[i as int] == pair@);
            }
            assert(text::texts(lines@) =~= ignored_lines(longer, release));
        }
        i += 1;
    }
    assert(views.take(i as int) =~= views);
    lines
}

/// Event-mode injection into one pair.
fn inject_pair(
    namespace: u128,
    pair: &mut SourcePair,
    release_id: Option<&str>,
) -> (result: Result<(), InjectError>)
    ensures
        result is Ok <==> (event_edits(old(pair)@, text::opt_str(release_id)) ==> old(
            pair,
        )@.edit_failure is None),
        result matches Err(error) ==> error@ == (ErrorView::EditPair {
            cause: old(pair)@.edit_failure->0,
        }),
        result is Ok ==> final(pair)@ == event_pair(
            namespace,
            old(pair)@,
            text::opt_str(release_id),
        ),
        result is Ok && old(pair)@.source.payload is None ==> is_given_id(
            old(pair)@,
            final(pair)@.source.payload->0.chunk_id,
        ),
{
    let chunk_id = match pair.get_chunk_id() {
        Some(chunk_id) => chunk_id,
        None => {
            let chunk_id = match adopted_debug_id(pair) {
                Some(debug_id) => debug_id,
                None => ids::stable_chunk_id(namespace, pair.source.inner.content.as_str()),
            };
            return pair.add_chunk_id(chunk_id, release_id);
        },
    };

    // The chunk id stays, and the release id is refreshed when a different release resolved. An
    // unresolved release is missing information, no evidence that the carried id is stale.
    let release_id = match release_id {
        Some(release_id) => release_id,
        None => {
            return Ok(());
        },
    };
    if text::same_opt(&pair.get_injected_release_id(), &Some(release_id.to_string())) {
        return Ok(());
    }
    match pair.remove_chunk_id(chunk_id.clone()) {
        Ok(()) => pair.add_chunk_id(chunk_id, Some(release_id)),
        Err(error) => Err(error),
    }
}

/// Event-mode injection: content-addressed chunk ids and, where a release resolved, its id in
/// every chunk. A chunk that carries an id keeps it. The first pair that has to be edited and
/// cannot be stops the injection. Ids are derived within the namespace, which has to stay the same
/// for them to stay the same.
pub fn inject_pairs(
    namespace: u128,
    pairs: Vec<SourcePair>,
    release_id: Option<&str>,
) -> (result: Result<Vec<SourcePair>, InjectError>)
    ensures
        match result {
            Ok(injected) => {
                &&& event_editable(pairs::pair_views(pairs@), text::opt_str(release_id))
                &&& pairs::pair_views(injected@) == event_pairs(
                    namespace,
                    pairs::pair_views(pairs@),
                    text::opt_str(release_id),
                )
                &&& forall|i: int|
                    0 <= i < pairs@.len() && (#[trigger] pairs@[i])@.source.payload is None
                        ==> is_given_id(pairs@[i]@, injected@[i]@.source.payload->0.chunk_id)
                &&& forall|i: int|
                    0 <= i < pairs@.len() && (#[trigger] pairs@[i])@.source.payload is None && (
                    pairs@[i]@.debug_id is None || !ids::is_uuid(pairs@[i]@.debug_id->0))
                        ==> injected@[i]@.source.payload->0.chunk_id == ids::uuid_v5(
                        namespace,
                        encode_utf8(pairs@[i]@.source.file.content),
                    )
            },
            Err(error) => event_failure(
                pairs::pair_views(pairs@),
                text::opt_str(release_id),
                error@,
            ),
        },
{
    let ghost before = pairs@;
    let ghost views = pairs::pair_views(pairs@);
    let ghost release = text::opt_str(release_id);
    let mut injected = pairs;
    let mut i: usize = 0;
    while i < injected.len()
        invariant
            i <= injected.len(),
            before == pairs@,
            injected@.len() == before.len(),
            views == pairs::pair_views(before),
            release == text::opt_str(release_id),
            forall|k: int|
                0 <= k < i ==> (#[trigger] injected@[k])@ == event_pair(
                    namespace,
                    before[k]@,
                    release,
                ),
            forall|k: int|
                0 <= k < i && (#[trigger] before[k])@.source.payload is None ==> is_given_id(
                    before[k]@,
                    injected@[k]@.source.payload->0.chunk_id,
                ),
            forall|k: int| i <= k < before.len() ==> #[trigger] injected@[k] == before[k],
            event_editable(views.take(i as int), release),
        decreases injected.len() - i,
    {
        assert(views[i as int] == injected@[i as int]@);
        match inject_pair(namespace, &mut injected[i], release_id) {
            Ok(()) => {},
            Err(error) => {
                return Err(error);
            },
        }
        assert(views.take(i + 1) =~= views.take(i as int).push(views[i as int]));
        i += 1;
    }
    assert(views.take(i as int) =~= views);
    assert(pairs::pair_views(injected@) =~= event_pairs(namespace, views, release));
    Ok(injected)
}

/// Whether symbol-set mode gives the pair a new chunk id.
fn needs_new_chunk_id(pair: &SourcePair, created_release_id: &Option<String>) -> (needed: bool)
    ensures
        needed == needs_stamp(pair@, text::opt_text(*created_release_id)),
{
    let current_release_id = pair.get_release_id();
    !text::same_opt(&current_release_id, created_release_id) || current_release_id.is_none()
        || pair.get_chunk_id().is_none()
}

/// Stamps a pair and replaces its chunk id, or leaves it alone where it is stamped with the release
/// already and the chunk has an id. `chunk_id` is the new id.
pub fn stamp_pair(
    pair: &mut SourcePair,
    created_release_id: &Option<String>,
    chunk_id: String,
) -> (result: Result<(), InjectError>)
    ensures
        result is Ok <==> (needs_stamp(old(pair)@, text::opt_text(*created_release_id)) ==> old(
            pair,
        )@.edit_failure is None),
        result matches Err(error) ==> {
            &&& error@ == (ErrorView::EditPair { cause: old(pair)@.edit_failure->0 })
            &&& final(pair)@ == old(pair)@.with_release_id(text::opt_text(*created_release_id))
        },
        result is Ok ==> final(pair)@ == if needs_stamp(
            old(pair)@,
            text::opt_text(*created_release_id),
        ) {
            stamped_pair(old(pair)@, text::opt_text(*created_release_id), chunk_id@)
        } else {
            old(pair)@
        },
{
    if needs_new_chunk_id(pair, created_release_id) {
        pair.set_release_id(text::copy_opt(created_release_id));
        match pair.get_chunk_id() {
            Some(previous_chunk_id) => pair.update_chunk_id(previous_chunk_id, chunk_id),
            None => pair.add_chunk_id(chunk_id, None),
        }
    } else {
        Ok(())
    }
}

/// Symbol-set-mode injection with ids from this source: see `inject_pairs_legacy`.
pub fn stamp_pairs(
    source: &mut IdSource,
    pairs: Vec<SourcePair>,
    created_release_id: &Option<String>,
) -> (result: Result<Vec<SourcePair>, InjectError>)
    ensures
        match result {
            Ok(injected) => {
                let before = pairs::pair_views(pairs@);
                let after = pairs::pair_views(injected@);
                let created = text::opt_text(*created_release_id);
                &&& legacy_editable(before, created)
                &&& legacy_pairs(before, created, old(source).issued(), after)
                &&& forall|i: int|
                    0 <= i < before.len() && needs_stamp(#[trigger] before[i], created)
                        ==> final(source).issued().contains(after[i].source.payload->0.chunk_id)
            },
            Err(error) => legacy_failure(
                pairs::pair_views(pairs@),
                text::opt_text(*created_release_id),
                error@,
            ),
        },
        old(source).issued().subset_of(final(source).issued()),
{
    let ghost before = pairs@;
    let ghost views = pairs::pair_views(pairs@);
    let ghost created = text::opt_text(*created_release_id);
    let ghost issued = source.issued();
    let mut injected = pairs;
    let mut i: usize = 0;
    while i < injected.len()
        invariant
            i <= injected.len(),
            before == pairs@,
            created == text::opt_text(*created_release_id),
            views == pairs::pair_views(before),
            issued == old(source).issued(),
            issued.subset_of(source.issued()),
            injected@.len() == before.len(),
            forall|k: int|
                0 <= k < i ==> legacy_pair(before[k]@, created, (#[trigger] injected@[k])@),
            forall|k: int|
                0 <= k < i && needs_stamp((#[trigger] before[k])@, created) ==> {
                    &&& !issued.contains(injected@[k]@.source.payload->0.chunk_id)
                    &&& source.issued().contains(injected@[k]@.source.payload->0.chunk_id)
                },
            forall|k: int, l: int|
                0 <= k < l < i && needs_stamp((#[trigger] before[k])@, created) && needs_stamp(
                    (#[trigger] before[l])@,
                    created,
                ) ==> injected@[k]@.source.payload->0.chunk_id
                    != injected@[l]@.source.payload->0.chunk_id,
            forall|k: int| i <= k < before.len() ==> #[trigger] injected@[k] == before[k],
            legacy_editable(views.take(i as int), created),
        decreases injected.len() - i,
    {
        assert(views[i as int] == injected@[i as int]@);
        if needs_new_chunk_id(&injected[i], created_release_id) {
            match stamp_pair(&mut injected[i], created_release_id, source.next_id()) {
                Ok(()) => {},
                Err(error) => {
                    return Err(error);
                },
            }
        }
        assert(views.take(i + 1) =~= views.take(i as int).push(views[i as int]));
        i += 1;
    }
    proof {
        let after = pairs::pair_views(injected@);
        assert(views.take(i as int) =~= views);
        assert forall|k: int| 0 <= k < before.len() implies legacy_pair(
            #[trigger] views[k],
            created,
            after[k],
        ) by {
            assert(legacy_pair(before[k]@, created, injected@[k]@));
        }
        assert forall|k: int| 0 <= k < before.len() && needs_stamp(
            #[trigger] views[k],
            created,
        ) implies !issued.contains(after[k].source.payload->0.chunk_id)
            && source.issued().contains(after[k].source.payload->0.chunk_id) by {
            assert(needs_stamp(before[k]@, created));
        }
        assert forall|k: int, l: int|
            0 <= k < l < before.len() && needs_stamp(#[trigger] views[k], created) && needs_stamp(
                #[trigger] views[l],
                created,
            ) implies after[k].source.payload->0.chunk_id != after[l].source.payload->0.chunk_id by {
            assert(needs_stamp(before[k]@, created) && needs_stamp(before[l]@, created));
        }
    }
    Ok(injected)
}

/// Symbol-set-mode injection: a random chunk id per build, and the created release id stamped
/// into the source map. The chunk id is made anew whenever the release id changes or is missing,
/// and no two of the new ids are the same. The first pair that has to be edited and cannot be stops
/// the injection.
pub fn inject_pairs_legacy(
    pairs: Vec<SourcePair>,
    created_release_id: Option<String>,
) -> (result: Result<Vec<SourcePair>, InjectError>)
    ensures
        match result {
            Ok(injected) => {
                &&& legacy_editable(pairs::pair_views(pairs@), text::opt_text(created_release_id))
                &&& legacy_pairs(
                    pairs::pair_views(pairs@),
                    text::opt_text(created_release_id),
                    Set::empty(),
                    pairs::pair_views(injected@),
                )
            },
            Err(error) => legacy_failure(
                pairs::pair_views(pairs@),
                text::opt_text(created_release_id),
                error@,
            ),
        },
{
    let mut source = IdSource::new();
    stamp_pairs(&mut source, pairs, &created_release_id)
}

} // verus!
