//! What holds of the repair of a build's manifests, from what was found to what is written back.

use vstd::prelude::*;
use vstd::utf8::*;

use crate::error::ErrorView;
use crate::json;
use crate::json::Json;
use crate::manifest;
use crate::manifest::RewrittenView;
use crate::manifest_laws;
use crate::paths::{PartView, PathView};
use crate::repair;
use crate::repair::{ManifestView, RepairedView, WalkedEntry};

verus! {

/// The manifests to be written back are exactly those that were repaired, all of them and in order.
pub proof fn law_every_repaired_manifest_is_written_back(
    outcomes: Seq<Result<Option<RepairedView>, ErrorView>>,
)
    ensures
        repair::to_write_back(outcomes) == outcomes.filter_map(
            |outcome: Result<Option<RepairedView>, ErrorView>|
                match outcome {
                    Ok(repaired) => repaired,
                    Err(_) => None,
                },
        ),
        forall|i: int|
            0 <= i < outcomes.len() && (#[trigger] outcomes[i]) is Ok && outcomes[i]->Ok_0 is Some
                ==> repair::to_write_back(outcomes).contains(outcomes[i]->Ok_0->0),
    decreases outcomes.len(),
{
    if outcomes.len() > 0 {
        let shorter = outcomes.drop_last();
        let earlier = repair::to_write_back(shorter);
        let all = repair::to_write_back(outcomes);
        law_every_repaired_manifest_is_written_back(shorter);
        assert forall|i: int|
            0 <= i < outcomes.len() && (#[trigger] outcomes[i]) is Ok
                && outcomes[i]->Ok_0 is Some implies all.contains(outcomes[i]->Ok_0->0) by {
            let repaired = outcomes[i]->Ok_0->0;
            if i < shorter.len() {
                assert(shorter[i] == outcomes[i]);
                let k = choose|k: int| 0 <= k < earlier.len() && earlier[k] == repaired;
                assert(all[k] == repaired);
            } else {
                assert(all[all.len() - 1] == repaired);
            }
        }
    }
}

/// Two lists of outcomes are written back one after the other.
pub proof fn law_writing_back_is_piecewise(
    front: Seq<Result<Option<RepairedView>, ErrorView>>,
    back: Seq<Result<Option<RepairedView>, ErrorView>>,
)
    ensures
        repair::to_write_back(front + back) == repair::to_write_back(front)
            + repair::to_write_back(back),
    decreases back.len(),
{
    let all = front + back;
    if back.len() == 0 {
        assert(all =~= front);
        assert(repair::to_write_back(front) + repair::to_write_back(back) =~= repair::to_write_back(
            front,
        ));
    } else {
        law_writing_back_is_piecewise(front, back.drop_last());
        assert(all.drop_last() =~= front + back.drop_last());
        assert(all.last() == back.last());
        assert(repair::to_write_back(all) =~= repair::to_write_back(front) + repair::to_write_back(
            back,
        ));
    }
}

/// Where the repair of a build does not fail, every manifest was dealt with, and none failed.
pub proof fn law_repair_without_failure_reaches_every_manifest(
    manifests: Seq<ManifestView>,
    files: Seq<RewrittenView>,
    outcomes: Seq<Result<Option<RepairedView>, ErrorView>>,
    i: int,
)
    requires
        repair::outcomes_of(manifests, files, outcomes),
        repair::final_failure(outcomes) is None,
        0 <= i < manifests.len(),
    ensures
        outcomes.len() == manifests.len(),
        outcomes[i] is Ok,
        repair::manifest_repair(manifests[i], files, outcomes[i]),
{
    assert(outcomes[i] is Ok) by {
        if i == outcomes.len() - 1 {
            assert(outcomes.last() == outcomes[i]);
        }
    }
}

/// A failure of the repair is that of a manifest, and every manifest before it was dealt with.
pub proof fn law_repair_fails_for_the_first_manifest_that_fails(
    manifests: Seq<ManifestView>,
    files: Seq<RewrittenView>,
    outcomes: Seq<Result<Option<RepairedView>, ErrorView>>,
    error: ErrorView,
)
    requires
        repair::outcomes_of(manifests, files, outcomes),
        repair::final_failure(outcomes) == Some(error),
    ensures
        0 < outcomes.len() <= manifests.len(),
        repair::manifest_repair(
            manifests[outcomes.len() - 1],
            files,
            Err::<Option<RepairedView>, ErrorView>(error),
        ),
        forall|i: int|
            0 <= i < outcomes.len() - 1 ==> (#[trigger] outcomes[i]) is Ok
                && repair::manifest_repair(manifests[i], files, outcomes[i]),
{
    assert(outcomes.last() == outcomes[outcomes.len() - 1]);
}

/// Every manifest with an entry for a rewritten file is written back, where the repair does not
/// fail, and tells how many of its hashes are new.
pub proof fn law_every_stale_manifest_is_written_back(
    manifests: Seq<ManifestView>,
    files: Seq<RewrittenView>,
    outcomes: Seq<Result<Option<RepairedView>, ErrorView>>,
    i: int,
    document: Json,
    table: Map<Seq<char>, Json>,
    k: int,
)
    requires
        repair::outcomes_of(manifests, files, outcomes),
        repair::final_failure(outcomes) is None,
        0 <= i < manifests.len(),
        manifests[i].bytes is Ok,
        manifests[i].root is Ok,
        json::json_parsed(manifests[i].bytes->Ok_0) == Ok::<Json, Seq<char>>(document),
        repair::hash_table_of(document) == Some(table),
        0 <= k < files.len(),
        manifest::file_outcome(table.dom(), manifests[i].root->Ok_0.parts, files[k]) matches Ok(
            Some(_),
        ),
    ensures
        exists|repaired: RepairedView|
            {
                &&& #[trigger] repair::to_write_back(outcomes).contains(repaired)
                &&& repaired.path == manifests[i].path
                &&& repaired.updated > 0
                &&& json::json_written(
                    repair::with_hash_table(
                        document,
                        manifest::updated_table(
                            table,
                            table.dom(),
                            manifests[i].root->Ok_0.parts,
                            files,
                        ),
                    ),
                ) == Ok::<Seq<u8>, Seq<char>>(repaired.bytes)
            },
{
    let root = manifests[i].root->Ok_0.parts;
    law_repair_without_failure_reaches_every_manifest(manifests, files, outcomes, i);
    lemma_file_with_entry_counts(table.dom(), root, files, k);
    law_every_repaired_manifest_is_written_back(outcomes);
    assert(repair::table_repair(manifests[i].path, document, table, root, files, outcomes[i]));
    let repaired = outcomes[i]->Ok_0->0;
    assert(repair::to_write_back(outcomes).contains(repaired));
}

proof fn lemma_file_with_entry_counts(
    keys: Set<Seq<char>>,
    root: Seq<PartView>,
    files: Seq<RewrittenView>,
    k: int,
)
    requires
        0 <= k < files.len(),
        manifest::file_outcome(keys, root, files[k]) matches Ok(Some(_)),
    ensures
        manifest::update_count(keys, root, files) > 0,
    decreases files.len(),
{
    if k < files.len() - 1 {
        assert(files.drop_last()[k] == files[k]);
        lemma_file_with_entry_counts(keys, root, files.drop_last(), k);
    }
}

/// Each manifest that is written back is one that was found, with the table brought up to date and
/// everything else as it was.
pub proof fn law_written_manifests_are_found_ones_brought_up_to_date(
    manifests: Seq<ManifestView>,
    files: Seq<RewrittenView>,
    outcomes: Seq<Result<Option<RepairedView>, ErrorView>>,
    repaired: RepairedView,
)
    requires
        repair::outcomes_of(manifests, files, outcomes),
        repair::to_write_back(outcomes).contains(repaired),
    ensures
        exists|i: int|
            {
                &&& 0 <= i < manifests.len()
                &&& repaired.path == (#[trigger] manifests[i]).path
                &&& repair::manifest_repair(manifests[i], files, Ok(Some(repaired)))
            },
{
    lemma_written_back_from(outcomes, repaired);
    let i = choose|i: int|
        0 <= i < outcomes.len() && #[trigger] outcomes[i] == Ok::<Option<RepairedView>, ErrorView>(
            Some(repaired),
        );
    assert(repair::manifest_repair(manifests[i], files, outcomes[i]));
}

proof fn lemma_written_back_from(
    outcomes: Seq<Result<Option<RepairedView>, ErrorView>>,
    repaired: RepairedView,
)
    requires
        repair::to_write_back(outcomes).contains(repaired),
    ensures
        exists|i: int|
            0 <= i < outcomes.len() && #[trigger] outcomes[i] == Ok::<
                Option<RepairedView>,
                ErrorView,
            >(Some(repaired)),
    decreases outcomes.len(),
{
    let all = repair::to_write_back(outcomes);
    if outcomes.len() > 0 {
        let shorter = outcomes.drop_last();
        let earlier = repair::to_write_back(shorter);
        let k = choose|k: int| 0 <= k < all.len() && all[k] == repaired;
        if k < earlier.len() {
            assert(earlier[k] == repaired);
            lemma_written_back_from(shorter, repaired);
            let i = choose|i: int|
                0 <= i < shorter.len() && #[trigger] shorter[i] == Ok::<
                    Option<RepairedView>,
                    ErrorView,
                >(Some(repaired));
            assert(outcomes[i] == shorter[i]);
        } else {
            assert(outcomes[outcomes.len() - 1] == outcomes.last());
        }
    }
}

/// A manifest is written back exactly where some rewritten file has an entry in it, where nothing
/// fails.
pub proof fn law_manifest_is_written_where_something_matched(
    path: PathView,
    document: Json,
    table: Map<Seq<char>, Json>,
    root: Seq<PartView>,
    files: Seq<RewrittenView>,
    result: Result<Option<RepairedView>, ErrorView>,
)
    requires
        repair::table_repair(path, document, table, root, files, result),
        result is Ok,
    ensures
        result->Ok_0 is None <==> forall|k: int|
            0 <= k < files.len() ==> !(manifest::file_outcome(
                table.dom(),
                root,
                #[trigger] files[k],
            ) matches Ok(Some(_))),
        result->Ok_0 is None ==> manifest::updated_table(table, table.dom(), root, files) == table,
        result->Ok_0 matches Some(repaired) ==> repaired.path == path && repaired.updated
            == files.filter(
            |file: RewrittenView|
                manifest::file_outcome(table.dom(), root, file) matches Ok(Some(_)),
        ).len(),
{
    manifest_laws::law_count_is_that_of_the_files_with_an_entry(table.dom(), root, files);
    if result->Ok_0 is None {
        manifest_laws::law_nothing_matched_nothing_changed(table, table.dom(), root, files);
        assert forall|k: int| 0 <= k < files.len() implies !(manifest::file_outcome(
            table.dom(),
            root,
            #[trigger] files[k],
        ) matches Ok(Some(_))) by {
            if manifest::file_outcome(table.dom(), root, files[k]) matches Ok(Some(_)) {
                lemma_file_with_entry_counts(table.dom(), root, files, k);
            }
        }
    } else {
        if forall|k: int|
            0 <= k < files.len() ==> !(manifest::file_outcome(
                table.dom(),
                root,
                #[trigger] files[k],
            ) matches Ok(Some(_))) {
            lemma_no_file_with_entry_no_count(table.dom(), root, files);
        }
    }
}

proof fn lemma_no_file_with_entry_no_count(
    keys: Set<Seq<char>>,
    root: Seq<PartView>,
    files: Seq<RewrittenView>,
)
    requires
        forall|k: int|
            0 <= k < files.len() ==> !(manifest::file_outcome(
                keys,
                root,
                #[trigger] files[k],
            ) matches Ok(Some(_))),
    ensures
        manifest::update_count(keys, root, files) == 0,
    decreases files.len(),
{
    if files.len() > 0 {
        let shorter = files.drop_last();
        assert forall|k: int| 0 <= k < shorter.len() implies !(manifest::file_outcome(
            keys,
            root,
            #[trigger] shorter[k],
        ) matches Ok(Some(_))) by {
            assert(shorter[k] == files[k]);
        }
        lemma_no_file_with_entry_no_count(keys, root, shorter);
        assert(files.last() == files[files.len() - 1]);
    }
}

/// A manifest that cannot be read, is no JSON, has no table of hashes, or whose directory cannot be
/// resolved fails in that order of precedence, and is named.
pub proof fn law_unusable_manifests_fail(
    manifest: ManifestView,
    files: Seq<RewrittenView>,
    result: Result<Option<RepairedView>, ErrorView>,
)
    requires
        repair::manifest_repair(manifest, files, result),
    ensures
        manifest.bytes matches Err(cause) ==> result == Err::<Option<RepairedView>, ErrorView>(
            ErrorView::ReadManifest { path: manifest.path.display, cause },
        ),
        manifest.bytes matches Ok(bytes) ==> (json::json_parsed(bytes) matches Err(cause) ==> result
            == Err::<Option<RepairedView>, ErrorView>(
            ErrorView::ParseManifest { path: manifest.path.display, cause },
        )),
        manifest.bytes matches Ok(bytes) ==> (json::json_parsed(bytes) matches Ok(document) ==> (!(
        document is Object && document->Object_0.contains_key("hashTable"@)
            && document->Object_0["hashTable"@] is Object) ==> result == Err::<
            Option<RepairedView>,
            ErrorView,
        >(ErrorView::NoHashTable { path: manifest.path.display }))),
        manifest.bytes matches Ok(bytes) ==> (json::json_parsed(bytes) matches Ok(document) ==> (
        document is Object && document->Object_0.contains_key("hashTable"@)
            && document->Object_0["hashTable"@] is Object ==> (manifest.root matches Err(cause)
            ==> result == Err::<Option<RepairedView>, ErrorView>(
            ErrorView::ResolveBuildDirectory { path: manifest.path.display, cause },
        )))),
{
}

/// Whether the walk came across a file named `ngsw.json` with this path.
pub open spec fn walked_over(entries: Seq<WalkedEntry>, path: PathView) -> bool {
    exists|i: int|
        0 <= i < entries.len() && (#[trigger] entries[i]).is_file && entries[i].file_name@
            == encode_utf8("ngsw.json"@) && entries[i].path@ == path
}

/// Every path that is found is that of a file named `ngsw.json` that the walk came across.
pub proof fn law_found_manifests_are_files_of_that_name(entries: Seq<WalkedEntry>, k: int)
    requires
        0 <= k < repair::manifest_paths(entries).len(),
    ensures
        walked_over(entries, repair::manifest_paths(entries)[k]),
    decreases entries.len(),
{
    let found = repair::manifest_paths(entries);
    let shorter = entries.drop_last();
    let earlier = repair::manifest_paths(shorter);
    if k < earlier.len() {
        law_found_manifests_are_files_of_that_name(shorter, k);
        assert(earlier[k] == found[k]);
        let i = choose|i: int|
            0 <= i < shorter.len() && (#[trigger] shorter[i]).is_file && shorter[i].file_name@
                == encode_utf8("ngsw.json"@) && shorter[i].path@ == found[k];
        assert(entries[i] == shorter[i]);
    } else {
        assert(entries[entries.len() - 1] == entries.last());
    }
}

/// What was found stays found, and first, as the walk goes on.
pub proof fn law_found_manifests_stay_found(front: Seq<WalkedEntry>, back: Seq<WalkedEntry>)
    ensures
        repair::manifest_paths(front).is_prefix_of(repair::manifest_paths(front + back)),
    decreases back.len(),
{
    let found = repair::manifest_paths(front);
    let all = front + back;
    if back.len() > 0 {
        law_found_manifests_stay_found(front, back.drop_last());
        assert(all.drop_last() =~= front + back.drop_last());
        let longer = repair::manifest_paths(all);
        let shorter = repair::manifest_paths(all.drop_last());
        assert(found =~= shorter.take(found.len() as int));
        assert(found =~= longer.take(found.len() as int));
    } else {
        assert(all =~= front);
        assert(found =~= found.take(found.len() as int));
    }
}

/// A file named `ngsw.json` that the walk comes across is found, wherever it stands in the walk.
pub proof fn law_no_manifest_is_passed_over(entries: Seq<WalkedEntry>, i: int)
    requires
        0 <= i < entries.len(),
        entries[i].is_file,
        entries[i].file_name@ == encode_utf8("ngsw.json"@),
    ensures
        exists|k: int|
            0 <= k < repair::manifest_paths(entries).len() && (
            #[trigger] repair::manifest_paths(entries)[k]).names() == entries[i].path@.names(),
{
    manifest_laws::law_manifests_are_found_once(entries);
    assert(repair::is_manifest(entries[i]));
    assert(repair::holds_path(repair::manifest_paths(entries), entries[i].path@));
}

} // verus!
