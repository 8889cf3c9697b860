//! Finding the Angular service-worker manifests of a build, and repairing them after injection.

use vstd::prelude::*;
use vstd::utf8::*;

use crate::error::{ErrorView, InjectError};
use crate::json;
use crate::json::Json;
use crate::manifest;
use crate::manifest_laws;
use crate::manifest::{RewrittenFile, RewrittenView};
use crate::paths;
use crate::paths::{FilePath, PartView, PathView};
use crate::repair_laws;

verus! {

/// A manifest that was found, or what went wrong in reading it or resolving its directory.
#[derive(Debug)]
pub struct ManifestFile {
    pub path: FilePath,
    pub bytes: Result<Vec<u8>, String>,
    /// The directory, with its links resolved.
    pub root: Result<FilePath, String>,
}

/// A manifest to be written back.
#[derive(Debug)]
pub struct RepairedManifest {
    pub path: FilePath,
    pub bytes: Vec<u8>,
    /// How many hashes were put into it.
    pub updated: usize,
}

/// The manifests to be written back, in order, and the failure that stopped the repair.
#[derive(Debug)]
pub struct ManifestRepairs {
    pub repaired: Vec<RepairedManifest>,
    pub failure: Option<InjectError>,
}

/// Something that the walk over a selected directory came across.
#[derive(Debug)]
pub struct WalkedEntry {
    pub path: FilePath,
    pub file_name: Vec<u8>,
    pub is_file: bool,
}

/// A manifest as the contracts see it.
#[verifier::ext_equal]
pub struct ManifestView {
    pub path: PathView,
    pub bytes: Result<Seq<u8>, Seq<char>>,
    pub root: Result<PathView, Seq<char>>,
}

/// A repaired manifest as the contracts see it.
#[verifier::ext_equal]
pub struct RepairedView {
    pub path: PathView,
    pub bytes: Seq<u8>,
    pub updated: nat,
}

impl View for ManifestFile {
    type V = ManifestView;

    open spec fn view(&self) -> ManifestView {
        ManifestView {
            path: self.path@,
            bytes: match self.bytes {
                Ok(bytes) => Ok(bytes@),
                Err(cause) => Err(cause@),
            },
            root: match self.root {
                Ok(root) => Ok(root@),
                Err(cause) => Err(cause@),
            },
        }
    }
}

impl View for RepairedManifest {
    type V = RepairedView;

    open spec fn view(&self) -> RepairedView {
        RepairedView { path: self.path@, bytes: self.bytes@, updated: self.updated as nat }
    }
}

/// The manifests of a list as the contracts see them.
pub open spec fn manifest_views(manifests: Seq<ManifestFile>) -> Seq<ManifestView> {
    manifests.map_values(|manifest: ManifestFile| manifest@)
}

/// The repaired manifests of a list as the contracts see them.
pub open spec fn repaired_views(repaired: Seq<RepairedManifest>) -> Seq<RepairedView> {
    repaired.map_values(|manifest: RepairedManifest| manifest@)
}

/// The table of hashes in a manifest, where it has one.
pub open spec fn hash_table_of(document: Json) -> Option<Map<Seq<char>, Json>> {
    match document {
        Json::Object(members) => if members.contains_key("hashTable"@) {
            match members["hashTable"@] {
                Json::Object(table) => Some(table),
                _ => None,
            }
        } else {
            None
        },
        _ => None,
    }
}

/// The manifest with another table of hashes, and unchanged elsewhere.
pub open spec fn with_hash_table(document: Json, table: Map<Seq<char>, Json>) -> Json {
    Json::Object(document->Object_0.insert("hashTable"@, Json::Object(table)))
}

/// Whether a manifest that is read from the bytes is this one: in every respect where no number in
/// it is kept as a double, otherwise in every other respect, where the bytes can be read.
pub open spec fn reads_back(bytes: Seq<u8>, document: Json) -> bool {
    &&& json::has_no_fractions(document) ==> json::json_parsed(bytes) == Ok::<Json, Seq<char>>(
        document,
    )
    &&& json::json_parsed(bytes) matches Ok(back) ==> json::same_but_fractions(document, back)
}

/// Whether this is what comes of a manifest with this table in this directory.
pub open spec fn table_repair(
    path: PathView,
    document: Json,
    table: Map<Seq<char>, Json>,
    root: Seq<PartView>,
    files: Seq<RewrittenView>,
    result: Result<Option<RepairedView>, ErrorView>,
) -> bool {
    let keys = table.dom();
    let new_table = manifest::updated_table(table, keys, root, files);
    let after = with_hash_table(document, new_table);
    let count = manifest::update_count(keys, root, files);
    let all_succeed = manifest::none_fails_before(keys, root, files, files.len() as int);
    &&& keys.finite()
    &&& new_table.dom() == keys
    &&& match result {
        Ok(None) => all_succeed && count == 0,
        Ok(Some(repaired)) => {
            &&& all_succeed
            &&& count > 0
            &&& repaired.path == path
            &&& repaired.updated == count
            &&& json::json_written(after) == Ok::<Seq<u8>, Seq<char>>(repaired.bytes)
            &&& reads_back(repaired.bytes, after)
        },
        Err(error) => {
            ||| exists|i: int|
                {
                    &&& 0 <= i < files.len()
                    &&& manifest::none_fails_before(keys, root, files, i)
                    &&& #[trigger] manifest::file_outcome(keys, root, files[i]) == Err::<
                        Option<(Seq<char>, Seq<u8>)>,
                        ErrorView,
                    >(error)
                }
            ||| {
                &&& all_succeed
                &&& count > 0
                &&& error is SerializeManifest
                &&& json::json_written(after) == Err::<Seq<u8>, Seq<char>>(
                    error->SerializeManifest_cause,
                )
            }
        },
    }
}

/// Whether this is what comes of a manifest.
pub open spec fn manifest_repair(
    manifest: ManifestView,
    files: Seq<RewrittenView>,
    result: Result<Option<RepairedView>, ErrorView>,
) -> bool {
    let path = manifest.path.display;
    match manifest.bytes {
        Err(cause) => result == Err::<Option<RepairedView>, ErrorView>(
            ErrorView::ReadManifest { path, cause },
        ),
        Ok(bytes) => match json::json_parsed(bytes) {
            Err(cause) => result == Err::<Option<RepairedView>, ErrorView>(
                ErrorView::ParseManifest { path, cause },
            ),
            Ok(document) => match hash_table_of(document) {
                None => result == Err::<Option<RepairedView>, ErrorView>(
                    ErrorView::NoHashTable { path },
                ),
                Some(table) => match manifest.root {
                    Err(cause) => result == Err::<Option<RepairedView>, ErrorView>(
                        ErrorView::ResolveBuildDirectory { path, cause },
                    ),
                    Ok(root) => table_repair(
                        manifest.path,
                        document,
                        table,
                        root.parts,
                        files,
                        result,
                    ),
                },
            },
        },
    }
}

/// The outcome of a repair as the contracts see it.
pub open spec fn outcome_view(
    result: Result<Option<RepairedManifest>, InjectError>,
) -> Result<Option<RepairedView>, ErrorView> {
    match result {
        Ok(Some(repaired)) => Ok(Some(repaired@)),
        Ok(None) => Ok(None),
        Err(error) => Err(error@),
    }
}

/// The manifests that the outcomes say to write back, in order.
pub open spec fn to_write_back(outcomes: Seq<Result<Option<RepairedView>, ErrorView>>) -> Seq<
    RepairedView,
>
    decreases outcomes.len(),
{
    if outcomes.len() == 0 {
        Seq::empty()
    } else {
        let earlier = to_write_back(outcomes.drop_last());
        match outcomes.last() {
            Ok(Some(repaired)) => earlier.push(repaired),
            _ => earlier,
        }
    }
}

/// Whether the outcomes are those of the manifests in order, up to the first failure.
pub open spec fn outcomes_of(
    manifests: Seq<ManifestView>,
    files: Seq<RewrittenView>,
    outcomes: Seq<Result<Option<RepairedView>, ErrorView>>,
) -> bool {
    &&& outcomes.len() <= manifests.len()
    &&& forall|i: int|
        0 <= i < outcomes.len() ==> manifest_repair(
            manifests[i],
            files,
            #[trigger] outcomes[i],
        )
    &&& forall|i: int| 0 <= i < outcomes.len() - 1 ==> (#[trigger] outcomes[i]) is Ok
    &&& outcomes.len() < manifests.len() ==> outcomes.len() > 0 && outcomes.last() is Err
}

/// The failure that the outcomes end in.
pub open spec fn final_failure(outcomes: Seq<Result<Option<RepairedView>, ErrorView>>) -> Option<
    ErrorView,
> {
    if outcomes.len() > 0 && outcomes.last() is Err {
        Some(outcomes.last()->Err_0)
    } else {
        None
    }
}

proof fn lemma_new_table_nests_alike(
    document: Json,
    table: Map<Seq<char>, Json>,
    root: Seq<PartView>,
    files: Seq<RewrittenView>,
    depth: nat,
)
    requires
        hash_table_of(document) == Some(table),
        json::nests_within(document, depth),
    ensures
        json::nests_within(
            with_hash_table(
                document,
                manifest::updated_table(table, table.dom(), root, files),
            ),
            depth,
        ),
{
    let new_table = manifest::updated_table(table, table.dom(), root, files);
    let members = document->Object_0;
    let inner = (depth - 1) as nat;
    assert(json::nests_within(members["hashTable"@], inner));
    let innermost = (inner - 1) as nat;
    assert forall|key: Seq<char>| new_table.contains_key(key) implies json::nests_within(
        #[trigger] new_table[key],
        innermost,
    ) by {
        manifest_laws::lemma_entry_is_old_or_text(table, table.dom(), root, files, key);
        if new_table[key] !is Text {
            assert(json::nests_within(table[key], innermost));
        }
    }
    assert(json::nests_within(Json::Object(new_table), inner));
    let new_members = members.insert("hashTable"@, Json::Object(new_table));
    assert forall|key: Seq<char>| new_members.contains_key(key) implies json::nests_within(
        #[trigger] new_members[key],
        inner,
    ) by {
        if key != "hashTable"@ {
            assert(json::nests_within(members[key], inner));
        }
    }
}

/// Puts the hashes of the rewritten files into a manifest. There is nothing to write back where
/// no entry stands for any of them.
pub fn repair_manifest(manifest: &ManifestFile, rewritten: &[RewrittenFile]) -> (result: Result<
    Option<RepairedManifest>,
    InjectError,
>)
    ensures
        manifest_repair(
            manifest@,
            manifest::rewritten_views(rewritten@),
            outcome_view(result),
        ),
{
    let bytes = match &manifest.bytes {
        Ok(bytes) => bytes,
        Err(cause) => {
            return Err(
                InjectError::ReadManifest { path: manifest.path.display.clone(), cause: cause.clone() },
            );
        },
    };
    let mut document = match json::parse(bytes.as_slice()) {
        Ok(document) => document,
        Err(cause) => {
            return Err(InjectError::ParseManifest { path: manifest.path.display.clone(), cause });
        },
    };
    let ghost before = json::content(document);
    let member = match json::member_mut(&mut document, "hashTable") {
        Some(member) => member,
        None => {
            return Err(InjectError::NoHashTable { path: manifest.path.display.clone() });
        },
    };
    let hash_table = match member.as_object_mut() {
        Some(hash_table) => hash_table,
        None => {
            return Err(InjectError::NoHashTable { path: manifest.path.display.clone() });
        },
    };
    let root = match &manifest.root {
        Ok(root) => root,
        Err(cause) => {
            return Err(
                InjectError::ResolveBuildDirectory {
                    path: manifest.path.display.clone(),
                    cause: cause.clone(),
                },
            );
        },
    };
    let ghost table = json::entries(*hash_table);
    let updated = match manifest::update_manifest_hash_table(
        hash_table,
        root.parts.as_slice(),
        rewritten,
    ) {
        Ok(updated) => updated,
        Err(error) => {
            proof {
                manifest_laws::law_repair_keeps_the_keys(
                    table,
                    root@.parts,
                    manifest::rewritten_views(rewritten@),
                );
            }
            return Err(error);
        },
    };
    if updated == 0 {
        return Ok(None);
    }
    proof {
        let new_table = manifest::updated_table(
            table,
            table.dom(),
            root@.parts,
            manifest::rewritten_views(rewritten@),
        );
        assert(json::content(document) == with_hash_table(before, new_table));
        lemma_new_table_nests_alike(
            before,
            table,
            root@.parts,
            manifest::rewritten_views(rewritten@),
            json::DEEPEST_NESTING as nat,
        );
    }
    match json::write(&document) {
        Ok(bytes) => Ok(Some(RepairedManifest { path: manifest.path.clone(), bytes, updated })),
        Err(cause) => Err(InjectError::SerializeManifest { cause }),
    }
}

/// Whether a manifest was dealt with: it succeeded, and is written back where there is something to
/// write.
pub open spec fn is_dealt_with(
    manifest: ManifestView,
    files: Seq<RewrittenView>,
    written: Seq<RepairedView>,
) -> bool {
    exists|outcome: Option<RepairedView>|
        {
            &&& #[trigger] manifest_repair(manifest, files, Ok(outcome))
            &&& outcome is Some ==> written.contains(outcome->0)
        }
}

/// Puts the hashes of the rewritten files into the manifests, one after the other, until one
/// fails. Nothing is done where nothing was rewritten.
///
/// Angular writes the manifest before injection runs. Without the repair its service worker
/// rejects every injected chunk, and clients stay on the previous version.
pub fn update_angular_service_worker_manifests(
    manifests: &[ManifestFile],
    rewritten: &[RewrittenFile],
) -> (repairs: ManifestRepairs)
    ensures
        rewritten@.len() == 0 ==> repairs.repaired@.len() == 0 && repairs.failure is None,
        rewritten@.len() > 0 ==> exists|outcomes: Seq<Result<Option<RepairedView>, ErrorView>>|
            {
                &&& #[trigger] outcomes_of(
                    manifest_views(manifests@),
                    manifest::rewritten_views(rewritten@),
                    outcomes,
                )
                &&& repaired_views(repairs.repaired@) == to_write_back(outcomes)
                &&& match repairs.failure {
                    Some(error) => final_failure(outcomes) == Some(error@),
                    None => final_failure(outcomes) is None,
                }
            },
        rewritten@.len() > 0 && repairs.failure is None ==> forall|i: int|
            0 <= i < manifests@.len() ==> is_dealt_with(
                (#[trigger] manifests@[i])@,
                manifest::rewritten_views(rewritten@),
                repaired_views(repairs.repaired@),
            ),
{
    let mut repaired: Vec<RepairedManifest> = Vec::new();
    if rewritten.len() == 0 {
        return ManifestRepairs { repaired, failure: None };
    }
    let ghost files = manifest::rewritten_views(rewritten@);
    let ghost views = manifest_views(manifests@);
    let ghost mut outcomes: Seq<Result<Option<RepairedView>, ErrorView>> = Seq::empty();
    let mut i: usize = 0;
    assert(repaired_views(repaired@) =~= to_write_back(outcomes));
    while i < manifests.len()
        invariant
            i <= manifests.len(),
            rewritten@.len() > 0,
            files == manifest::rewritten_views(rewritten@),
            views == manifest_views(manifests@),
            outcomes.len() == i,
            forall|k: int|
                0 <= k < i ==> manifest_repair(views[k], files, #[trigger] outcomes[k]),
            forall|k: int| 0 <= k < i ==> (#[trigger] outcomes[k]) is Ok,
            repaired_views(repaired@) == to_write_back(outcomes),
        decreases manifests.len() - i,
    {
        let result = repair_manifest(&manifests[i], rewritten);
        let ghost earlier = repaired@;
        let ghost extended = outcomes.push(outcome_view(result));
        proof {
            assert(views[i as int] == manifests@[i as int]@);
            assert(extended.drop_last() =~= outcomes);
            outcomes = extended;
        }
        match result {
            Ok(Some(manifest)) => {
                repaired.push(manifest);
                assert(repaired_views(repaired@) =~= repaired_views(earlier).push(manifest@));
            },
            Ok(None) => {},
            Err(error) => {
                assert(outcomes_of(views, files, outcomes));
                return ManifestRepairs { repaired, failure: Some(error) };
            },
        }
        i += 1;
    }
    proof {
        assert(outcomes_of(views, files, outcomes));
        repair_laws::law_every_repaired_manifest_is_written_back(outcomes);
        assert forall|k: int| 0 <= k < manifests@.len() implies is_dealt_with(
            (#[trigger] manifests@[k])@,
            files,
            repaired_views(repaired@),
        ) by {
            assert(views[k] == manifests@[k]@);
            assert(outcomes[k] is Ok);
            assert(manifest_repair(views[k], files, Ok(outcomes[k]->Ok_0)));
        }
    }
    ManifestRepairs { repaired, failure: None }
}

/// The name of an Angular service-worker manifest.
pub open spec fn manifest_name() -> Seq<u8> {
    encode_utf8("ngsw.json"@)
}

/// Whether the walk came across an Angular service-worker manifest.
pub open spec fn is_manifest(entry: WalkedEntry) -> bool {
    entry.is_file && entry.file_name@ == manifest_name()
}

/// Whether one of the paths is the same as this one.
pub open spec fn holds_path(paths: Seq<PathView>, path: PathView) -> bool {
    exists|i: int| 0 <= i < paths.len() && (#[trigger] paths[i]).names() == path.names()
}

/// The paths of the manifests among the entries, each once, in the order of the walk.
pub open spec fn manifest_paths(entries: Seq<WalkedEntry>) -> Seq<PathView>
    decreases entries.len(),
{
    if entries.len() == 0 {
        Seq::empty()
    } else {
        let earlier = manifest_paths(entries.drop_last());
        if is_manifest(entries.last()) && !holds_path(earlier, entries.last().path@) {
            earlier.push(entries.last().path@)
        } else {
            earlier
        }
    }
}

fn has_path(found: &Vec<FilePath>, path: &FilePath) -> (held: bool)
    ensures
        held == holds_path(paths::path_views(found@), path@),
{
    let ghost views = paths::path_views(found@);
    let mut i: usize = 0;
    while i < found.len()
        invariant
            i <= found.len(),
            views == paths::path_views(found@),
            forall|k: int| 0 <= k < i ==> (#[trigger] views[k]).names() != path@.names(),
        decreases found.len() - i,
    {
        assert(views[i as int] == found@[i as int]@);
        if found[i].is_same(path) {
            assert(views[i as int].names() == path@.names());
            return true;
        }
        i += 1;
    }
    false
}

/// The paths of the Angular service-worker manifests among what the walk over the selected
/// directories came across, each once.
pub fn find_angular_service_worker_manifests(entries: &[WalkedEntry]) -> (found: Vec<FilePath>)
    ensures
        paths::path_views(found@) == manifest_paths(entries@),
{
    let mut found: Vec<FilePath> = Vec::new();
    let mut i: usize = 0;
    assert(paths::path_views(found@) =~= manifest_paths(entries@.take(0)));
    while i < entries.len()
        invariant
            i <= entries.len(),
            paths::path_views(found@) == manifest_paths(entries@.take(i as int)),
        decreases entries.len() - i,
    {
        let entry = &entries[i];
        let ghost earlier = found@;
        proof {
            assert(entries@.take(i + 1).drop_last() =~= entries@.take(i as int));
            assert(entries@.take(i + 1).last() == *entry);
        }
        if entry.is_file && paths::same_bytes(entry.file_name.as_slice(), "ngsw.json".as_bytes())
            && !has_path(&found, &entry.path) {
            found.push(entry.path.clone());
            assert(paths::path_views(found@) =~= paths::path_views(earlier).push(entry.path@));
        }
        i += 1;
    }
    assert(entries@.take(i as int) =~= entries@);
    found
}

/// The directory to walk for a selected root.
#[derive(Debug, Clone, Copy, PartialEq, Eq, Structural)]
pub enum ScanRoot {
    /// The root itself.
    Itself,
    /// The directory that the root lies in.
    Parent,
}

/// The directory to walk for a selected root: the root itself where it is a directory, otherwise
/// its parent where it has one.
pub fn scan_root(is_dir: bool, has_parent: bool) -> (directory: ScanRoot)
    ensures
        directory == if !is_dir && has_parent {
            ScanRoot::Parent
        } else {
            ScanRoot::Itself
        },
        is_dir ==> directory == ScanRoot::Itself,
        !is_dir ==> (directory == ScanRoot::Parent <==> has_parent),
{
    if is_dir || !has_parent {
        ScanRoot::Itself
    } else {
        ScanRoot::Parent
    }
}

} // verus!
