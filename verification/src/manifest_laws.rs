//! What holds of the repair of manifests as a whole.

use vstd::prelude::*;

use crate::digest;
use crate::error::ErrorView;
use crate::json;
use crate::json::Json;
use crate::manifest;
use crate::manifest::RewrittenView;
use crate::order;
use crate::paths;
use crate::paths::{PartView, PathView};
use crate::repair;
use crate::repair::{ManifestView, RepairedView, WalkedEntry};
use crate::text;
use crate::text_laws;
use crate::urls;

verus! {

proof fn lemma_matching_keys(order: Seq<Seq<char>>, relative_url: Seq<char>, key: Seq<char>)
    ensures
        manifest::matching_keys(order, relative_url).contains(key) <==> order.contains(key)
            && manifest::key_matches(key, relative_url),
    decreases order.len(),
{
    let all = manifest::matching_keys(order, relative_url);
    if order.len() > 0 {
        let shorter = order.drop_last();
        let last = order.last();
        let earlier = manifest::matching_keys(shorter, relative_url);
        lemma_matching_keys(shorter, relative_url, key);
        assert(order[order.len() - 1] == last);
        if all.contains(key) {
            let i = choose|i: int| 0 <= i < all.len() && all[i] == key;
            if i < earlier.len() {
                assert(earlier[i] == key);
                let k = choose|k: int| 0 <= k < shorter.len() && shorter[k] == key;
                assert(order[k] == key);
            }
        }
        if order.contains(key) && manifest::key_matches(key, relative_url) {
            let k = choose|k: int| 0 <= k < order.len() && order[k] == key;
            if k < shorter.len() {
                assert(shorter[k] == key);
                let i = choose|i: int| 0 <= i < earlier.len() && earlier[i] == key;
                assert(all[i] == key);
            } else {
                assert(all[all.len() - 1] == key);
            }
        }
    }
}

/// A key that is the relative URL behind a slash wins over every key under a base path.
pub proof fn law_exact_key_wins(keys: Set<Seq<char>>, relative_url: Seq<char>)
    requires
        keys.contains("/"@ + relative_url),
    ensures
        manifest::manifest_key(keys, relative_url) == Ok::<Option<Seq<char>>, ErrorView>(
            Some("/"@ + relative_url),
        ),
{
}

/// Where no key is the relative URL itself and two keys match it, the repair is refused, and every
/// matching key is named.
pub proof fn law_ambiguous_base_paths_are_refused(
    keys: Set<Seq<char>>,
    relative_url: Seq<char>,
    one: Seq<char>,
    two: Seq<char>,
)
    requires
        keys.finite(),
        !keys.contains("/"@ + relative_url),
        keys.contains(one),
        keys.contains(two),
        one != two,
        manifest::key_matches(one, relative_url),
        manifest::key_matches(two, relative_url),
    ensures
        manifest::manifest_key(keys, relative_url) is Err,
        manifest::manifest_key(keys, relative_url)->Err_0 is AmbiguousManifestEntry,
        forall|key: Seq<char>|
            #[trigger] manifest::manifest_key(
                keys,
                relative_url,
            )->Err_0->AmbiguousManifestEntry_matches.contains(key) <==> keys.contains(key)
                && manifest::key_matches(key, relative_url),
{
    let list = order::key_order(keys);
    let matches = manifest::matching_keys(list, relative_url);
    order::lemma_key_order_is_listing(keys);
    assert forall|key: Seq<char>| #[trigger] matches.contains(key) <==> keys.contains(key)
        && manifest::key_matches(key, relative_url) by {
        lemma_matching_keys(list, relative_url, key);
        assert(list.contains(key) <==> keys.contains(key));
    }
    assert(matches.contains(one));
    assert(matches.contains(two));
    let i = choose|i: int| 0 <= i < matches.len() && matches[i] == one;
    let j = choose|j: int| 0 <= j < matches.len() && matches[j] == two;
    assert(i != j);
}

/// The key that is chosen for a relative URL is a key of the manifest that is the URL itself or
/// the only one to match it.
pub proof fn law_chosen_key_is_exact_or_the_only_match(
    keys: Set<Seq<char>>,
    relative_url: Seq<char>,
    chosen: Seq<char>,
)
    requires
        keys.finite(),
        manifest::manifest_key(keys, relative_url) == Ok::<Option<Seq<char>>, ErrorView>(
            Some(chosen),
        ),
    ensures
        keys.contains(chosen),
        chosen == "/"@ + relative_url || {
            &&& manifest::key_matches(chosen, relative_url)
            &&& forall|key: Seq<char>|
                keys.contains(key) && #[trigger] manifest::key_matches(key, relative_url)
                    ==> key == chosen
        },
{
    let list = order::key_order(keys);
    let matches = manifest::matching_keys(list, relative_url);
    order::lemma_key_order_is_listing(keys);
    if !keys.contains("/"@ + relative_url) {
        assert(matches[0] == chosen);
        assert(matches.contains(chosen));
        lemma_matching_keys(list, relative_url, chosen);
        assert forall|key: Seq<char>|
            keys.contains(key) && #[trigger] manifest::key_matches(
                key,
                relative_url,
            ) implies key == chosen by {
            assert(list.contains(key));
            lemma_matching_keys(list, relative_url, key);
            let i = choose|i: int| 0 <= i < matches.len() && matches[i] == key;
            assert(i == 0);
        }
    }
}

/// Where no key is the relative URL or matches it, the file asks nothing of the manifest.
pub proof fn law_unmatched_file_is_passed_over(keys: Set<Seq<char>>, relative_url: Seq<char>)
    requires
        keys.finite(),
        !keys.contains("/"@ + relative_url),
        forall|key: Seq<char>|
            #[trigger] keys.contains(key) ==> !manifest::key_matches(key, relative_url),
    ensures
        manifest::manifest_key(keys, relative_url) == Ok::<Option<Seq<char>>, ErrorView>(None),
{
    let list = order::key_order(keys);
    let matches = manifest::matching_keys(list, relative_url);
    order::lemma_key_order_is_listing(keys);
    if matches.len() > 0 {
        lemma_matching_keys(list, relative_url, matches[0]);
        assert(matches.contains(matches[0]));
        assert(list.contains(matches[0]));
        assert(keys.contains(matches[0]));
    }
}

/// Every manifest that the walk came across is found, and none twice, however its path is written.
pub proof fn law_manifests_are_found_once(entries: Seq<WalkedEntry>)
    ensures
        forall|i: int|
            0 <= i < entries.len() && repair::is_manifest(#[trigger] entries[i])
                ==> repair::holds_path(repair::manifest_paths(entries), entries[i].path@),
        forall|i: int, j: int|
            0 <= i < j < repair::manifest_paths(entries).len() ==> (
            #[trigger] repair::manifest_paths(entries)[i]).names() != (
            #[trigger] repair::manifest_paths(entries)[j]).names(),
    decreases entries.len(),
{
    if entries.len() > 0 {
        let shorter = entries.drop_last();
        let earlier = repair::manifest_paths(shorter);
        let found = repair::manifest_paths(entries);
        law_manifests_are_found_once(shorter);
        assert forall|i: int| 0 <= i < earlier.len() implies found[i] == #[trigger] earlier[i] by {}
        assert forall|i: int|
            0 <= i < entries.len() && repair::is_manifest(
                #[trigger] entries[i],
            ) implies repair::holds_path(found, entries[i].path@) by {
            if i < shorter.len() {
                assert(shorter[i] == entries[i]);
            }
            if repair::holds_path(earlier, entries[i].path@) {
                let k = choose|k: int|
                    0 <= k < earlier.len() && (#[trigger] earlier[k]).names()
                        == entries[i].path@.names();
                assert(found[k].names() == entries[i].path@.names());
            } else {
                assert(found[found.len() - 1].names() == entries[i].path@.names());
            }
        }
        assert forall|i: int, j: int| 0 <= i < j < found.len() implies (
        #[trigger] found[i]).names() != (#[trigger] found[j]).names() by {
            assert(found[i] == earlier[i]);
            if j < earlier.len() {
                assert(found[j] == earlier[j]);
            }
        }
    }
}

/// The repair neither adds entries to the table nor takes any out.
pub proof fn law_repair_keeps_the_keys(
    table: Map<Seq<char>, Json>,
    root: Seq<PartView>,
    files: Seq<RewrittenView>,
)
    requires
        table.dom().finite(),
    ensures
        manifest::updated_table(table, table.dom(), root, files).dom() == table.dom(),
    decreases files.len(),
{
    let keys = table.dom();
    if files.len() > 0 {
        law_repair_keeps_the_keys(table, root, files.drop_last());
        let file = files.last();
        match manifest::file_outcome(keys, root, file) {
            Ok(Some((key, bytes))) => {
                let url = manifest::relative_url(file.canonical->Ok_0.parts, root)->0;
                law_chosen_key_is_exact_or_the_only_match(keys, url, key);
            },
            _ => {},
        }
        assert(manifest::updated_table(table, keys, root, files).dom() =~= keys);
    }
}

/// Whether the entry under this key stands for the file.
pub open spec fn stands_for(
    keys: Set<Seq<char>>,
    root: Seq<PartView>,
    key: Seq<char>,
    file: RewrittenView,
) -> bool {
    match manifest::file_outcome(keys, root, file) {
        Ok(Some((found, _))) => found == key,
        _ => false,
    }
}

/// An entry that stands for no rewritten file keeps its value.
pub proof fn law_other_entries_keep_their_values(
    table: Map<Seq<char>, Json>,
    keys: Set<Seq<char>>,
    root: Seq<PartView>,
    files: Seq<RewrittenView>,
    key: Seq<char>,
)
    requires
        table.contains_key(key),
        forall|i: int|
            0 <= i < files.len() ==> !stands_for(keys, root, key, #[trigger] files[i]),
    ensures
        manifest::updated_table(table, keys, root, files).contains_key(key),
        manifest::updated_table(table, keys, root, files)[key] == table[key],
    decreases files.len(),
{
    if files.len() > 0 {
        let shorter = files.drop_last();
        assert forall|i: int| 0 <= i < shorter.len() implies !stands_for(
            keys,
            root,
            key,
            #[trigger] shorter[i],
        ) by {
            assert(shorter[i] == files[i]);
        }
        law_other_entries_keep_their_values(table, keys, root, shorter, key);
        assert(!stands_for(keys, root, key, files[files.len() - 1]));
    }
}

/// The entry that stands for a rewritten file holds the digest of its bytes, unless it stands for
/// a later file too.
pub proof fn law_hashes_follow_rewritten_files(
    table: Map<Seq<char>, Json>,
    keys: Set<Seq<char>>,
    root: Seq<PartView>,
    files: Seq<RewrittenView>,
    key: Seq<char>,
    i: int,
)
    requires
        0 <= i < files.len(),
        stands_for(keys, root, key, files[i]),
        forall|j: int|
            i < j < files.len() ==> !stands_for(keys, root, key, #[trigger] files[j]),
    ensures
        files[i].content is Ok,
        manifest::updated_table(table, keys, root, files).contains_key(key),
        manifest::updated_table(table, keys, root, files)[key] == Json::Text(
            digest::hex(digest::sha1(files[i].content->Ok_0)),
        ),
    decreases files.len(),
{
    let last = files.len() - 1;
    assert(files.last() == files[last]);
    if i < last {
        let shorter = files.drop_last();
        assert forall|j: int| i < j < shorter.len() implies !stands_for(
            keys,
            root,
            key,
            #[trigger] shorter[j],
        ) by {
            assert(shorter[j] == files[j]);
        }
        assert(shorter[i] == files[i]);
        law_hashes_follow_rewritten_files(table, keys, root, shorter, key, i);
        assert(!stands_for(keys, root, key, files[last]));
    }
}

pub(crate) proof fn lemma_entry_is_old_or_text(
    table: Map<Seq<char>, Json>,
    keys: Set<Seq<char>>,
    root: Seq<PartView>,
    files: Seq<RewrittenView>,
    key: Seq<char>,
)
    ensures
        manifest::updated_table(table, keys, root, files).contains_key(key) ==> {
            ||| manifest::updated_table(table, keys, root, files)[key] is Text
            ||| {
                &&& table.contains_key(key)
                &&& manifest::updated_table(table, keys, root, files)[key] == table[key]
            }
        },
    decreases files.len(),
{
    if files.len() > 0 {
        lemma_entry_is_old_or_text(table, keys, root, files.drop_last(), key);
    }
}

proof fn lemma_repair_adds_no_fraction(
    document: Json,
    table: Map<Seq<char>, Json>,
    root: Seq<PartView>,
    files: Seq<RewrittenView>,
)
    requires
        repair::hash_table_of(document) == Some(table),
        json::has_no_fractions(document),
    ensures
        json::has_no_fractions(
            repair::with_hash_table(
                document,
                manifest::updated_table(table, table.dom(), root, files),
            ),
        ),
{
    let new_table = manifest::updated_table(table, table.dom(), root, files);
    let members = document->Object_0;
    assert(json::has_no_fractions(members["hashTable"@]));
    assert forall|key: Seq<char>| new_table.contains_key(key) implies json::has_no_fractions(
        #[trigger] new_table[key],
    ) by {
        lemma_entry_is_old_or_text(table, table.dom(), root, files, key);
        if new_table[key] !is Text {
            assert(json::has_no_fractions(table[key]));
        }
    }
    assert(json::has_no_fractions(Json::Object(new_table)));
    let new_members = members.insert("hashTable"@, Json::Object(new_table));
    assert forall|key: Seq<char>| new_members.contains_key(key) implies json::has_no_fractions(
        #[trigger] new_members[key],
    ) by {
        if key != "hashTable"@ {
            assert(json::has_no_fractions(members[key]));
        }
    }
}

/// Whoever reads a repaired manifest finds the manifest as it was, but for its table of hashes,
/// which is the new one. Left out are manifests with a number that is kept as a double: such a
/// number may come back rounded.
pub proof fn law_readers_find_the_repaired_manifest(
    path: PathView,
    document: Json,
    table: Map<Seq<char>, Json>,
    root: Seq<PartView>,
    files: Seq<RewrittenView>,
    repaired: RepairedView,
)
    requires
        repair::hash_table_of(document) == Some(table),
        json::has_no_fractions(document),
        repair::table_repair(path, document, table, root, files, Ok(Some(repaired))),
    ensures
        json::json_parsed(repaired.bytes) == Ok::<Json, Seq<char>>(
            repair::with_hash_table(
                document,
                manifest::updated_table(table, table.dom(), root, files),
            ),
        ),
{
    lemma_repair_adds_no_fraction(document, table, root, files);
}

/// Whoever reads a repaired manifest finds every member beside the table of hashes as it was, but
/// for numbers that are kept as doubles.
pub proof fn law_readers_find_the_other_members(
    path: PathView,
    document: Json,
    table: Map<Seq<char>, Json>,
    root: Seq<PartView>,
    files: Seq<RewrittenView>,
    repaired: RepairedView,
    key: Seq<char>,
)
    requires
        repair::hash_table_of(document) == Some(table),
        repair::table_repair(path, document, table, root, files, Ok(Some(repaired))),
        json::json_parsed(repaired.bytes) is Ok,
        key != "hashTable"@,
    ensures
        json::json_parsed(repaired.bytes)->Ok_0 matches Json::Object(found) && {
            &&& found.contains_key(key) <==> document->Object_0.contains_key(key)
            &&& found.contains_key(key) ==> json::same_but_fractions(
                document->Object_0[key],
                found[key],
            )
        },
{
    let new_table = manifest::updated_table(table, table.dom(), root, files);
    let members = document->Object_0.insert("hashTable"@, Json::Object(new_table));
    let found = json::json_parsed(repaired.bytes)->Ok_0->Object_0;
    assert(found.dom().contains(key) <==> members.dom().contains(key));
    if members.contains_key(key) {
        assert(json::same_but_fractions(members[key], found[key]));
    }
}

/// Repairing a repaired manifest with the same files writes the same bytes again. Left out are
/// manifests with a number that is kept as a double.
pub proof fn law_repairing_twice_writes_the_same(
    path: PathView,
    document: Json,
    table: Map<Seq<char>, Json>,
    root: PathView,
    files: Seq<RewrittenView>,
    repaired: RepairedView,
    again: Result<Option<RepairedView>, ErrorView>,
)
    requires
        repair::hash_table_of(document) == Some(table),
        json::has_no_fractions(document),
        repair::table_repair(path, document, table, root.parts, files, Ok(Some(repaired))),
        repair::manifest_repair(
            ManifestView { path, bytes: Ok(repaired.bytes), root: Ok(root) },
            files,
            again,
        ),
    ensures
        again == Ok::<Option<RepairedView>, ErrorView>(Some(repaired)),
{
    law_readers_find_the_repaired_manifest(path, document, table, root.parts, files, repaired);
    law_second_repair_changes_nothing(table, table.dom(), root.parts, files);
    let once = manifest::updated_table(table, table.dom(), root.parts, files);
    let after = repair::with_hash_table(document, once);
    assert(repair::hash_table_of(after) == Some(once));
    assert(after->Object_0.insert("hashTable"@, Json::Object(once)) =~= after->Object_0);
    assert(repair::table_repair(path, after, once, root.parts, files, again));
    match again {
        Err(error) => {
            if exists|i: int|
                {
                    &&& 0 <= i < files.len()
                    &&& manifest::none_fails_before(once.dom(), root.parts, files, i)
                    &&& #[trigger] manifest::file_outcome(once.dom(), root.parts, files[i])
                        == Err::<Option<(Seq<char>, Seq<u8>)>, ErrorView>(error)
                } {
                let i = choose|i: int|
                    {
                        &&& 0 <= i < files.len()
                        &&& manifest::none_fails_before(once.dom(), root.parts, files, i)
                        &&& #[trigger] manifest::file_outcome(once.dom(), root.parts, files[i])
                            == Err::<Option<(Seq<char>, Seq<u8>)>, ErrorView>(error)
                    };
                assert(manifest::file_outcome(table.dom(), root.parts, files[i]) is Ok);
            }
        },
        Ok(_) => {},
    }
}

proof fn lemma_read_table(bytes: Seq<u8>, document: Json, table: Map<Seq<char>, Json>)
    requires
        repair::reads_back(bytes, repair::with_hash_table(document, table)),
        json::json_parsed(bytes) is Ok,
    ensures
        repair::hash_table_of(json::json_parsed(bytes)->Ok_0) matches Some(found) && found.dom()
            == table.dom() && forall|key: Seq<char>|
            table.contains_key(key) ==> json::same_but_fractions(
                #[trigger] table[key],
                found[key],
            ),
{
    let members = repair::with_hash_table(document, table)->Object_0;
    let back = json::json_parsed(bytes)->Ok_0;
    assert(back is Object);
    assert(members.dom().contains("hashTable"@));
    assert(json::same_but_fractions(members["hashTable"@], back->Object_0["hashTable"@]));
}

/// Whoever reads a repaired manifest finds the digest of a rewritten file's bytes in the entry that
/// stands for the file, unless it stands for a later file too.
pub proof fn law_readers_find_the_new_hashes(
    path: PathView,
    document: Json,
    table: Map<Seq<char>, Json>,
    root: Seq<PartView>,
    files: Seq<RewrittenView>,
    repaired: RepairedView,
    key: Seq<char>,
    i: int,
)
    requires
        repair::table_repair(path, document, table, root, files, Ok(Some(repaired))),
        json::json_parsed(repaired.bytes) is Ok,
        0 <= i < files.len(),
        stands_for(table.dom(), root, key, files[i]),
        forall|j: int|
            i < j < files.len() ==> !stands_for(table.dom(), root, key, #[trigger] files[j]),
    ensures
        files[i].content is Ok,
        repair::hash_table_of(json::json_parsed(repaired.bytes)->Ok_0) matches Some(found)
            && found.contains_key(key) && found[key] == Json::Text(
            digest::hex(digest::sha1(files[i].content->Ok_0)),
        ),
{
    law_hashes_follow_rewritten_files(table, table.dom(), root, files, key, i);
    let new_table = manifest::updated_table(table, table.dom(), root, files);
    lemma_read_table(repaired.bytes, document, new_table);
    let found = repair::hash_table_of(json::json_parsed(repaired.bytes)->Ok_0)->0;
    assert(found.dom().contains(key) <==> new_table.dom().contains(key));
    assert(json::same_but_fractions(new_table[key], found[key]));
}

/// Whoever reads a repaired manifest finds what an entry held before, where the entry stands for no
/// rewritten file, but for numbers that are kept as doubles.
pub proof fn law_readers_find_the_other_hashes(
    path: PathView,
    document: Json,
    table: Map<Seq<char>, Json>,
    root: Seq<PartView>,
    files: Seq<RewrittenView>,
    repaired: RepairedView,
    key: Seq<char>,
)
    requires
        repair::table_repair(path, document, table, root, files, Ok(Some(repaired))),
        json::json_parsed(repaired.bytes) is Ok,
        table.contains_key(key),
        forall|i: int|
            0 <= i < files.len() ==> !stands_for(table.dom(), root, key, #[trigger] files[i]),
    ensures
        repair::hash_table_of(json::json_parsed(repaired.bytes)->Ok_0) matches Some(found)
            && found.contains_key(key) && json::same_but_fractions(table[key], found[key]),
{
    law_other_entries_keep_their_values(table, table.dom(), root, files, key);
    let new_table = manifest::updated_table(table, table.dom(), root, files);
    lemma_read_table(repaired.bytes, document, new_table);
    let found = repair::hash_table_of(json::json_parsed(repaired.bytes)->Ok_0)->0;
    assert(found.dom().contains(key) <==> new_table.dom().contains(key));
    assert(json::same_but_fractions(new_table[key], found[key]));
}

/// Where no entry stands for any of the files, the table stays as it is.
pub proof fn law_nothing_matched_nothing_changed(
    table: Map<Seq<char>, Json>,
    keys: Set<Seq<char>>,
    root: Seq<PartView>,
    files: Seq<RewrittenView>,
)
    requires
        manifest::update_count(keys, root, files) == 0,
    ensures
        manifest::updated_table(table, keys, root, files) == table,
    decreases files.len(),
{
    if files.len() > 0 {
        law_nothing_matched_nothing_changed(table, keys, root, files.drop_last());
    }
}

proof fn lemma_last_file_decides(
    left: Map<Seq<char>, Json>,
    right: Map<Seq<char>, Json>,
    keys: Set<Seq<char>>,
    root: Seq<PartView>,
    files: Seq<RewrittenView>,
    key: Seq<char>,
)
    ensures
        ({
            let l = manifest::updated_table(left, keys, root, files);
            let r = manifest::updated_table(right, keys, root, files);
            ||| l.contains_key(key) && r.contains_key(key) && l[key] == r[key]
            ||| {
                &&& l.contains_key(key) == left.contains_key(key)
                &&& r.contains_key(key) == right.contains_key(key)
                &&& l.contains_key(key) ==> l[key] == left[key]
                &&& r.contains_key(key) ==> r[key] == right[key]
            }
        }),
    decreases files.len(),
{
    if files.len() > 0 {
        lemma_last_file_decides(left, right, keys, root, files.drop_last(), key);
    }
}

/// Repairing a table a second time with the same files changes nothing.
pub proof fn law_second_repair_changes_nothing(
    table: Map<Seq<char>, Json>,
    keys: Set<Seq<char>>,
    root: Seq<PartView>,
    files: Seq<RewrittenView>,
)
    ensures
        manifest::updated_table(
            manifest::updated_table(table, keys, root, files),
            keys,
            root,
            files,
        ) == manifest::updated_table(table, keys, root, files),
{
    let once = manifest::updated_table(table, keys, root, files);
    let twice = manifest::updated_table(once, keys, root, files);
    assert forall|key: Seq<char>|
        #![trigger once.contains_key(key)]
        #![trigger twice.contains_key(key)]
        twice.contains_key(key) == once.contains_key(key) && (once.contains_key(key) ==> twice[key]
            == once[key]) by {
        lemma_last_file_decides(once, table, keys, root, files, key);
    }
    assert(twice =~= once);
}

/// A key stands for a relative URL under some base path exactly where, decoded, it is the base path,
/// a slash and the whole URL.
pub proof fn law_keys_match_by_whole_segments(key: Seq<char>, relative_url: Seq<char>)
    ensures
        manifest::key_matches(key, relative_url) <==> urls::url_decoded(key) is Some && exists|
            base: Seq<char>,
        |
            urls::url_decoded(key)->0 == #[trigger] (base + ("/"@ + relative_url)),
{
    if urls::url_decoded(key) is Some {
        text_laws::law_suffixes_are_what_remains(urls::url_decoded(key)->0, "/"@ + relative_url);
    }
}

/// A key without a percent sign that is a base path, a slash and the relative URL stands for it.
pub proof fn law_plain_keys_under_a_base_path_match(base: Seq<char>, relative_url: Seq<char>)
    requires
        !(base + ("/"@ + relative_url)).contains('%'),
    ensures
        manifest::key_matches(base + ("/"@ + relative_url), relative_url),
{
    let key = base + ("/"@ + relative_url);
    text_laws::law_plain_urls_stand_for_themselves(key);
    law_keys_match_by_whole_segments(key, relative_url);
}

/// The matching keys are those of the manifest that match, all of them and in order.
pub proof fn law_matching_keys_are_all_that_match(
    order: Seq<Seq<char>>,
    relative_url: Seq<char>,
)
    ensures
        manifest::matching_keys(order, relative_url) == order.filter(
            |key: Seq<char>| manifest::key_matches(key, relative_url),
        ),
    decreases order.len(),
{
    reveal(Seq::filter);
    if order.len() > 0 {
        law_matching_keys_are_all_that_match(order.drop_last(), relative_url);
    }
}

/// Whether no text of these parts holds a separator.
pub open spec fn have_plain_texts(parts: Seq<PartView>) -> bool {
    forall|i: int|
        0 <= i < parts.len() ==> !(#[trigger] parts[i]).text.contains('/') && !parts[i].text.contains(
            '\\',
        )
}

/// Whether a path lies below a directory: it has the names of the directory first, and more.
pub open spec fn is_below(parts: Seq<PartView>, root: Seq<PartView>) -> bool {
    &&& root.len() < parts.len()
    &&& forall|i: int| 0 <= i < root.len() ==> (#[trigger] parts[i]).name == root[i].name
}

proof fn lemma_is_below(parts: Seq<PartView>, root: Seq<PartView>)
    ensures
        is_below(parts, root) ==> paths::names(root).is_prefix_of(paths::names(parts)),
        paths::names(root).is_prefix_of(paths::names(parts)) && root.len() < parts.len()
            ==> is_below(parts, root),
{
    let whole = paths::names(parts);
    let base = paths::names(root);
    if is_below(parts, root) {
        assert forall|i: int| 0 <= i < base.len() implies base[i] == whole.take(
            base.len() as int,
        )[i] by {
            assert(parts[i].name == root[i].name);
        }
        assert(base =~= whole.take(base.len() as int));
    }
    if base.is_prefix_of(whole) {
        assert forall|i: int| 0 <= i < root.len() implies (#[trigger] parts[i]).name
            == root[i].name by {
            assert(whole[i] == base[i]) by {
                assert(whole.take(base.len() as int)[i] == base[i]);
            }
        }
    }
}

proof fn lemma_plain_join_has_no_backslash(parts: Seq<Seq<char>>)
    requires
        forall|i: int| 0 <= i < parts.len() ==> !(#[trigger] parts[i]).contains('\\'),
    ensures
        !text::joined(parts, "/"@).contains('\\'),
    decreases parts.len(),
{
    reveal_strlit("/");
    let all = text::joined(parts, "/"@);
    if parts.len() > 0 {
        let last = parts.last();
        assert(last == parts[parts.len() - 1]);
        if parts.len() > 1 {
            let shorter = parts.drop_last();
            assert forall|i: int| 0 <= i < shorter.len() implies !(
            #[trigger] shorter[i]).contains('\\') by {
                assert(shorter[i] == parts[i]);
            }
            lemma_plain_join_has_no_backslash(shorter);
            let front = text::joined(shorter, "/"@);
            if all.contains('\\') {
                let k = choose|k: int| 0 <= k < all.len() && all[k] == '\\';
                if k < front.len() {
                    assert(front[k] == '\\');
                } else if k > front.len() {
                    assert(last[k - front.len() - 1] == '\\');
                } else {
                    assert(all[k] == "/"@[0]);
                }
            }
        }
    }
}

/// The relative URL of a file keeps every directory below the root: split at its slashes, it gives
/// back the texts of all parts below the root, and nothing else.
pub proof fn law_relative_url_keeps_every_directory(parts: Seq<PartView>, root: Seq<PartView>)
    requires
        is_below(parts, root),
        have_plain_texts(parts.skip(root.len() as int)),
    ensures
        manifest::relative_url(parts, root) matches Some(url) && text_laws::split(url, '/')
            == paths::part_texts(parts.skip(root.len() as int)),
{
    reveal_strlit("/");
    lemma_is_below(parts, root);
    let rest = parts.skip(root.len() as int);
    let texts = paths::part_texts(rest);
    assert forall|i: int| 0 <= i < texts.len() implies !(#[trigger] texts[i]).contains('/')
        && !texts[i].contains('\\') by {
        assert(texts[i] == rest[i].text);
    }
    assert("/"@ =~= seq!['/']);
    text_laws::law_splitting_undoes_joining(texts, '/');
    lemma_plain_join_has_no_backslash(texts);
    text_laws::law_replacing_touches_one_character(text::joined(texts, "/"@), '\\', '/');
}

/// Files at different places below the root have different relative URLs.
pub proof fn law_relative_urls_tell_files_apart(
    left: Seq<PartView>,
    right: Seq<PartView>,
    root: Seq<PartView>,
)
    requires
        is_below(left, root),
        is_below(right, root),
        have_plain_texts(left.skip(root.len() as int)),
        have_plain_texts(right.skip(root.len() as int)),
        manifest::relative_url(left, root) == manifest::relative_url(right, root),
    ensures
        paths::part_texts(left.skip(root.len() as int)) == paths::part_texts(
            right.skip(root.len() as int),
        ),
{
    law_relative_url_keeps_every_directory(left, root);
    law_relative_url_keeps_every_directory(right, root);
}

/// A file has a relative URL exactly where its names start with those of the root, and the URL never
/// holds a backslash.
pub proof fn law_only_files_below_the_root_have_a_url(parts: Seq<PartView>, root: Seq<PartView>)
    ensures
        manifest::relative_url(parts, root) is Some <==> root.len() <= parts.len() && forall|i: int|
            0 <= i < root.len() ==> (#[trigger] parts[i]).name == root[i].name,
        manifest::relative_url(parts, root) matches Some(url) ==> !url.contains('\\'),
{
    let whole = paths::names(parts);
    let base = paths::names(root);
    lemma_is_below(parts, root);
    if root.len() == parts.len() {
        if base.is_prefix_of(whole) {
            assert forall|i: int| 0 <= i < root.len() implies (#[trigger] parts[i]).name
                == root[i].name by {
                assert(whole.take(base.len() as int)[i] == base[i]);
                assert(whole[i] == parts[i].name);
            }
        }
        if forall|i: int| 0 <= i < root.len() ==> (#[trigger] parts[i]).name == root[i].name {
            assert forall|i: int| 0 <= i < base.len() implies base[i] == #[trigger] whole[i] by {
                assert(parts[i].name == root[i].name);
            }
            assert(base =~= whole.take(base.len() as int));
        }
    }
    if base.is_prefix_of(whole) {
        text_laws::law_replacing_touches_one_character(
            text::joined(paths::part_texts(parts.skip(root.len() as int)), "/"@),
            '\\',
            '/',
        );
    }
}

/// The key that is a slash and the whole way from the root to a rewritten file stands for the file,
/// where it is a key: its entry gets the digest of the file's bytes, and every other entry stays as
/// it is.
pub proof fn law_exact_entry_gets_the_digest(
    table: Map<Seq<char>, Json>,
    root: Seq<PartView>,
    file: RewrittenView,
    path: PathView,
    bytes: Seq<u8>,
    key: Seq<char>,
)
    requires
        file.canonical == Ok::<PathView, Seq<char>>(path),
        file.content == Ok::<Seq<u8>, Seq<char>>(bytes),
        is_below(path.parts, root),
        have_plain_texts(path.parts.skip(root.len() as int)),
        table.contains_key(key),
        key.len() > 0,
        key[0] == '/',
        text_laws::split(key.skip(1), '/') == paths::part_texts(
            path.parts.skip(root.len() as int),
        ),
    ensures
        manifest::file_outcome(table.dom(), root, file) == Ok::<
            Option<(Seq<char>, Seq<u8>)>,
            ErrorView,
        >(Some((key, bytes))),
        manifest::updated_table(table, table.dom(), root, seq![file]) == table.insert(
            key,
            Json::Text(digest::hex(digest::sha1(bytes))),
        ),
        manifest::update_count(table.dom(), root, seq![file]) == 1,
{
    reveal_strlit("/");
    reveal_with_fuel(manifest::updated_table, 2);
    reveal_with_fuel(manifest::update_count, 2);
    law_relative_url_keeps_every_directory(path.parts, root);
    let url = manifest::relative_url(path.parts, root)->0;
    text_laws::law_joining_undoes_splitting(url, '/');
    text_laws::law_joining_undoes_splitting(key.skip(1), '/');
    assert(key =~= "/"@ + url);
    law_exact_key_wins(table.dom(), url);
    assert(seq![file].drop_last() =~= Seq::empty());
}

/// Where the way to a file is no key itself but exactly one key stands for it under some base path,
/// the entry under that key gets the digest, and every other entry stays as it is.
pub proof fn law_only_match_gets_the_digest(
    table: Map<Seq<char>, Json>,
    root: Seq<PartView>,
    file: RewrittenView,
    path: PathView,
    bytes: Seq<u8>,
    url: Seq<char>,
    key: Seq<char>,
)
    requires
        table.dom().finite(),
        file.canonical == Ok::<PathView, Seq<char>>(path),
        file.content == Ok::<Seq<u8>, Seq<char>>(bytes),
        is_below(path.parts, root),
        have_plain_texts(path.parts.skip(root.len() as int)),
        text_laws::split(url, '/') == paths::part_texts(path.parts.skip(root.len() as int)),
        !table.contains_key("/"@ + url),
        table.contains_key(key),
        urls::url_decoded(key) matches Some(decoded) && exists|base: Seq<char>|
            decoded == #[trigger] (base + ("/"@ + url)),
        forall|other: Seq<char>|
            #[trigger] table.contains_key(other) && other != key ==> !manifest::key_matches(
                other,
                url,
            ),
    ensures
        manifest::file_outcome(table.dom(), root, file) == Ok::<
            Option<(Seq<char>, Seq<u8>)>,
            ErrorView,
        >(Some((key, bytes))),
        manifest::updated_table(table, table.dom(), root, seq![file]) == table.insert(
            key,
            Json::Text(digest::hex(digest::sha1(bytes))),
        ),
        manifest::update_count(table.dom(), root, seq![file]) == 1,
{
    reveal_with_fuel(manifest::updated_table, 2);
    reveal_with_fuel(manifest::update_count, 2);
    law_relative_url_keeps_every_directory(path.parts, root);
    let found = manifest::relative_url(path.parts, root)->0;
    text_laws::law_joining_undoes_splitting(found, '/');
    text_laws::law_joining_undoes_splitting(url, '/');
    assert(found == url);
    law_keys_match_by_whole_segments(key, url);
    let keys = table.dom();
    let list = order::key_order(keys);
    let matches = manifest::matching_keys(list, url);
    order::lemma_key_order_is_listing(keys);
    lemma_matching_keys(list, url, key);
    assert(list.contains(key));
    assert(matches.contains(key));
    assert forall|i: int| 0 <= i < matches.len() implies #[trigger] matches[i] == key by {
        lemma_matching_keys(list, url, matches[i]);
        assert(matches.contains(matches[i]));
        assert(list.contains(matches[i]));
        assert(table.contains_key(matches[i]));
    }
    lemma_matching_keys_are_distinct(list, keys, url);
    if matches.len() >= 2 {
        assert(matches[0] != matches[1]);
    }
    assert(seq![file].drop_last() =~= Seq::empty());
}

proof fn lemma_matching_keys_are_distinct(
    list: Seq<Seq<char>>,
    keys: Set<Seq<char>>,
    relative_url: Seq<char>,
)
    requires
        order::is_listing(list, keys),
    ensures
        forall|i: int, j: int|
            0 <= i < j < manifest::matching_keys(list, relative_url).len()
                ==> #[trigger] manifest::matching_keys(list, relative_url)[i]
                != #[trigger] manifest::matching_keys(list, relative_url)[j],
{
    order::lemma_listing_has_no_duplicates(list, keys);
    lemma_filtered_keys_are_distinct(list, relative_url);
}

proof fn lemma_filtered_keys_are_distinct(list: Seq<Seq<char>>, relative_url: Seq<char>)
    requires
        list.no_duplicates(),
    ensures
        manifest::matching_keys(list, relative_url).no_duplicates(),
    decreases list.len(),
{
    if list.len() > 0 {
        let shorter = list.drop_last();
        let earlier = manifest::matching_keys(shorter, relative_url);
        lemma_filtered_keys_are_distinct(shorter, relative_url);
        lemma_matching_keys(shorter, relative_url, list.last());
        if earlier.contains(list.last()) {
            let k = choose|k: int| 0 <= k < shorter.len() && shorter[k] == list.last();
            assert(list[k] == list[list.len() - 1]);
        }
    }
}

/// A file that does not lie below the root, or for which no key stands, changes nothing and is never
/// read.
pub proof fn law_other_files_change_nothing(
    table: Map<Seq<char>, Json>,
    root: Seq<PartView>,
    file: RewrittenView,
    path: PathView,
)
    requires
        table.dom().finite(),
        file.canonical == Ok::<PathView, Seq<char>>(path),
        manifest::relative_url(path.parts, root) matches Some(url) ==> !table.contains_key(
            "/"@ + url,
        ) && forall|key: Seq<char>|
            #[trigger] table.contains_key(key) ==> !manifest::key_matches(key, url),
    ensures
        manifest::file_outcome(table.dom(), root, file) == Ok::<
            Option<(Seq<char>, Seq<u8>)>,
            ErrorView,
        >(None),
        manifest::updated_table(table, table.dom(), root, seq![file]) == table,
        manifest::update_count(table.dom(), root, seq![file]) == 0,
{
    reveal_with_fuel(manifest::updated_table, 2);
    reveal_with_fuel(manifest::update_count, 2);
    assert(seq![file].drop_last() =~= Seq::empty());
    if let Some(url) = manifest::relative_url(path.parts, root) {
        assert forall|key: Seq<char>| #[trigger] table.dom().contains(key) implies
            !manifest::key_matches(key, url) by {
            assert(table.contains_key(key));
        }
        law_unmatched_file_is_passed_over(table.dom(), url);
    }
}

/// A rewritten file that cannot be resolved stops the repair, and so does one that an entry stands
/// for and that cannot be read. Each is named.
pub proof fn law_unusable_files_stop_the_repair(
    keys: Set<Seq<char>>,
    root: Seq<PartView>,
    file: RewrittenView,
)
    ensures
        file.canonical matches Err(cause) ==> manifest::file_outcome(keys, root, file) == Err::<
            Option<(Seq<char>, Seq<u8>)>,
            ErrorView,
        >(ErrorView::ResolveRewrittenFile { path: file.path, cause }),
        file.canonical is Ok && file.content is Err && manifest::relative_url(
            file.canonical->Ok_0.parts,
            root,
        ) is Some && keys.contains(
            "/"@ + manifest::relative_url(file.canonical->Ok_0.parts, root)->0,
        ) ==> manifest::file_outcome(keys, root, file) == Err::<
            Option<(Seq<char>, Seq<u8>)>,
            ErrorView,
        >(
            ErrorView::HashRewrittenFile {
                path: file.canonical->Ok_0.display,
                cause: file.content->Err_0,
            },
        ),
{
}

/// Updating a table with two lists of files is updating it with the one and then with the other, and
/// the counts add up.
pub proof fn law_files_are_taken_one_after_the_other(
    table: Map<Seq<char>, Json>,
    keys: Set<Seq<char>>,
    root: Seq<PartView>,
    front: Seq<RewrittenView>,
    back: Seq<RewrittenView>,
)
    ensures
        manifest::updated_table(table, keys, root, front + back) == manifest::updated_table(
            manifest::updated_table(table, keys, root, front),
            keys,
            root,
            back,
        ),
        manifest::update_count(keys, root, front + back) == manifest::update_count(
            keys,
            root,
            front,
        ) + manifest::update_count(keys, root, back),
    decreases back.len(),
{
    let all = front + back;
    if back.len() == 0 {
        assert(all =~= front);
    } else {
        law_files_are_taken_one_after_the_other(table, keys, root, front, back.drop_last());
        assert(all.drop_last() =~= front + back.drop_last());
        assert(all.last() == back.last());
    }
}

/// The count is that of the files for which an entry stands and that can be read.
pub proof fn law_count_is_that_of_the_files_with_an_entry(
    keys: Set<Seq<char>>,
    root: Seq<PartView>,
    files: Seq<RewrittenView>,
)
    ensures
        manifest::update_count(keys, root, files) == files.filter(
            |file: RewrittenView| manifest::file_outcome(keys, root, file) matches Ok(Some(_)),
        ).len(),
    decreases files.len(),
{
    reveal(Seq::filter);
    if files.len() > 0 {
        law_count_is_that_of_the_files_with_an_entry(keys, root, files.drop_last());
    }
}

/// The relative URL is the texts below the root with slashes between them, character by character,
/// but for backslashes, which count as slashes.
pub proof fn law_backslashes_count_as_slashes(parts: Seq<PartView>, root: Seq<PartView>, i: int)
    requires
        manifest::relative_url(parts, root) is Some,
        0 <= i < text::joined(paths::part_texts(parts.skip(root.len() as int)), "/"@).len(),
    ensures
        ({
            let raw = text::joined(paths::part_texts(parts.skip(root.len() as int)), "/"@);
            let url = manifest::relative_url(parts, root)->0;
            &&& url.len() == raw.len()
            &&& raw[i] == '\\' ==> url[i] == '/'
            &&& raw[i] != '\\' ==> url[i] == raw[i]
        }),
{
    text_laws::law_replacing_touches_one_character(
        text::joined(paths::part_texts(parts.skip(root.len() as int)), "/"@),
        '\\',
        '/',
    );
}

/// No file fails before a place exactly where each file before it succeeds.
pub proof fn law_none_fails_where_each_succeeds(
    keys: Set<Seq<char>>,
    root: Seq<PartView>,
    files: Seq<RewrittenView>,
    end: int,
)
    requires
        0 <= end <= files.len(),
    ensures
        manifest::none_fails_before(keys, root, files, end) <==> forall|k: int|
            0 <= k < end ==> !(manifest::file_outcome(keys, root, #[trigger] files[k]) is Err),
{
}

/// A file that fails fails its manifest: the manifest is not written back, and the failure is that
/// of the first file that fails.
pub proof fn law_failing_file_fails_the_manifest(
    path: PathView,
    document: Json,
    table: Map<Seq<char>, Json>,
    root: Seq<PartView>,
    files: Seq<RewrittenView>,
    result: Result<Option<RepairedView>, ErrorView>,
    k: int,
)
    requires
        repair::table_repair(path, document, table, root, files, result),
        0 <= k < files.len(),
        manifest::file_outcome(table.dom(), root, files[k]) is Err,
        forall|j: int|
            0 <= j < k ==> manifest::file_outcome(table.dom(), root, #[trigger] files[j]) is Ok,
    ensures
        result == Err::<Option<RepairedView>, ErrorView>(
            manifest::file_outcome(table.dom(), root, files[k])->Err_0,
        ),
{
    let keys = table.dom();
    assert(!manifest::none_fails_before(keys, root, files, files.len() as int));
    let error = result->Err_0;
    let i = choose|i: int|
        {
            &&& 0 <= i < files.len()
            &&& manifest::none_fails_before(keys, root, files, i)
            &&& #[trigger] manifest::file_outcome(keys, root, files[i]) == Err::<
                Option<(Seq<char>, Seq<u8>)>,
                ErrorView,
            >(error)
        };
    if k < i {
        assert(manifest::file_outcome(keys, root, files[k]) is Ok);
    }
    if i < k {
        assert(manifest::file_outcome(keys, root, files[i]) is Ok);
    }
}

/// A new table of hashes replaces the old one and nothing else of a manifest.
pub proof fn law_new_table_replaces_the_old_one_only(
    document: Json,
    table: Map<Seq<char>, Json>,
    key: Seq<char>,
)
    requires
        repair::hash_table_of(document) is Some,
    ensures
        repair::hash_table_of(repair::with_hash_table(document, table)) == Some(table),
        repair::with_hash_table(document, table) matches Json::Object(members) && {
            &&& members.dom() == document->Object_0.dom()
            &&& key != "hashTable"@ && members.contains_key(key) ==> members[key]
                == document->Object_0[key]
            &&& members["hashTable"@] == Json::Object(table)
        },
{
    let members = repair::with_hash_table(document, table)->Object_0;
    assert(members.dom() =~= document->Object_0.dom());
}

} // verus!
