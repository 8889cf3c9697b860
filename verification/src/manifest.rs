//! The table of hashes in an Angular service-worker manifest, kept in step with the chunks that
//! injection rewrote.

use vstd::prelude::*;

use crate::digest;
use crate::error::{ErrorView, InjectError};
use crate::json;
use crate::json::Json;
use crate::order;
use crate::paths;
use crate::paths::{FilePath, PartView, PathPart, PathView};
use crate::text;
use crate::urls;

verus! {

/// A file that injection rewrote, or what went wrong in resolving or reading it.
#[derive(Debug)]
pub struct RewrittenFile {
    /// The path as it is shown.
    pub path: String,
    /// The path with its links resolved.
    pub canonical: Result<FilePath, String>,
    pub content: Result<Vec<u8>, String>,
}

/// A rewritten file as the contracts see it.
#[verifier::ext_equal]
pub struct RewrittenView {
    pub path: Seq<char>,
    pub canonical: Result<PathView, Seq<char>>,
    pub content: Result<Seq<u8>, Seq<char>>,
}

impl View for RewrittenFile {
    type V = RewrittenView;

    open spec fn view(&self) -> RewrittenView {
        RewrittenView {
            path: self.path@,
            canonical: match self.canonical {
                Ok(canonical) => Ok(canonical@),
                Err(cause) => Err(cause@),
            },
            content: match self.content {
                Ok(bytes) => Ok(bytes@),
                Err(cause) => Err(cause@),
            },
        }
    }
}

/// The rewritten files of a list as the contracts see them.
pub open spec fn rewritten_views(files: Seq<RewrittenFile>) -> Seq<RewrittenView> {
    files.map_values(|file: RewrittenFile| file@)
}

/// The URL of a file relative to a directory, where the file lies under it.
pub open spec fn relative_url(parts: Seq<PartView>, root: Seq<PartView>) -> Option<Seq<char>> {
    if paths::names(root).is_prefix_of(paths::names(parts)) {
        Some(
            text::replaced(
                text::joined(paths::part_texts(parts.skip(root.len() as int)), "/"@),
                '\\',
                '/',
            ),
        )
    } else {
        None
    }
}

/// Whether a manifest key stands for a file with this relative URL under some base path.
pub open spec fn key_matches(key: Seq<char>, relative_url: Seq<char>) -> bool {
    match urls::url_decoded(key) {
        Some(decoded) => text::has_suffix(decoded, "/"@ + relative_url),
        None => false,
    }
}

/// The keys that stand for a file with this relative URL, in the order of the manifest.
pub open spec fn matching_keys(order: Seq<Seq<char>>, relative_url: Seq<char>) -> Seq<Seq<char>>
    decreases order.len(),
{
    if order.len() == 0 {
        Seq::empty()
    } else {
        let earlier = matching_keys(order.drop_last(), relative_url);
        if key_matches(order.last(), relative_url) {
            earlier.push(order.last())
        } else {
            earlier
        }
    }
}

/// The key of the entry for a file with this relative URL: the URL itself behind a slash where
/// there is such a key, otherwise the only key that matches under some base path.
pub open spec fn manifest_key(keys: Set<Seq<char>>, relative_url: Seq<char>) -> Result<
    Option<Seq<char>>,
    ErrorView,
> {
    let exact = "/"@ + relative_url;
    let matches = matching_keys(order::key_order(keys), relative_url);
    if keys.contains(exact) {
        Ok(Some(exact))
    } else if matches.len() == 0 {
        Ok(None)
    } else if matches.len() == 1 {
        Ok(Some(matches[0]))
    } else {
        Err(ErrorView::AmbiguousManifestEntry { relative_url, matches })
    }
}

/// What a rewritten file asks of a manifest: the entry to change and the bytes to hash for it,
/// nothing, or a failure.
pub open spec fn file_outcome(
    keys: Set<Seq<char>>,
    root: Seq<PartView>,
    file: RewrittenView,
) -> Result<Option<(Seq<char>, Seq<u8>)>, ErrorView> {
    match file.canonical {
        Err(cause) => Err(ErrorView::ResolveRewrittenFile { path: file.path, cause }),
        Ok(path) => match relative_url(path.parts, root) {
            None => Ok(None),
            Some(url) => match manifest_key(keys, url) {
                Err(error) => Err(error),
                Ok(None) => Ok(None),
                Ok(Some(key)) => match file.content {
                    Err(cause) => Err(ErrorView::HashRewrittenFile { path: path.display, cause }),
                    Ok(bytes) => Ok(Some((key, bytes))),
                },
            },
        },
    }
}

/// The table after the files, one after the other, put their hashes into it.
pub open spec fn updated_table(
    table: Map<Seq<char>, Json>,
    keys: Set<Seq<char>>,
    root: Seq<PartView>,
    files: Seq<RewrittenView>,
) -> Map<Seq<char>, Json>
    decreases files.len(),
{
    if files.len() == 0 {
        table
    } else {
        let earlier = updated_table(table, keys, root, files.drop_last());
        match file_outcome(keys, root, files.last()) {
            Ok(Some((key, bytes))) => earlier.insert(
                key,
                Json::Text(digest::hex(digest::sha1(bytes))),
            ),
            _ => earlier,
        }
    }
}

/// How many of the files put a hash into the table.
pub open spec fn update_count(
    keys: Set<Seq<char>>,
    root: Seq<PartView>,
    files: Seq<RewrittenView>,
) -> nat
    decreases files.len(),
{
    if files.len() == 0 {
        0
    } else {
        let earlier = update_count(keys, root, files.drop_last());
        match file_outcome(keys, root, files.last()) {
            Ok(Some(_)) => earlier + 1,
            _ => earlier,
        }
    }
}

/// Whether no file before this one fails.
pub open spec fn none_fails_before(
    keys: Set<Seq<char>>,
    root: Seq<PartView>,
    files: Seq<RewrittenView>,
    end: int,
) -> bool {
    forall|k: int| 0 <= k < end ==> file_outcome(keys, root, #[trigger] files[k]) is Ok
}

/// The URL of a file relative to a directory, where the file lies under it.
fn url_below(parts: &[PathPart], root: &[PathPart]) -> (url: Option<String>)
    ensures
        text::opt_text(url) == relative_url(
            paths::part_views(parts@),
            paths::part_views(root@),
        ),
{
    if !paths::lies_below(parts, root) {
        return None;
    }
    assert(paths::names(paths::part_views(root@)).len() <= paths::names(
        paths::part_views(parts@),
    ).len());
    let path = paths::join_from(parts, root.len(), "/");
    Some(text::replace_char(path.as_str(), '\\', '/'))
}

/// The key of the manifest entry for a file, from the keys of the manifest in order.
fn listed_key(
    hash_table: &serde_json::Map<String, serde_json::Value>,
    keys: &Vec<String>,
    relative_url: &str,
) -> (result: Result<Option<String>, InjectError>)
    requires
        order::is_listing(text::texts(keys@), json::entries(*hash_table).dom()),
    ensures
        match (result, manifest_key(json::entries(*hash_table).dom(), relative_url@)) {
            (Ok(key), Ok(expected)) => text::opt_text(key) == expected,
            (Err(error), Err(expected)) => error@ == expected,
            _ => false,
        },
        result matches Ok(Some(key)) ==> json::entries(*hash_table).contains_key(key@),
{
    let exact_key = "/".to_string().concat(relative_url);
    if json::has_key(hash_table, exact_key.as_str()) {
        return Ok(Some(exact_key));
    }
    let ghost order = text::texts(keys@);
    proof {
        order::lemma_key_order(order, json::entries(*hash_table).dom());
    }
    let mut matches: Vec<String> = Vec::new();
    let mut i: usize = 0;
    assert(text::texts(matches@) =~= matching_keys(order.take(0), relative_url@));
    while i < keys.len()
        invariant
            i <= keys.len(),
            order == text::texts(keys@),
            exact_key@ == "/"@ + relative_url@,
            text::texts(matches@) == matching_keys(order.take(i as int), relative_url@),
            forall|k: int| 0 <= k < matches@.len() ==> order.contains((#[trigger] matches@[k])@),
        decreases keys.len() - i,
    {
        let found = match urls::url_decode(keys[i].as_str()) {
            Some(decoded) => text::ends_with(decoded.as_str(), exact_key.as_str()),
            None => false,
        };
        let ghost earlier = matches@;
        if found {
            matches.push(keys[i].clone());
        }
        proof {
            assert(order.take(i + 1).drop_last() =~= order.take(i as int));
            assert(order.take(i + 1).last() == keys@[i as int]@);
            assert(order[i as int] == keys@[i as int]@);
            assert(found ==> text::texts(matches@) =~= text::texts(earlier).push(
                keys@[i as int]@,
            ));
        }
        i += 1;
    }
    assert(order.take(i as int) =~= order);
    if matches.len() == 0 {
        Ok(None)
    } else if matches.len() == 1 {
        assert(text::texts(matches@)[0] == matches@[0]@);
        Ok(Some(matches[0].clone()))
    } else {
        Err(
            InjectError::AmbiguousManifestEntry { relative_url: relative_url.to_string(), matches },
        )
    }
}

/// The key of the manifest entry for a file. A base path that prefixes every URL of the manifest
/// is not recorded in it, so a unique match of the end of a key serves too; an ambiguous match is
/// refused, not guessed.
pub fn manifest_key_for_relative_path(
    hash_table: &serde_json::Map<String, serde_json::Value>,
    relative_url: &str,
) -> (result: Result<Option<String>, InjectError>)
    ensures
        json::entries(*hash_table).dom().finite(),
        match (result, manifest_key(json::entries(*hash_table).dom(), relative_url@)) {
            (Ok(key), Ok(expected)) => text::opt_text(key) == expected,
            (Err(error), Err(expected)) => error@ == expected,
            _ => false,
        },
        result matches Ok(Some(key)) ==> json::entries(*hash_table).contains_key(key@),
{
    let keys = json::keys(hash_table);
    proof {
        order::lemma_listing_is_finite(text::texts(keys@), json::entries(*hash_table).dom());
    }
    listed_key(hash_table, &keys, relative_url)
}

/// Puts the hash of each rewritten file into the table entry that stands for it, and counts the
/// files for which there was one.
pub fn update_manifest_hash_table(
    hash_table: &mut serde_json::Map<String, serde_json::Value>,
    manifest_root: &[PathPart],
    rewritten: &[RewrittenFile],
) -> (result: Result<usize, InjectError>)
    ensures
        ({
            let table = json::entries(*old(hash_table));
            let root = paths::part_views(manifest_root@);
            let files = rewritten_views(rewritten@);
            match result {
                Ok(updated) => {
                    &&& none_fails_before(table.dom(), root, files, files.len() as int)
                    &&& forall|k: int|
                        0 <= k < files.len() ==> file_outcome(
                            table.dom(),
                            root,
                            #[trigger] files[k],
                        ) is Ok
                    &&& json::entries(*final(hash_table)) == updated_table(
                        table,
                        table.dom(),
                        root,
                        files,
                    )
                    &&& updated == update_count(table.dom(), root, files)
                },
                Err(error) => exists|i: int|
                    {
                        &&& 0 <= i < files.len()
                        &&& none_fails_before(table.dom(), root, files, i)
                        &&& #[trigger] file_outcome(table.dom(), root, files[i]) == Err::<
                            Option<(Seq<char>, Seq<u8>)>,
                            ErrorView,
                        >(error@)
                        &&& json::entries(*final(hash_table)) == updated_table(
                            table,
                            table.dom(),
                            root,
                            files.take(i),
                        )
                    },
            }
        }),
        json::entries(*final(hash_table)).dom() == json::entries(*old(hash_table)).dom(),
        json::entries(*old(hash_table)).dom().finite(),
{
    let ghost table = json::entries(*hash_table);
    let ghost keys = table.dom();
    let ghost root = paths::part_views(manifest_root@);
    let ghost files = rewritten_views(rewritten@);
    // The repair adds no key and takes none out, so one listing serves every file.
    let listing = json::keys(hash_table);
    proof {
        order::lemma_listing_is_finite(text::texts(listing@), keys);
    }
    let mut updated: usize = 0;
    let mut i: usize = 0;
    assert(files.take(0) =~= Seq::<RewrittenView>::empty());
    while i < rewritten.len()
        invariant
            i <= rewritten.len(),
            updated <= i,
            table == json::entries(*old(hash_table)),
            keys == table.dom(),
            keys.finite(),
            order::is_listing(text::texts(listing@), keys),
            root == paths::part_views(manifest_root@),
            files == rewritten_views(rewritten@),
            none_fails_before(keys, root, files, i as int),
            json::entries(*hash_table).dom() == keys,
            json::entries(*hash_table) == updated_table(table, keys, root, files.take(i as int)),
            updated == update_count(keys, root, files.take(i as int)),
        decreases rewritten.len() - i,
    {
        let file = &rewritten[i];
        proof {
            assert(files[i as int] == file@);
            assert(files.take(i + 1).drop_last() =~= files.take(i as int));
            assert(files.take(i + 1).last() == file@);
        }
        let canonical = match &file.canonical {
            Ok(canonical) => canonical,
            Err(cause) => {
                return Err(
                    InjectError::ResolveRewrittenFile {
                        path: file.path.clone(),
                        cause: cause.clone(),
                    },
                );
            },
        };
        match url_below(canonical.parts.as_slice(), manifest_root) {
            None => {},
            Some(url) => {
                match listed_key(hash_table, &listing, url.as_str()) {
                    Err(error) => {
                        return Err(error);
                    },
                    Ok(None) => {},
                    Ok(Some(key)) => {
                        let digest = match &file.content {
                            Ok(bytes) => digest::sha1_hex(bytes.as_slice()),
                            Err(cause) => {
                                return Err(
                                    InjectError::HashRewrittenFile {
                                        path: canonical.display.clone(),
                                        cause: cause.clone(),
                                    },
                                );
                            },
                        };
                        json::insert(hash_table, key, json::string_value(digest));
                        assert(json::entries(*hash_table).dom() =~= keys);
                        updated += 1;
                    },
                }
            },
        }
        i += 1;
    }
    assert(files.take(i as int) =~= files);
    Ok(updated)
}

} // verus!
