use sourcemap_inject::args::{FileSelectionArgs, InjectArgs, ReleaseArgs, ReleaseMode};
use sourcemap_inject::error::InjectError;
use sourcemap_inject::ids::{is_malformed_debug_id, stable_chunk_id, IdSource};
use sourcemap_inject::inject::{
    adopted_debug_id, ignored_debug_id, ignored_debug_ids, inject_pairs, inject_pairs_legacy,
    stamp_pair, stamp_pairs,
};
use sourcemap_inject::pairs::{
    MinifiedSourceFile, Payload, SourceFile, SourceMapFile, SourcePair,
};
use sourcemap_inject::paths::{FilePath, PathPart};
use sourcemap_inject::rewritten::{
    rewritten_source_paths, source_content_hashes, warn_about_rewritten_files,
};

/// A namespace to derive chunk ids within.
const NAMESPACE: u128 = 0x5d0c6b1e_7c1f_4b0e_9a53_2f6a1c94e7d8;

const SOURCE: &str = "console.log(1);\n//# sourceMappingURL=app.js.map\n";

fn path(text: &str) -> FilePath {
    FilePath {
        display: text.to_string(),
        parts: parts(text),
    }
}

fn parts(text: &str) -> Vec<PathPart> {
    std::path::Path::new(text)
        .components()
        .map(|component| component.as_os_str().to_string_lossy().into_owned())
        .map(|name| PathPart {
            name: name.as_bytes().to_vec(),
            text: name,
        })
        .collect()
}

fn shown(paths: &[FilePath]) -> Vec<&str> {
    paths.iter().map(|path| path.display.as_str()).collect()
}

fn file(name: &str, content: &str) -> SourceFile {
    SourceFile {
        path: path(name),
        content: content.to_string(),
    }
}

fn pair(path: &str, content: &str, map: &str) -> SourcePair {
    SourcePair {
        source: MinifiedSourceFile {
            inner: file(path, content),
            payload: None,
        },
        sourcemap: SourceMapFile {
            inner: file(&format!("{path}.map"), map),
            release_id: None,
        },
        debug_id: None,
        edit_failure: None,
    }
}

fn with_payload(mut pair: SourcePair, chunk_id: &str, release_id: Option<&str>) -> SourcePair {
    pair.source.payload = Some(Payload {
        chunk_id: chunk_id.to_string(),
        release_id: release_id.map(String::from),
    });
    pair
}

fn chunk_id_for(sourcemap: &str) -> String {
    let pairs = vec![pair("app.js", SOURCE, sourcemap)];
    inject_pairs(NAMESPACE, pairs, None)
        .expect("failed to inject pairs")
        .first()
        .and_then(SourcePair::get_chunk_id)
        .expect("injected pair carries a chunk id")
}

#[test]
fn rewritten_paths_flag_injection_and_stay_quiet_on_reruns() {
    let pairs = vec![pair(
        "app.js",
        SOURCE,
        r#"{"version":3,"sources":["app.ts"],"sourcesContent":["console.log(1)\n"],"mappings":"AAAA","names":[]}"#,
    )];

    let before = source_content_hashes(&pairs);
    let injected = inject_pairs(NAMESPACE, pairs, None).expect("failed to inject pairs");

    // First injection appends a chunk id, so the chunk is reported as rewritten.
    assert_eq!(rewritten_source_paths(&injected, &before).len(), 1);

    // A second pass over the already injected build changes nothing, so it stays quiet.
    let before_rerun = source_content_hashes(&injected);
    let reinjected = inject_pairs(NAMESPACE, injected, None).expect("failed to re-inject pairs");
    assert!(rewritten_source_paths(&reinjected, &before_rerun).is_empty());
}

#[test]
fn map_only_changes_keep_the_chunk_id() {
    // Bundlers embed the original file in `sourcesContent`, so editing a comment rewrites the map
    // while the minified code stays byte-identical.
    let one = chunk_id_for(
        r#"{"version":3,"sources":["app.ts"],"sourcesContent":["// one\nconsole.log(1)\n"],"mappings":"AAAA","names":[]}"#,
    );
    let two = chunk_id_for(
        r#"{"version":3,"sources":["app.ts"],"sourcesContent":["// two\nconsole.log(1)\n"],"mappings":"AAAA","names":[]}"#,
    );

    assert_eq!(one, two);

    // So does a chunk that has an id already.
    let injected = |map: &str| with_payload(pair("app.js", SOURCE, map), "chunk-1", None);
    let kept = inject_pairs(
        NAMESPACE,
        vec![injected("one"), injected("two")],
        Some("release-1"),
    )
    .unwrap();
    assert_eq!(kept[0].get_chunk_id(), kept[1].get_chunk_id());
}

#[test]
fn stable_chunk_id_tracks_the_minified_source() {
    let id = stable_chunk_id(NAMESPACE, "code();");

    assert_eq!(id, stable_chunk_id(NAMESPACE, "code();"));
    assert_ne!(id, stable_chunk_id(NAMESPACE, "other();"));
}

#[test]
fn stable_chunk_id_is_a_version_five_uuid() {
    // The namespace of domain names, and a name whose id is well known.
    assert_eq!(
        stable_chunk_id(0x6ba7b810_9dad_11d1_80b4_00c04fd430c8, "example.org"),
        "aad03681-8b63-5304-89e0-8ca8f49461b5"
    );
    assert_ne!(stable_chunk_id(1, "code();"), stable_chunk_id(2, "code();"));
    assert_eq!(stable_chunk_id(NAMESPACE, "code();"), "094285d4-c92f-55de-aec5-d9df532535db");
    assert_eq!(chunk_id_for("{}"), "8c3a2d52-0e6b-549b-af49-8bf970586c54");
}

#[test]
fn event_mode_puts_the_release_into_every_chunk() {
    let pairs = vec![pair("a.js", "a", "{}"), pair("b.js", "b", "{}")];
    let injected = inject_pairs(NAMESPACE, pairs, Some("release-1")).unwrap();
    assert_eq!(injected.len(), 2);
    for (pair, content) in injected.iter().zip(["a", "b"]) {
        assert_eq!(pair.get_chunk_id(), Some(stable_chunk_id(NAMESPACE, content)));
        assert_eq!(pair.get_injected_release_id().as_deref(), Some("release-1"));
        assert_eq!(pair.source.inner.content, content);
        assert_eq!(pair.get_release_id(), None);
    }
}

#[test]
fn event_mode_refreshes_a_stale_release_and_keeps_the_chunk_id() {
    let stale = with_payload(pair("a.js", "a", "{}"), "chunk-1", Some("release-1"));
    let refreshed = inject_pairs(NAMESPACE, vec![stale], Some("release-2")).unwrap();
    assert_eq!(refreshed[0].get_chunk_id().as_deref(), Some("chunk-1"));
    assert_eq!(
        refreshed[0].get_injected_release_id().as_deref(),
        Some("release-2")
    );

    // An unresolved release is no evidence that the carried id is stale.
    let kept = inject_pairs(NAMESPACE, refreshed, None).unwrap();
    assert_eq!(kept[0].get_chunk_id().as_deref(), Some("chunk-1"));
    assert_eq!(
        kept[0].get_injected_release_id().as_deref(),
        Some("release-2")
    );
}

#[test]
fn uuid_debug_ids_are_adopted_as_they_are_spelled() {
    for id in [
        "67e55044-10b1-426f-9247-bb680e5fe0c8",
        "67E5504410B1426F9247BB680E5FE0C8",
        "{67e55044-10b1-426f-9247-bb680e5fe0c8}",
        "URN:uuid:67e55044-10b1-426f-9247-bb680e5fe0c8",
    ] {
        assert!(!is_malformed_debug_id(id));
        let mut adopting = pair("a.js", "a", "{}");
        adopting.debug_id = Some(id.to_string());
        assert_eq!(adopted_debug_id(&adopting).as_deref(), Some(id));
        let injected = inject_pairs(NAMESPACE, vec![adopting], None).unwrap();
        assert_eq!(injected[0].get_chunk_id().as_deref(), Some(id));
    }
}

#[test]
fn malformed_debug_ids_fall_back_to_the_content() {
    for id in [
        "",
        "not-a-uuid",
        "67e55044-10b1-426f-9247-bb680e5fe0c",
        "67e55044-10b1-426f-9247-bb680e5fe0cg",
        "67e5504410-b1-426f-9247-bb680e5fe0c8",
        "(67e55044-10b1-426f-9247-bb680e5fe0c8)",
        "urn:guid:67e55044-10b1-426f-9247-bb680e5fe0c8",
    ] {
        assert!(is_malformed_debug_id(id));
        let mut refusing = pair("a.js", "a", "{}");
        refusing.debug_id = Some(id.to_string());
        assert_eq!(adopted_debug_id(&refusing), None);
        let injected = inject_pairs(NAMESPACE, vec![refusing], None).unwrap();
        assert_eq!(injected[0].get_chunk_id(), Some(stable_chunk_id(NAMESPACE, "a")));
    }
    assert_eq!(adopted_debug_id(&pair("a.js", "a", "{}")), None);
}

#[test]
fn symbol_set_mode_stamps_maps_and_makes_fresh_ids() {
    let pairs = vec![
        pair("a.js", "a", "{}"),
        with_payload(pair("b.js", "b", "{}"), "chunk-1", Some("release-0")),
    ];
    let stamped = inject_pairs_legacy(pairs, Some("release-1".to_string())).unwrap();
    for pair in &stamped {
        assert_eq!(pair.get_release_id().as_deref(), Some("release-1"));
        assert_eq!(pair.get_injected_release_id(), None);
        let id = pair.get_chunk_id().expect("a chunk id");
        assert!(!is_malformed_debug_id(&id));
        assert_eq!(id.len(), 36);
        assert_eq!(id.as_bytes()[14], b'7');
    }
    assert_ne!(stamped[0].get_chunk_id(), stamped[1].get_chunk_id());
}

#[test]
fn symbol_set_mode_leaves_stamped_pairs_alone() {
    let stamped = inject_pairs_legacy(
        vec![pair("a.js", "a", "{}")],
        Some("release-1".to_string()),
    )
    .unwrap();
    let id = stamped[0].get_chunk_id();
    let hashes = source_content_hashes(&stamped);

    let again = inject_pairs_legacy(stamped, Some("release-1".to_string())).unwrap();
    assert_eq!(again[0].get_chunk_id(), id);
    assert!(rewritten_source_paths(&again, &hashes).is_empty());

    // Another release, or none, makes a new id.
    let moved = inject_pairs_legacy(again, None).unwrap();
    assert_ne!(moved[0].get_chunk_id(), id);
    assert_eq!(moved[0].get_release_id(), None);

    // A missing release makes a new id in every run.
    let id = moved[0].get_chunk_id();
    assert!(id.is_some());
    let renewed = inject_pairs_legacy(moved, None).unwrap();
    assert!(renewed[0].get_chunk_id().is_some());
    assert_ne!(renewed[0].get_chunk_id(), id);
    assert_eq!(renewed[0].get_release_id(), None);
}

#[test]
fn stamping_takes_the_given_id() {
    let mut fresh = pair("a.js", "a", "{}");
    stamp_pair(&mut fresh, &Some("release-1".to_string()), "id-1".to_string()).unwrap();
    assert_eq!(fresh.get_chunk_id().as_deref(), Some("id-1"));
    assert_eq!(fresh.get_release_id().as_deref(), Some("release-1"));
    stamp_pair(&mut fresh, &Some("release-1".to_string()), "id-2".to_string()).unwrap();
    assert_eq!(fresh.get_chunk_id().as_deref(), Some("id-1"));
    stamp_pair(&mut fresh, &Some("release-2".to_string()), "id-3".to_string()).unwrap();
    assert_eq!(fresh.get_chunk_id().as_deref(), Some("id-3"));
}

#[test]
fn chunk_ids_are_added_once_and_removed_by_name() {
    let mut chunk = pair("a.js", "a", "{}");
    chunk.add_chunk_id("one".to_string(), Some("r")).unwrap();
    let error = chunk.add_chunk_id("two".to_string(), None).unwrap_err();
    assert!(matches!(error, InjectError::ChunkIdAlreadySet));
    assert_eq!(error.message(), "Chunk ID already set");
    assert_eq!(chunk.get_chunk_id().as_deref(), Some("one"));

    let error = chunk.remove_chunk_id("two".to_string()).unwrap_err();
    assert!(matches!(error, InjectError::ChunkIdMismatch));
    assert_eq!(error.report(), "Chunk ID mismatch");
    assert!(chunk
        .update_chunk_id("two".to_string(), "three".to_string())
        .is_err());
    assert_eq!(chunk.get_injected_release_id().as_deref(), Some("r"));

    chunk
        .update_chunk_id("one".to_string(), "three".to_string())
        .unwrap();
    assert_eq!(chunk.get_chunk_id().as_deref(), Some("three"));
    assert_eq!(chunk.get_injected_release_id(), None);
    chunk.remove_chunk_id("three".to_string()).unwrap();
    assert_eq!(chunk.get_chunk_id(), None);
}

#[test]
fn the_first_pair_that_cannot_be_edited_stops_the_injection() {
    let unfit = |path: &str, cause: &str| {
        let mut pair = pair(path, path, "{}");
        pair.edit_failure = Some(cause.to_string());
        pair
    };
    let pairs = || {
        vec![
            pair("a.js", "a", "{}"),
            unfit("b.js", "b.js.map is no source map"),
            unfit("c.js", "c.js.map is no source map"),
        ]
    };
    for error in [
        inject_pairs(NAMESPACE, pairs(), Some("release-1")).unwrap_err(),
        inject_pairs_legacy(pairs(), None).unwrap_err(),
    ] {
        assert!(matches!(error, InjectError::EditPair { .. }));
        assert_eq!(error.message(), "b.js.map is no source map");
        assert_eq!(error.report(), "b.js.map is no source map");
    }

    // A pair that needs no edit does not have to allow one.
    let done = with_payload(unfit("b.js", "broken"), "chunk-1", Some("release-1"));
    let kept = inject_pairs(NAMESPACE, vec![done], Some("release-1")).unwrap();
    assert_eq!(kept[0].get_chunk_id().as_deref(), Some("chunk-1"));
    let error = inject_pairs(NAMESPACE, kept, Some("release-2")).unwrap_err();
    assert_eq!(error.message(), "broken");
}

#[test]
fn a_pair_that_cannot_be_edited_keeps_its_payload() {
    let mut chunk = with_payload(pair("a.js", "a", "{}"), "one", Some("r"));
    chunk.edit_failure = Some("broken".to_string());
    assert!(matches!(
        chunk.remove_chunk_id("one".to_string()),
        Err(InjectError::EditPair { .. })
    ));
    assert!(matches!(
        chunk.update_chunk_id("one".to_string(), "two".to_string()),
        Err(InjectError::EditPair { .. })
    ));
    assert!(stamp_pair(&mut chunk, &Some("r".to_string()), "two".to_string()).is_err());
    assert_eq!(chunk.get_chunk_id().as_deref(), Some("one"));
    assert_eq!(chunk.get_injected_release_id().as_deref(), Some("r"));
}

#[test]
fn rewritten_paths_name_the_chunks_that_changed() {
    let pairs = vec![
        with_payload(pair("a.js", "a", "{}"), "chunk-a", Some("release-1")),
        pair("b.js", "b", "{}"),
        with_payload(pair("c.js", "c", "{}"), "chunk-c", None),
    ];
    let before = source_content_hashes(&pairs);
    let after = inject_pairs(NAMESPACE, pairs, Some("release-1")).unwrap();
    assert_eq!(
        shown(&rewritten_source_paths(&after, &before)),
        vec!["b.js", "c.js"]
    );
    let fresh = vec![pair("d.js", "d", "{}")];
    assert_eq!(shown(&rewritten_source_paths(&fresh, &before)), vec!["d.js"]);
}

#[test]
fn chunks_are_told_apart_by_the_parts_of_their_paths() {
    let pairs = vec![pair("dist/a.js", "a", "{}"), pair("dist/./b.js", "b", "{}")];
    let before = source_content_hashes(&pairs);
    let same = vec![pair("dist/./a.js", "a", "{}"), pair("dist//b.js", "b", "{}")];
    assert!(rewritten_source_paths(&same, &before).is_empty());
    let other = vec![pair("dist/sub/a.js", "a", "{}"), pair("dista.js", "a", "{}")];
    assert_eq!(
        shown(&rewritten_source_paths(&other, &before)),
        vec!["dist/sub/a.js", "dista.js"]
    );

    assert!(path("dist/.").is_same(&path("dist")));
    assert!(!path("dist/a").is_same(&path("dist")));
    assert!(!path("/dist").is_same(&path("dist")));
    assert_eq!(path("a/bc").key(), "61/6263/");
    assert_eq!(path("/a").clone().key(), "2f/61/");

    // Names that read alike but differ on disk stay apart.
    let odd = |byte: u8| FilePath {
        display: "\u{fffd}".to_string(),
        parts: vec![PathPart {
            name: vec![byte],
            text: "\u{fffd}".to_string(),
        }],
    };
    assert!(odd(0xFE).is_same(&odd(0xFE)));
    assert!(!odd(0xFE).is_same(&odd(0xFF)));
}

#[test]
fn ignored_debug_ids_are_announced_up_to_the_failing_pair() {
    let marked = |name: &str, debug_id: &str| {
        let mut marked = pair(name, "a", "{}");
        marked.debug_id = Some(debug_id.to_string());
        marked
    };
    let line = |id: &str, name: &str| {
        format!("ignoring malformed debug id {id} on {name} — falling back to a content-derived chunk id")
    };
    let mut pairs = vec![
        marked("a.js", "not \"a\" uuid\n"),
        marked("b.js", "67e55044-10b1-426f-9247-bb680e5fe0c8"),
        with_payload(marked("c.js", "bad"), "chunk-1", None),
        marked("d.js", "bad"),
        marked("e.js", ""),
    ];
    let lines = vec![
        line("\"not \\\"a\\\" uuid\\n\"", "a.js"),
        line("\"bad\"", "d.js"),
        line("\"\"", "e.js"),
    ];
    assert_eq!(ignored_debug_ids(&pairs, None), lines);
    assert_eq!(ignored_debug_id(&pairs[0]).as_ref(), Some(&lines[0]));
    assert_eq!(ignored_debug_id(&pairs[1]), None);

    pairs[2].edit_failure = Some("broken".to_string());
    assert_eq!(ignored_debug_ids(&pairs, None), lines);
    assert_eq!(ignored_debug_ids(&pairs, Some("release-1")), lines[..1]);
    pairs[3].edit_failure = Some("broken".to_string());
    assert_eq!(ignored_debug_ids(&pairs, None), lines[..2]);
}

#[test]
fn derived_and_fresh_ids_are_of_different_versions() {
    let derived = stable_chunk_id(NAMESPACE, "a");
    assert_eq!(derived.as_bytes()[14], b'5');
    assert!(b"89ab".contains(&derived.as_bytes()[19]));
    assert_eq!(derived, derived.to_lowercase());
    let injected = inject_pairs(NAMESPACE, vec![pair("a.js", "a", "{}")], None).unwrap();
    let renewed = inject_pairs_legacy(injected, None).unwrap();
    let fresh = renewed[0].get_chunk_id().unwrap();
    assert_eq!(fresh.as_bytes()[14], b'7');
    assert!(b"89ab".contains(&fresh.as_bytes()[19]));
    assert_eq!(fresh, fresh.to_lowercase());
    assert_ne!(fresh, derived);
}

#[test]
fn the_chunk_ids_of_a_build_differ_and_are_new_in_every_run() {
    let build: Vec<SourcePair> = (0..200)
        .map(|i| pair(&format!("{i}.js"), "a", "{}"))
        .collect();
    let mut source = IdSource::new();
    let mut seen = std::collections::HashSet::new();
    let mut build = stamp_pairs(&mut source, build, &Some("release-0".to_string())).unwrap();
    for run in 1..6 {
        for pair in &build {
            assert!(seen.insert(pair.get_chunk_id().expect("a chunk id")));
        }
        let release = Some(format!("release-{run}"));
        build = stamp_pairs(&mut source, build, &release).unwrap();
    }
    assert_eq!(seen.len(), 1000);

    let renewed = inject_pairs_legacy(build, None).unwrap();
    assert!(renewed
        .iter()
        .all(|pair| seen.insert(pair.get_chunk_id().expect("a chunk id"))));
}

#[test]
fn chunk_bytes_keep_text_and_payload_apart() {
    let plain = pair("a.js", "ab", "{}");
    assert_eq!(plain.source.bytes(), b"ab".to_vec());
    let split = with_payload(pair("a.js", "a", "{}"), "b", None);
    assert_eq!(split.source.bytes(), vec![b'a', 0xFF, b'b']);
    let full = with_payload(pair("a.js", "a", "{}"), "b", Some("c"));
    assert_eq!(full.source.bytes(), vec![b'a', 0xFF, b'b', 0xFF, b'c']);
}

#[test]
fn rewritten_files_are_announced() {
    let none: Vec<FilePath> = vec![];
    assert!(warn_about_rewritten_files(&none, &[path("ngsw.json")]).is_empty());

    let rewritten: Vec<FilePath> = (0..12).map(|i| path(&format!("chunk-{i}.js"))).collect();
    let lines = warn_about_rewritten_files(&rewritten, &none);
    assert_eq!(lines.len(), 13);
    assert_eq!(
        lines[0],
        "injection rewrote 12 built file(s) in place. Any asset hash computed before this step \
         (service worker manifest, Subresource Integrity attribute, deploy manifest) no longer \
         matches and must be regenerated after injecting:"
    );
    assert_eq!(lines[1], "  rewrote chunk-0.js");
    assert_eq!(lines[12], "  rewrote chunk-11.js");

    let lines = warn_about_rewritten_files(&rewritten[..1], &[path("ngsw.json")]);
    assert_eq!(lines.len(), 2);
    assert_eq!(
        lines[0],
        "injection rewrote 1 built file(s) in place and updated 1 Angular service-worker \
         manifest(s). Any other asset hash computed before this step (Subresource Integrity \
         attribute, deploy manifest) must still be regenerated:"
    );
}

#[test]
fn validation_forwards_the_defect_of_the_selection() {
    let mut args = InjectArgs {
        file_selection: FileSelectionArgs {
            directory: vec!["dist".to_string()],
            defect: None,
        },
        public_path_prefix: None,
        release: ReleaseArgs {
            name: None,
            version: None,
            build: None,
            info_plist: None,
            skip_release_on_fail: false,
        },
        release_mode: ReleaseMode::SymbolSet,
    };
    assert!(args.validate().is_ok());
    args.file_selection.defect = Some("dist does not exist".to_string());
    let error = args.validate().unwrap_err();
    assert!(matches!(error, InjectError::Selection { .. }));
    assert_eq!(error.message(), "dist does not exist");
}
