use serde_json::Value;
use sourcemap_inject::digest::sha1_hex;
use sourcemap_inject::error::InjectError;
use sourcemap_inject::manifest::{
    manifest_key_for_relative_path, update_manifest_hash_table, RewrittenFile,
};
use sourcemap_inject::paths::{FilePath, PathPart};
use sourcemap_inject::repair::{
    find_angular_service_worker_manifests, repair_manifest, scan_root,
    update_angular_service_worker_manifests, ManifestFile, ScanRoot, WalkedEntry,
};

fn table(entries: &[(&str, &str)]) -> serde_json::Map<String, Value> {
    entries
        .iter()
        .map(|(key, value)| (key.to_string(), Value::String(value.to_string())))
        .collect()
}

fn path(text: &str) -> FilePath {
    FilePath {
        display: text.to_string(),
        parts: parts(text),
    }
}

fn parts(text: &str) -> Vec<PathPart> {
    std::path::Path::new(text)
        .components()
        .map(|component| component.as_os_str().to_string_lossy().into_owned())
        .map(|name| PathPart {
            name: name.as_bytes().to_vec(),
            text: name,
        })
        .collect()
}

fn shown(paths: &[FilePath]) -> Vec<&str> {
    paths.iter().map(|path| path.display.as_str()).collect()
}

fn rewritten(name: &str, content: &[u8]) -> RewrittenFile {
    RewrittenFile {
        path: name.to_string(),
        canonical: Ok(path(name)),
        content: Ok(content.to_vec()),
    }
}

fn manifest(name: &str, hash_table: serde_json::Map<String, Value>) -> ManifestFile {
    let mut document = serde_json::Map::new();
    document.insert("configVersion".to_string(), Value::from(1));
    document.insert("hashTable".to_string(), Value::Object(hash_table));
    let root = name.rsplit_once('/').expect("a parent directory").0;
    ManifestFile {
        path: path(name),
        bytes: Ok(serde_json::to_vec(&Value::Object(document)).unwrap()),
        root: Ok(path(root)),
    }
}

#[test]
fn angular_service_worker_hashes_follow_rewritten_chunks() {
    let manifests = vec![manifest(
        "/dist/ngsw.json",
        table(&[
            ("/base/app.js", "old-app-hash"),
            ("/base/chunks/lazy%20chunk.js", "old-lazy-hash"),
            ("/base/unchanged.js", "unchanged-hash"),
        ]),
    )];
    let files = vec![
        rewritten("/dist/app.js", b"injected app"),
        rewritten("/dist/chunks/lazy chunk.js", b"injected lazy chunk"),
    ];

    let repairs = update_angular_service_worker_manifests(&manifests, &files);

    assert!(repairs.failure.is_none());
    let paths: Vec<&str> = repairs
        .repaired
        .iter()
        .map(|manifest| manifest.path.display.as_str())
        .collect();
    assert_eq!(paths, vec!["/dist/ngsw.json"]);
    assert_eq!(repairs.repaired[0].updated, 2);
    let manifest: Value = serde_json::from_slice(&repairs.repaired[0].bytes)
        .expect("failed to parse repaired manifest");
    assert_eq!(manifest["configVersion"], Value::from(1));
    let hash_table = manifest["hashTable"]
        .as_object()
        .expect("manifest hashTable");
    assert_eq!(
        hash_table["/base/app.js"],
        Value::String(sha1_hex(b"injected app"))
    );
    assert_eq!(
        hash_table["/base/chunks/lazy%20chunk.js"],
        Value::String(sha1_hex(b"injected lazy chunk"))
    );
    assert_eq!(hash_table["/base/unchanged.js"], "unchanged-hash");
    assert_eq!(hash_table.len(), 3);
}

#[test]
fn angular_service_worker_hash_repair_refuses_ambiguous_base_paths() {
    let mut hash_table = table(&[("/one/app.js", "one"), ("/two/app.js", "two")]);

    let error = manifest_key_for_relative_path(&hash_table, "app.js")
        .expect_err("ambiguous paths must not update the wrong asset");

    assert!(error.message().contains("multiple entries"));
    hash_table.insert("/app.js".to_string(), Value::String("exact".to_string()));
    assert_eq!(
        manifest_key_for_relative_path(&hash_table, "app.js")
            .expect("exact path should win")
            .as_deref(),
        Some("/app.js")
    );
}

#[test]
fn ambiguous_entries_are_listed_in_order() {
    let hash_table = table(&[
        ("/two/app.js", "2"),
        ("/one/app.js", "1"),
        ("/three/other.js", "3"),
        ("/four/%61pp.js", "4"),
    ]);
    let error = manifest_key_for_relative_path(&hash_table, "app.js").unwrap_err();
    assert_eq!(
        error.message(),
        "Angular service-worker manifest has multiple entries matching app.js: \
         /four/%61pp.js, /one/app.js, /two/app.js"
    );
    assert_eq!(error.report(), error.message());
}

#[test]
fn keys_match_whole_path_segments_after_decoding() {
    let key = |keys: &[(&str, &str)], url: &str| {
        manifest_key_for_relative_path(&table(keys), url).unwrap()
    };
    assert_eq!(key(&[("/base/my-app.js", "")], "app.js"), None);
    assert_eq!(key(&[], "app.js"), None);
    assert_eq!(
        key(&[("/base/a%2Fb.js", "")], "b.js").as_deref(),
        Some("/base/a%2Fb.js")
    );
    assert_eq!(
        key(&[("/b/%C3%A9t%c3%a9.js", "")], "été.js").as_deref(),
        Some("/b/%C3%A9t%c3%a9.js")
    );
    // Bytes that are no UTF-8 match nothing, and a stray percent sign stands for itself.
    assert_eq!(key(&[("/b/%FF/app.js", "")], "app.js"), None);
    assert_eq!(
        key(&[("/b/100%/x%2/%zz%4g.js", "")], "100%/x%2/%zz%4g.js").as_deref(),
        Some("/b/100%/x%2/%zz%4g.js")
    );
}

#[test]
fn sha1_digests_are_lowercase_hexadecimal() {
    assert_eq!(sha1_hex(b""), "da39a3ee5e6b4b0d3255bfef95601890afd80709");
    assert_eq!(sha1_hex(b"abc"), "a9993e364706816aba3e25717850c26c9cd0d89d");
    assert_eq!(
        sha1_hex(b"injected app"),
        "c6193fa1a5f5dac784db46663d90b689e4261fe2"
    );
}

#[test]
fn files_outside_the_build_and_unknown_files_are_passed_over() {
    let mut hash_table = table(&[("/app.js", "old")]);
    let files = vec![
        rewritten("/elsewhere/app.js", b"a"),
        rewritten("/distribution/app.js", b"b"),
        rewritten("/dist/unknown.js", b"c"),
    ];
    let updated = update_manifest_hash_table(&mut hash_table, &parts("/dist"), &files);
    assert_eq!(updated.unwrap(), 0);
    assert_eq!(hash_table, table(&[("/app.js", "old")]));

    let quiet = repair_manifest(&manifest("/dist/ngsw.json", hash_table), &files).unwrap();
    assert!(quiet.is_none());
}

#[test]
fn backslashes_count_as_separators() {
    let part = |name: &str| PathPart {
        name: name.as_bytes().to_vec(),
        text: name.to_string(),
    };
    let mut hash_table = table(&[("/chunks/app.js", "old")]);
    let file = RewrittenFile {
        path: "app.js".to_string(),
        canonical: Ok(FilePath {
            display: "app.js".to_string(),
            parts: vec![part("C:"), part("\\"), part("chunks\\app.js")],
        }),
        content: Ok(b"abc".to_vec()),
    };
    let root = vec![part("C:"), part("\\")];
    assert_eq!(
        update_manifest_hash_table(&mut hash_table, &root, &[file]).unwrap(),
        1
    );
    assert_eq!(
        hash_table["/chunks/app.js"],
        "a9993e364706816aba3e25717850c26c9cd0d89d"
    );
}

#[test]
fn a_second_repair_changes_nothing() {
    let mut hash_table = table(&[("/b/app.js", "old"), ("/b/other.js", "kept")]);
    let files = vec![
        rewritten("/dist/app.js", b"first"),
        rewritten("/dist/app.js", b"second"),
    ];
    let root = parts("/dist");
    assert_eq!(
        update_manifest_hash_table(&mut hash_table, &root, &files).unwrap(),
        2
    );
    assert_eq!(hash_table["/b/app.js"], Value::String(sha1_hex(b"second")));
    let once = hash_table.clone();
    assert_eq!(
        update_manifest_hash_table(&mut hash_table, &root, &files).unwrap(),
        2
    );
    assert_eq!(hash_table, once);
    assert_eq!(hash_table["/b/other.js"], "kept");
}

#[test]
fn readers_of_a_repaired_manifest_find_every_hash() {
    let odd = "/base/\"quoted\"\\\u{8}\u{1f}\u{e9}\u{1f600}.js";
    let repairs = update_angular_service_worker_manifests(
        &[manifest(
            "/dist/ngsw.json",
            table(&[("/base/app.js", "old"), (odd, "tab\there\nand\u{2028}there")]),
        )],
        &[rewritten("/dist/app.js", b"new")],
    );
    assert!(repairs.failure.is_none());
    let document: Value = serde_json::from_slice(&repairs.repaired[0].bytes).unwrap();
    let found = document["hashTable"].as_object().unwrap();
    assert_eq!(found.len(), 2);
    assert_eq!(found["/base/app.js"], Value::String(sha1_hex(b"new")));
    assert_eq!(found[odd], "tab\there\nand\u{2028}there");
}

#[test]
fn readers_of_a_repaired_manifest_find_the_rest_of_it() {
    let before = r#"{"assetGroups":[{"name":"app","urls":["/b/app.js",null,[]]}],"big":18446744073709551615,"dynamic":{"off":false,"on":true},"hashTable":{"/b/app.js":"old","/b/odd.js":[1,{}]},"low":-9223372036854775808,"none":null}"#;
    let mut file = manifest("/dist/ngsw.json", table(&[]));
    file.bytes = Ok(before.as_bytes().to_vec());
    let files = vec![rewritten("/dist/app.js", b"abc")];
    let repaired = repair_manifest(&file, &files).unwrap().unwrap();
    let after = before.replace(
        "\"old\"",
        "\"a9993e364706816aba3e25717850c26c9cd0d89d\"",
    );
    assert_eq!(String::from_utf8(repaired.bytes.clone()).unwrap(), after);
    let read: Value = serde_json::from_slice(&repaired.bytes).unwrap();
    let mut expected: Value = serde_json::from_str(before).unwrap();
    expected["hashTable"]["/b/app.js"] = Value::String(sha1_hex(b"abc"));
    assert_eq!(read, expected);

    // A second repair writes the same bytes again.
    file.bytes = Ok(repaired.bytes.clone());
    let again = repair_manifest(&file, &files).unwrap().unwrap();
    assert_eq!(again.bytes, repaired.bytes);
    assert_eq!(again.updated, repaired.updated);
}

#[test]
fn fractions_stay_fractions() {
    let mut file = manifest("/dist/ngsw.json", table(&[]));
    file.bytes = Ok(br#"{"f":[1.0,1e300,-0.0,0.1],"hashTable":{"/app.js":"old"},"n":1}"#.to_vec());
    let repaired = repair_manifest(&file, &[rewritten("/dist/app.js", b"abc")])
        .unwrap()
        .unwrap();
    let read: Value = serde_json::from_slice(&repaired.bytes).unwrap();
    let fractions = read["f"].as_array().unwrap();
    assert_eq!(fractions.len(), 4);
    assert!(fractions.iter().all(Value::is_f64));
    assert_eq!(read["n"].as_u64(), Some(1));
}

#[test]
fn manifests_nested_to_the_limit_are_read_back() {
    let nested = |depth: usize| {
        let mut bytes = br#"{"hashTable":{"/app.js":"old"},"n":"#.to_vec();
        bytes.extend(vec![b'['; depth]);
        bytes.extend(vec![b']'; depth]);
        bytes.push(b'}');
        let mut file = manifest("/dist/ngsw.json", table(&[]));
        file.bytes = Ok(bytes);
        file
    };
    let files = vec![rewritten("/dist/app.js", b"abc")];
    // The object around them is one level of its own.
    let deepest = sourcemap_inject::json::DEEPEST_NESTING - 1;
    let repaired = repair_manifest(&nested(deepest), &files).unwrap().unwrap();
    assert!(serde_json::from_slice::<Value>(&repaired.bytes).is_ok());
    let error = repair_manifest(&nested(deepest + 1), &files).unwrap_err();
    assert!(matches!(error, InjectError::ParseManifest { .. }));
}

#[test]
fn failures_of_rewritten_files_stop_the_repair() {
    let root = parts("/dist");
    let mut unresolved = rewritten("/dist/gone.js", b"");
    unresolved.canonical = Err("no such file".to_string());
    let mut unreadable = rewritten("/dist/app.js", b"");
    unreadable.path = "dist/app.js".to_string();
    unreadable.content = Err("permission denied".to_string());

    let mut hash_table = table(&[("/app.js", "old")]);
    let files = vec![rewritten("/dist/app.js", b"abc"), unresolved];
    let error = update_manifest_hash_table(&mut hash_table, &root, &files).unwrap_err();
    assert!(matches!(error, InjectError::ResolveRewrittenFile { .. }));
    assert_eq!(
        error.report(),
        "Failed to resolve rewritten file /dist/gone.js: no such file"
    );
    assert_eq!(hash_table["/app.js"], Value::String(sha1_hex(b"abc")));

    let error =
        update_manifest_hash_table(&mut hash_table, &root, &[unreadable]).unwrap_err();
    assert!(matches!(error, InjectError::HashRewrittenFile { .. }));
    assert_eq!(error.message(), "Failed to hash rewritten file /dist/app.js");
    assert_eq!(
        error.report(),
        "Failed to hash rewritten file /dist/app.js: permission denied"
    );

    // A file that no entry stands for is never read.
    let mut unused = rewritten("/dist/other.js", b"");
    unused.content = Err("permission denied".to_string());
    assert_eq!(
        update_manifest_hash_table(&mut hash_table, &root, &[unused]).unwrap(),
        0
    );
}

#[test]
fn failures_of_manifests_are_reported() {
    let files = vec![rewritten("/dist/app.js", b"abc")];
    let good = || manifest("/dist/ngsw.json", table(&[("/app.js", "old")]));

    let mut unread = good();
    unread.bytes = Err("gone".to_string());
    let error = repair_manifest(&unread, &files).unwrap_err();
    assert!(matches!(error, InjectError::ReadManifest { .. }));
    assert_eq!(error.report(), "Failed to read /dist/ngsw.json: gone");

    let mut broken = good();
    broken.bytes = Ok(b"{".to_vec());
    let error = repair_manifest(&broken, &files).unwrap_err();
    assert!(matches!(error, InjectError::ParseManifest { .. }));
    assert_eq!(error.message(), "Failed to parse /dist/ngsw.json");
    let cause = serde_json::from_slice::<Value>(b"{").unwrap_err().to_string();
    assert_eq!(
        error.report(),
        format!("Failed to parse /dist/ngsw.json: {cause}")
    );

    for text in ["[]", "{}", "{\"hashTable\":[]}", "null"] {
        let mut bare = good();
        bare.bytes = Ok(text.as_bytes().to_vec());
        bare.root = Err("gone".to_string());
        let error = repair_manifest(&bare, &files).unwrap_err();
        assert!(matches!(error, InjectError::NoHashTable { .. }));
        assert_eq!(error.report(), "/dist/ngsw.json has no hashTable object");
    }

    let mut rootless = good();
    rootless.root = Err("gone".to_string());
    let error = repair_manifest(&rootless, &files).unwrap_err();
    assert!(matches!(error, InjectError::ResolveBuildDirectory { .. }));
    assert_eq!(
        error.report(),
        "Failed to resolve Angular build directory /dist/ngsw.json: gone"
    );
}

#[test]
fn serialization_failures_are_reported_as_they_are() {
    let error = InjectError::SerializeManifest {
        cause: "key must be a string".to_string(),
    };
    assert_eq!(error.message(), "key must be a string");
    assert_eq!(error.report(), "key must be a string");
}

#[test]
fn manifests_before_a_failure_are_still_written_back() {
    let first = manifest("/dist/a/ngsw.json", table(&[("/app.js", "old")]));
    let silent = manifest("/dist/b/ngsw.json", table(&[("/app.js", "old")]));
    let mut broken = manifest("/dist/c/ngsw.json", table(&[]));
    broken.bytes = Err("gone".to_string());
    let last = manifest("/dist/a/ngsw.json", table(&[("/app.js", "old")]));
    let files = vec![rewritten("/dist/a/app.js", b"abc")];
    let manifests = vec![first, silent, broken, last];

    let repairs = update_angular_service_worker_manifests(&manifests, &files);
    assert_eq!(repairs.repaired.len(), 1);
    assert_eq!(repairs.repaired[0].path.display, "/dist/a/ngsw.json");
    assert_eq!(
        repairs.failure.unwrap().message(),
        "Failed to read /dist/c/ngsw.json"
    );

    // Nothing rewritten, nothing to repair: not even a broken manifest matters.
    let idle = update_angular_service_worker_manifests(&manifests, &[]);
    assert!(idle.repaired.is_empty());
    assert!(idle.failure.is_none());
}

#[test]
fn manifests_are_found_once_each() {
    let entry = |name: &str, file_name: &str, is_file: bool| WalkedEntry {
        path: path(name),
        file_name: file_name.as_bytes().to_vec(),
        is_file,
    };
    let entries = vec![
        entry("dist", "dist", false),
        entry("dist/ngsw.json", "ngsw.json", true),
        entry("dist/app.js", "app.js", true),
        entry("dist/sub/ngsw.json", "ngsw.json", true),
        entry("dist/odd/ngsw.json", "ngsw.json", false),
        entry("dist/ngsw.json", "ngsw.json", true),
        entry("dist/./ngsw.json", "ngsw.json", true),
        entry("dist/NGSW.json", "NGSW.json", true),
    ];
    assert_eq!(
        shown(&find_angular_service_worker_manifests(&entries)),
        vec!["dist/ngsw.json", "dist/sub/ngsw.json"]
    );
    assert_eq!(scan_root(true, true), ScanRoot::Itself);
    assert_eq!(scan_root(false, true), ScanRoot::Parent);
    assert_eq!(scan_root(false, false), ScanRoot::Itself);
}
