use sourcemap_inject::args::{FileSelectionArgs, InjectArgs, ReleaseArgs, ReleaseMode};
use sourcemap_inject::error::InjectError;
use sourcemap_inject::ids::{stable_chunk_id, IdSource};
use sourcemap_inject::pairs::{MinifiedSourceFile, SourceFile, SourceMapFile, SourcePair};
use sourcemap_inject::paths::{FilePath, PathPart};
use sourcemap_inject::release::{
    add_git_info_to_release_builder, get_release_for_maps, needs_release, resolve_release,
    resolve_release_id, warn_about_skipped_git, GitInfo, Release, ReleaseBuilder,
};
use sourcemap_inject::run::{inject_impl, FailedRun, InjectStep, Injection, Run};

const NAMESPACE: u128 = 0x5d0c6b1e_7c1f_4b0e_9a53_2f6a1c94e7d8;

const GIT_FAILURE: &str = "failed to read the ref of branch main";

fn release_args(name: Option<&str>, version: Option<&str>) -> ReleaseArgs {
    release_args_with_build(name, version, None)
}

fn release_args_with_build(
    name: Option<&str>,
    version: Option<&str>,
    build: Option<&str>,
) -> ReleaseArgs {
    ReleaseArgs {
        name: name.map(String::from),
        version: version.map(String::from),
        build: build.map(String::from),
        info_plist: None,
        skip_release_on_fail: true,
    }
}

fn inject_args(release_mode: ReleaseMode) -> InjectArgs {
    InjectArgs {
        file_selection: FileSelectionArgs {
            directory: vec!["dist".to_string()],
            defect: None,
        },
        public_path_prefix: None,
        release: release_args(None, None),
        release_mode,
    }
}

fn git_info(repo_name: Option<&str>) -> GitInfo {
    GitInfo {
        remote_url: Some("git@example.com:team/repo.git".to_string()),
        repo_name: repo_name.map(String::from),
        branch: "main".to_string(),
        commit_id: "abc123".to_string(),
    }
}

fn path(name: &str) -> FilePath {
    FilePath {
        display: name.to_string(),
        parts: vec![PathPart {
            name: name.as_bytes().to_vec(),
            text: name.to_string(),
        }],
    }
}

fn map(release_id: Option<&str>) -> SourceMapFile {
    SourceMapFile {
        inner: SourceFile {
            path: path("app.js.map"),
            content: "{}".to_string(),
        },
        release_id: release_id.map(String::from),
    }
}

fn pair(release_id: Option<&str>) -> SourcePair {
    SourcePair {
        source: MinifiedSourceFile {
            inner: SourceFile {
                path: path("app.js"),
                content: "code();".to_string(),
            },
            payload: None,
        },
        sourcemap: map(release_id),
        debug_id: None,
        edit_failure: None,
    }
}

fn release(id: &str) -> Release {
    Release { id: id.to_string() }
}

fn start(
    release_mode: ReleaseMode,
    pairs: Vec<SourcePair>,
    existing_release: Option<&Release>,
) -> Result<InjectStep, FailedRun> {
    inject_impl(
        NAMESPACE,
        IdSource::new(),
        &inject_args(release_mode),
        pairs,
        existing_release,
    )
}

fn failed(result: Result<InjectStep, FailedRun>) -> FailedRun {
    match result {
        Ok(_) => panic!("expected a failure"),
        Err(failed) => failed,
    }
}

fn saved(step: InjectStep) -> Injection {
    match step {
        InjectStep::Save(injection) => injection,
        _ => panic!("expected a finished injection"),
    }
}

fn waiting(step: InjectStep) -> Run {
    match step {
        InjectStep::ResolveReleaseArgs(run) => run,
        _ => panic!("expected a run that waits for release flags"),
    }
}

fn asking(step: InjectStep) -> (Run, ReleaseArgs) {
    match step {
        InjectStep::AskGit(run, release) => (run, release),
        _ => panic!("expected a run that asks git"),
    }
}

#[test]
fn git_failure_is_not_fatal_when_release_fields_are_explicit() {
    let mut builder: ReleaseBuilder = release_args(Some("my-app"), Some("1.0.0")).into();

    let result = add_git_info_to_release_builder(Err(GIT_FAILURE.to_string()), &mut builder);

    assert!(result.is_ok());
    assert!(builder.can_create());
}

#[test]
fn git_failure_is_fatal_when_release_fields_need_git() {
    let mut builder: ReleaseBuilder = release_args(Some("my-app"), None).into();

    let error = add_git_info_to_release_builder(Err(GIT_FAILURE.to_string()), &mut builder)
        .expect_err("git failure should remain fatal when release fields are incomplete");

    assert!(error
        .report()
        .contains("Failed to determine git info for release"));
    assert_eq!(
        error.report(),
        format!("Failed to determine git info for release: {GIT_FAILURE}")
    );
    assert_eq!(error.message(), "Failed to determine git info for release");
    assert_eq!(error.cause().as_deref(), Some(GIT_FAILURE));
}

#[test]
fn missing_git_is_not_fatal_for_best_effort_release_creation() {
    let mut builder: ReleaseBuilder = release_args(None, None).into();

    let result = add_git_info_to_release_builder(Ok(None), &mut builder);

    assert!(result.is_ok());
    assert!(!builder.can_create());
}

#[test]
fn unresolved_info_plist_is_not_fatal_without_git_or_xcode_environment() {
    // A property list whose placeholders stay unresolved leaves every field out.
    let mut resolved = release_args(None, None);
    resolved.info_plist = Some("Info.plist".to_string());
    let mut builder: ReleaseBuilder = resolved.into();

    let result = add_git_info_to_release_builder(Ok(None), &mut builder);

    assert!(result.is_ok());
    assert!(!builder.can_create());
}

#[test]
fn missing_git_is_fatal_when_release_args_are_incomplete() {
    let mut builder: ReleaseBuilder = release_args(Some("my-app"), None).into();

    let error = add_git_info_to_release_builder(Ok(None), &mut builder)
        .expect_err("missing git should be fatal when release args are incomplete");

    assert!(error.report().contains("Release fields are incomplete"));
}

#[test]
fn build_only_release_args_need_git() {
    let error = get_release_for_maps(
        Ok(None),
        release_args_with_build(None, None, Some("42")),
        &[],
    )
    .expect_err("build-only release args should need git to fill the release name");

    assert!(error.report().contains("Release fields are incomplete"));
    assert!(matches!(error, InjectError::IncompleteRelease));
}

#[test]
fn git_fills_in_what_flags_leave_out() {
    let builder = resolve_release(release_args(None, None), Ok(Some(git_info(Some("repo")))))
        .unwrap()
        .expect("an identified release");
    assert_eq!(builder.name.as_deref(), Some("repo"));
    assert_eq!(builder.version.as_deref(), Some("abc123"));
    assert_eq!(builder.git.as_ref().unwrap().branch, "main");

    let builder = resolve_release(
        release_args(Some("my-app"), None),
        Ok(Some(git_info(Some("repo")))),
    )
    .unwrap()
    .expect("an identified release");
    assert_eq!(builder.name.as_deref(), Some("my-app"));
    assert_eq!(builder.version.as_deref(), Some("abc123"));

    let builder = resolve_release(
        release_args_with_build(None, None, Some("42")),
        Ok(Some(git_info(Some("repo")))),
    )
    .unwrap()
    .expect("an identified release");
    assert_eq!(builder.version, None);
    assert_eq!(builder.build.as_deref(), Some("42"));

    // A repository without a name leaves the release unidentified.
    assert!(
        resolve_release(release_args(None, None), Ok(Some(git_info(None))))
            .unwrap()
            .is_none()
    );
    assert!(resolve_release(release_args(None, None), Ok(None))
        .unwrap()
        .is_none());
}

#[test]
fn stamped_maps_need_no_release() {
    let stamped = map(Some("release-1"));
    let bare = map(None);
    assert!(!needs_release(&release_args(None, None), &[&stamped]));
    assert!(needs_release(&release_args(None, None), &[&stamped, &bare]));
    assert!(needs_release(&release_args(None, Some("1")), &[&stamped]));

    let none = get_release_for_maps(
        Err(GIT_FAILURE.to_string()),
        release_args(None, None),
        &[&stamped],
    );
    assert!(none.unwrap().is_none());
    let needed = get_release_for_maps(
        Err(GIT_FAILURE.to_string()),
        release_args(None, None),
        &[&stamped, &bare],
    );
    assert!(matches!(needed, Err(InjectError::GitInfo { .. })));
}

#[test]
fn the_release_fetched_earlier_comes_first() {
    let earlier = release("earlier");
    let later = release("later");
    assert_eq!(
        resolve_release_id(Some(&earlier), Some(&later)).as_deref(),
        Some("earlier")
    );
    assert_eq!(
        resolve_release_id(None, Some(&later)).as_deref(),
        Some("later")
    );
    assert_eq!(resolve_release_id(None, None), None);
}

#[test]
fn a_run_without_source_files_is_refused() {
    for mode in [ReleaseMode::Event, ReleaseMode::SymbolSet] {
        let failed = failed(start(mode, vec![], Some(&release("release-1"))));
        assert!(matches!(failed.error, InjectError::NoSourceFiles));
        assert_eq!(failed.error.message(), "no source files found");
        assert!(failed.warnings.is_empty());
    }
}

#[test]
fn an_existing_release_is_injected_at_once() {
    let step = start(ReleaseMode::Event, vec![pair(None)], Some(&release("r"))).unwrap();
    let injection = saved(step);
    assert_eq!(
        injection.pairs[0].get_chunk_id(),
        Some(stable_chunk_id(NAMESPACE, "code();"))
    );
    assert_eq!(
        injection.pairs[0].get_injected_release_id().as_deref(),
        Some("r")
    );
    assert_eq!(injection.rewritten.len(), 1);
    assert_eq!(injection.rewritten[0].display, "app.js");
    assert!(injection.warnings.is_empty());

    let step = start(ReleaseMode::Event, injection.pairs, Some(&release("r"))).unwrap();
    assert!(saved(step).rewritten.is_empty());
}

#[test]
fn event_mode_asks_git_and_fetches_the_release() {
    let step = start(ReleaseMode::Event, vec![pair(Some("stamped"))], None).unwrap();
    let step = waiting(step)
        .release_args_resolved(release_args(None, None))
        .unwrap();
    let (run, args) = asking(step);
    let step = run
        .git_asked(args, Ok(Some(git_info(Some("repo")))))
        .unwrap();
    let InjectStep::FetchRelease(run, builder) = step else {
        panic!("expected a release to fetch");
    };
    assert_eq!(builder.name.as_deref(), Some("repo"));
    let injection = saved(run.release_fetched(release("r")).unwrap());
    assert_eq!(
        injection.pairs[0].get_injected_release_id().as_deref(),
        Some("r")
    );
    assert_eq!(
        injection.pairs[0].get_release_id().as_deref(),
        Some("stamped")
    );
}

#[test]
fn event_mode_warns_where_no_release_resolves() {
    let step = start(ReleaseMode::Event, vec![pair(None)], None).unwrap();
    let step = waiting(step)
        .release_args_resolved(release_args(None, None))
        .unwrap();
    let (run, args) = asking(step);
    let injection = saved(run.git_asked(args, Ok(None)).unwrap());
    assert_eq!(
        injection.warnings,
        vec![
            "no release could be resolved, injecting chunk ids only — events will carry no release"
                .to_string()
        ]
    );
    assert_eq!(injection.pairs[0].get_injected_release_id(), None);
    assert!(injection.pairs[0].get_chunk_id().is_some());
}

#[test]
fn a_failing_run_keeps_what_it_warned_of() {
    let mut unfit = pair(None);
    unfit.debug_id = Some("bad".to_string());
    unfit.edit_failure = Some("app.js.map is no source map".to_string());
    let mut later = pair(None);
    later.debug_id = Some("worse".to_string());
    let step = start(ReleaseMode::Event, vec![unfit, later], None).unwrap();
    let step = waiting(step)
        .release_args_resolved(release_args(None, None))
        .unwrap();
    let (run, args) = asking(step);
    let failed = failed(run.git_asked(args, Ok(None)));
    assert_eq!(failed.error.message(), "app.js.map is no source map");
    assert_eq!(
        failed.warnings,
        vec![
            "no release could be resolved, injecting chunk ids only — events will carry no release"
                .to_string(),
            "ignoring malformed debug id \"bad\" on app.js — falling back to a content-derived \
             chunk id"
                .to_string(),
        ]
    );
}

#[test]
fn debug_ids_are_no_matter_in_symbol_set_mode() {
    let mut marked = pair(None);
    marked.debug_id = Some("bad".to_string());
    let step = start(ReleaseMode::SymbolSet, vec![marked], Some(&release("r"))).unwrap();
    assert!(saved(step).warnings.is_empty());
}

#[test]
fn a_failure_of_git_is_announced_where_it_is_not_fatal() {
    let git = Err(GIT_FAILURE.to_string());
    assert_eq!(
        warn_about_skipped_git(&release_args(Some("my-app"), Some("1.0.0")), &git),
        Some(format!(
            "Skipping git metadata after failing to determine git info: {GIT_FAILURE}"
        ))
    );
    assert!(warn_about_skipped_git(
        &release_args_with_build(Some("my-app"), None, Some("42")),
        &git
    )
    .is_some());
    assert_eq!(
        warn_about_skipped_git(&release_args(Some("my-app"), None), &git),
        None
    );
    assert_eq!(
        warn_about_skipped_git(&release_args(Some("my-app"), Some("1.0.0")), &Ok(None)),
        None
    );
}

#[test]
fn symbol_set_mode_asks_git_only_where_a_map_needs_a_release() {
    let step = start(ReleaseMode::SymbolSet, vec![pair(Some("old"))], None).unwrap();
    let step = waiting(step)
        .release_args_resolved(release_args(None, None))
        .unwrap();
    let injection = saved(step);
    assert_eq!(injection.pairs[0].get_release_id(), None);
    assert!(injection.warnings.is_empty());
    assert_eq!(injection.rewritten.len(), 1);

    let step = start(ReleaseMode::SymbolSet, vec![pair(None)], None).unwrap();
    let step = waiting(step)
        .release_args_resolved(release_args(Some("my-app"), None))
        .unwrap();
    let (run, args) = asking(step);
    let failed = failed(run.git_asked(args, Ok(None)));
    assert!(matches!(failed.error, InjectError::IncompleteRelease));
    assert!(failed.warnings.is_empty());

    let step = start(ReleaseMode::SymbolSet, vec![pair(None)], Some(&release("r"))).unwrap();
    let injection = saved(step);
    assert_eq!(injection.pairs[0].get_release_id().as_deref(), Some("r"));
    assert_eq!(injection.pairs[0].get_injected_release_id(), None);
}
