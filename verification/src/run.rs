//! An injection run, step by step: each step says what is to be done outside before the next.

use vstd::prelude::*;

use crate::args::{InjectArgs, ReleaseArgs, ReleaseMode};
use crate::error::{ErrorView, InjectError};
use crate::ids::IdSource;
use crate::inject;
use crate::pairs;
use crate::pairs::{PairView, SourceMapFile, SourcePair};
use crate::paths;
use crate::paths::FilePath;
use crate::release;
use crate::release::{GitLookup, Release, ReleaseBuilder};
use crate::rewritten;
use crate::run_laws;
use crate::text;

verus! {

/// A run that waits for what is outside.
pub struct Run {
    pub release_mode: ReleaseMode,
    /// The namespace within which event mode derives chunk ids.
    pub namespace: u128,
    /// Where symbol-set mode takes chunk ids from.
    pub source: IdSource,
    pub pairs: Vec<SourcePair>,
}

impl Run {
    /// The run without its pairs.
    pub open spec fn setting(self) -> Setting {
        Setting {
            release_mode: self.release_mode,
            namespace: self.namespace,
            issued: self.source.issued(),
        }
    }
}

/// What a run injects by, as the contracts see it: the mode, the namespace of derived chunk ids, and
/// the fresh chunk ids that were issued earlier.
pub struct Setting {
    pub release_mode: ReleaseMode,
    pub namespace: u128,
    pub issued: Set<Seq<char>>,
}

/// What injection made of a build.
#[derive(Debug)]
pub struct Injection {
    /// The pairs to be saved.
    pub pairs: Vec<SourcePair>,
    /// The paths of the chunks that differ from what was read.
    pub rewritten: Vec<FilePath>,
    /// The lines that warn of a missing release and of ignored debug ids.
    pub warnings: Vec<String>,
}

/// Why a run failed, and what it warned of before.
#[derive(Debug)]
pub struct FailedRun {
    pub error: InjectError,
    /// The lines that warn of a missing release and of ignored debug ids.
    pub warnings: Vec<String>,
}

/// What is to be done next.
pub enum InjectStep {
    /// Fill the release flags from the property list that they name, and hand them over.
    ResolveReleaseArgs(Run),
    /// Ask git about the working tree.
    AskGit(Run, ReleaseArgs),
    /// Fetch or create the release.
    FetchRelease(Run, ReleaseBuilder),
    /// Save the pairs, and repair the manifests.
    Save(Injection),
}

/// The line that warns of a missing release.
pub open spec fn no_release_line() -> Seq<char> {
    "no release could be resolved, injecting chunk ids only — events will carry no release"@
}

/// The lines that injection in this mode with this release warns with. Event mode warns of a
/// missing release, because its events then carry none, and of every debug id that it ignores.
pub open spec fn mode_warnings(
    release_mode: ReleaseMode,
    pairs: Seq<PairView>,
    release_id: Option<Seq<char>>,
) -> Seq<Seq<char>> {
    match release_mode {
        ReleaseMode::Event => {
            let missing = if release_id is None {
                seq![no_release_line()]
            } else {
                Seq::empty()
            };
            missing + inject::ignored_lines(pairs, release_id)
        },
        ReleaseMode::SymbolSet => Seq::empty(),
    }
}

/// Whether injection in this setting with this release may turn the build `before` into `after`.
pub open spec fn mode_pairs(
    setting: Setting,
    before: Seq<PairView>,
    release_id: Option<Seq<char>>,
    after: Seq<PairView>,
) -> bool {
    match setting.release_mode {
        ReleaseMode::Event => after == inject::event_pairs(setting.namespace, before, release_id),
        ReleaseMode::SymbolSet => inject::legacy_pairs(before, release_id, setting.issued, after),
    }
}

/// Whether this is what injection in this setting with this release makes of a build.
pub open spec fn is_injection(
    setting: Setting,
    before: Seq<PairView>,
    release_id: Option<Seq<char>>,
    injection: Injection,
) -> bool {
    let after = pairs::pair_views(injection.pairs@);
    &&& mode_pairs(setting, before, release_id, after)
    &&& paths::path_views(injection.rewritten@) == rewritten::rewritten_paths(
        after,
        rewritten::hashes_by_path(before),
    )
    &&& text::texts(injection.warnings@) == mode_warnings(setting.release_mode, before, release_id)
}

/// Whether injection in this mode with this release can edit every pair that it has to.
pub open spec fn mode_editable(
    release_mode: ReleaseMode,
    pairs: Seq<PairView>,
    release_id: Option<Seq<char>>,
) -> bool {
    match release_mode {
        ReleaseMode::Event => inject::event_editable(pairs, release_id),
        ReleaseMode::SymbolSet => inject::legacy_editable(pairs, release_id),
    }
}

/// Whether this is the failure of the first pair that injection in this mode with this release has
/// to edit and cannot.
pub open spec fn mode_failure(
    release_mode: ReleaseMode,
    pairs: Seq<PairView>,
    release_id: Option<Seq<char>>,
    error: ErrorView,
) -> bool {
    match release_mode {
        ReleaseMode::Event => inject::event_failure(pairs, release_id, error),
        ReleaseMode::SymbolSet => inject::legacy_failure(pairs, release_id, error),
    }
}

/// Whether this is what a run over a build comes to once its release is known.
pub open spec fn injects(
    setting: Setting,
    pairs: Seq<PairView>,
    release_id: Option<Seq<char>>,
    result: Result<InjectStep, FailedRun>,
) -> bool {
    match result {
        Ok(step) => {
            &&& mode_editable(setting.release_mode, pairs, release_id)
            &&& step is Save
            &&& is_injection(setting, pairs, release_id, step->Save_0)
        },
        Err(failed) => {
            &&& mode_failure(setting.release_mode, pairs, release_id, failed.error@)
            &&& text::texts(failed.warnings@) == mode_warnings(
                setting.release_mode,
                pairs,
                release_id,
            )
        },
    }
}

/// Whether a run fails with this error before there is anything to warn of.
pub open spec fn fails_with(result: Result<InjectStep, FailedRun>, error: ErrorView) -> bool {
    &&& result is Err
    &&& result->Err_0.error@ == error
    &&& result->Err_0.warnings@.len() == 0
}

/// The source maps of pairs.
pub open spec fn maps_of(pairs: Seq<PairView>) -> Seq<pairs::SourceMapView> {
    pairs.map_values(|pair: PairView| pair.sourcemap)
}

/// Whether git has to be asked for the release: always in event mode, otherwise where the source
/// maps need a release.
pub open spec fn asks_git(
    release_mode: ReleaseMode,
    fields: release::ReleaseFields,
    pairs: Seq<PairView>,
) -> bool {
    release_mode == ReleaseMode::Event || release::maps_need_release(fields, maps_of(pairs))
}

/// The release to fetch or create in this mode, where flags and git identify one and it is needed.
pub open spec fn mode_release(
    release_mode: ReleaseMode,
    fields: release::ReleaseFields,
    git: Result<Option<release::GitView>, Seq<char>>,
    pairs: Seq<PairView>,
) -> Result<Option<release::BuilderView>, ErrorView> {
    match release_mode {
        ReleaseMode::Event => release::resolved(fields, git),
        ReleaseMode::SymbolSet => release::release_for_maps(fields, git, maps_of(pairs)),
    }
}

/// Whether a build that is to be saved carries this release: in event mode in every chunk, in
/// symbol-set mode in every source map.
pub open spec fn carries_release(
    release_mode: ReleaseMode,
    release_id: Seq<char>,
    result: Result<InjectStep, FailedRun>,
) -> bool {
    result matches Ok(InjectStep::Save(injection)) ==> forall|i: int|
        0 <= i < injection.pairs@.len() ==> match release_mode {
            ReleaseMode::Event => (#[trigger] injection.pairs@[i])@.injected_release_id() == Some(
                release_id,
            ),
            ReleaseMode::SymbolSet => injection.pairs@[i]@.sourcemap.release_id == Some(release_id),
        }
}

/// Starts a run over the pairs that were read. A release that was fetched earlier is used as it
/// is; otherwise the run waits for the release flags. A build without pairs is refused. Chunk ids
/// are derived within the namespace in event mode, and taken from the source in symbol-set mode.
pub fn inject_impl(
    namespace: u128,
    source: IdSource,
    args: &InjectArgs,
    pairs: Vec<SourcePair>,
    existing_release: Option<&Release>,
) -> (result: Result<InjectStep, FailedRun>)
    ensures
        pairs@.len() == 0 ==> fails_with(result, ErrorView::NoSourceFiles),
        pairs@.len() > 0 ==> match existing_release {
            Some(release) => injects(
                (Setting {
                    release_mode: args.release_mode,
                    namespace,
                    issued: source.issued(),
                }),
                pairs::pair_views(pairs@),
                Some(release.id@),
                result,
            ),
            None => result == Ok::<InjectStep, FailedRun>(
                InjectStep::ResolveReleaseArgs(
                    Run { release_mode: args.release_mode, namespace, source, pairs },
                ),
            ),
        },
        existing_release matches Some(release) ==> carries_release(
            args.release_mode,
            release.id@,
            result,
        ),
{
    if pairs.len() == 0 {
        return Err(FailedRun { error: InjectError::NoSourceFiles, warnings: Vec::new() });
    }
    let run = Run { release_mode: args.release_mode, namespace, source, pairs };
    if existing_release.is_some() {
        run.inject(release::resolve_release_id(existing_release, None))
    } else {
        Ok(InjectStep::ResolveReleaseArgs(run))
    }
}

impl Run {
    fn inject(self, release_id: Option<String>) -> (result: Result<InjectStep, FailedRun>)
        ensures
            injects(
                self.setting(),
                pairs::pair_views(self.pairs@),
                text::opt_text(release_id),
                result,
            ),
            release_id matches Some(id) ==> carries_release(self.release_mode, id@, result),
    {
        let hashes_before = rewritten::source_content_hashes(self.pairs.as_slice());
        let ghost before = pairs::pair_views(self.pairs@);
        let mut warnings: Vec<String> = Vec::new();
        let injected = match self.release_mode {
            ReleaseMode::Event => {
                let release_id: Option<&str> = match &release_id {
                    Some(release_id) => Some(release_id.as_str()),
                    None => {
                        warnings.push(
                            "no release could be resolved, injecting chunk ids only — events will carry no release".to_string(),
                        );
                        None
                    },
                };
                let ghost missing = text::texts(warnings@);
                let mut ignored = inject::ignored_debug_ids(self.pairs.as_slice(), release_id);
                let ghost ignored_texts = text::texts(ignored@);
                warnings.append(&mut ignored);
                assert(text::texts(warnings@) =~= missing + ignored_texts);
                inject::inject_pairs(self.namespace, self.pairs, release_id)
            },
            ReleaseMode::SymbolSet => {
                let mut source = self.source;
                inject::stamp_pairs(&mut source, self.pairs, &release_id)
            },
        };
        assert(text::texts(warnings@) =~= mode_warnings(
            self.release_mode,
            before,
            text::opt_text(release_id),
        ));
        match injected {
            Ok(pairs) => {
                let rewritten = rewritten::rewritten_source_paths(pairs.as_slice(), &hashes_before);
                let injection = Injection { pairs, rewritten, warnings };
                proof {
                    if release_id is Some {
                        assert forall|i: int| 0 <= i < injection.pairs@.len() implies match self.release_mode {
                            ReleaseMode::Event => (
                            #[trigger] injection.pairs@[i])@.injected_release_id() == Some(
                                release_id->0@,
                            ),
                            ReleaseMode::SymbolSet => injection.pairs@[i]@.sourcemap.release_id
                                == Some(release_id->0@),
                        } by {
                            assert(pairs::pair_views(injection.pairs@).len() == before.len());
                            run_laws::law_run_puts_the_release_into_every_pair(
                                self.setting(),
                                before,
                                release_id->0@,
                                injection,
                                i,
                            );
                        }
                    }
                }
                Ok(InjectStep::Save(injection))
            },
            Err(error) => Err(FailedRun { error, warnings }),
        }
    }

    fn maps(&self) -> (maps: Vec<&SourceMapFile>)
        ensures
            release::map_views(maps@) == maps_of(pairs::pair_views(self.pairs@)),
    {
        let mut maps: Vec<&SourceMapFile> = Vec::new();
        let ghost expected = maps_of(pairs::pair_views(self.pairs@));
        let mut i: usize = 0;
        while i < self.pairs.len()
            invariant
                i <= self.pairs.len(),
                expected == maps_of(pairs::pair_views(self.pairs@)),
                release::map_views(maps@) =~= expected.take(i as int),
            decreases self.pairs.len() - i,
        {
            let ghost earlier = maps@;
            maps.push(&self.pairs[i].sourcemap);
            proof {
                assert(expected[i as int] == self.pairs@[i as int]@.sourcemap);
                assert(release::map_views(maps@) =~= release::map_views(earlier).push(
                    expected[i as int],
                ));
            }
            i += 1;
        }
        assert(expected.take(i as int) =~= expected);
        maps
    }

    /// Goes on with the release flags, filled from their property list: git is asked where it has
    /// to be, and otherwise the build is injected without a release.
    pub fn release_args_resolved(self, release: ReleaseArgs) -> (result: Result<
        InjectStep,
        FailedRun,
    >)
        ensures
            if asks_git(self.release_mode, release@, pairs::pair_views(self.pairs@)) {
                result == Ok::<InjectStep, FailedRun>(InjectStep::AskGit(self, release))
            } else {
                injects(self.setting(), pairs::pair_views(self.pairs@), None, result)
            },
            self.release_mode == ReleaseMode::Event || release.name is Some || release.version is Some
                || release.build is Some ==> result == Ok::<InjectStep, FailedRun>(
                InjectStep::AskGit(self, release),
            ),
    {
        let asks_git = match self.release_mode {
            ReleaseMode::Event => true,
            ReleaseMode::SymbolSet => release::needs_release(
                &release,
                self.maps().as_slice(),
            ),
        };
        if asks_git {
            Ok(InjectStep::AskGit(self, release))
        } else {
            self.inject(None)
        }
    }

    /// Goes on with what asking git gave: the release that flags and git identify is to be fetched
    /// or created, and where they identify none the build is injected without one.
    pub fn git_asked(self, release: ReleaseArgs, git: GitLookup) -> (result: Result<
        InjectStep,
        FailedRun,
    >)
        ensures
            match mode_release(
                self.release_mode,
                release@,
                release::git_view(git),
                pairs::pair_views(self.pairs@),
            ) {
                Err(expected) => fails_with(result, expected),
                Ok(Some(expected)) => {
                    &&& result is Ok
                    &&& result->Ok_0 is FetchRelease
                    &&& result->Ok_0->FetchRelease_0 == self
                    &&& result->Ok_0->FetchRelease_1@ == expected
                },
                Ok(None) => injects(
                    self.setting(),
                    pairs::pair_views(self.pairs@),
                    None,
                    result,
                ),
            },
            release.name is Some && (release.version is Some || release.build is Some) ==> {
                &&& result matches Ok(InjectStep::FetchRelease(run, builder))
                &&& run == self
                &&& builder@.fields == release@
            },
    {
        let lookup = match self.release_mode {
            ReleaseMode::Event => release::resolve_release(release, git),
            ReleaseMode::SymbolSet => release::get_release_for_maps(
                git,
                release,
                self.maps().as_slice(),
            ),
        };
        match lookup {
            Ok(Some(builder)) => Ok(InjectStep::FetchRelease(self, builder)),
            Ok(None) => self.inject(None),
            Err(error) => Err(FailedRun { error, warnings: Vec::new() }),
        }
    }

    /// Goes on with the release that was fetched or created.
    pub fn release_fetched(self, release: Release) -> (result: Result<InjectStep, FailedRun>)
        ensures
            injects(
                self.setting(),
                pairs::pair_views(self.pairs@),
                Some(release.id@),
                result,
            ),
            carries_release(self.release_mode, release.id@, result),
    {
        self.inject(release::resolve_release_id(None, Some(&release)))
    }
}

} // verus!
