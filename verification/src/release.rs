//! Which release a build belongs to.

use vstd::prelude::*;

use crate::args::ReleaseArgs;
use crate::error::{ErrorView, InjectError};
use crate::pairs;
use crate::pairs::SourceMapFile;
use crate::text;

verus! {

/// A release that the API knows.
#[derive(Debug)]
pub struct Release {
    pub id: String,
}

/// What git, or the CI environment in its place, says of the working tree.
#[derive(Debug)]
pub struct GitInfo {
    pub remote_url: Option<String>,
    pub repo_name: Option<String>,
    pub branch: String,
    pub commit_id: String,
}

/// A release to be fetched or created.
#[derive(Debug)]
pub struct ReleaseBuilder {
    pub name: Option<String>,
    pub version: Option<String>,
    pub build: Option<String>,
    pub git: Option<GitInfo>,
}

/// Release fields as the contracts see them.
#[verifier::ext_equal]
pub struct ReleaseFields {
    pub name: Option<Seq<char>>,
    pub version: Option<Seq<char>>,
    pub build: Option<Seq<char>>,
}

/// Git information as the contracts see it.
#[verifier::ext_equal]
pub struct GitView {
    pub remote_url: Option<Seq<char>>,
    pub repo_name: Option<Seq<char>>,
    pub branch: Seq<char>,
    pub commit_id: Seq<char>,
}

/// A release to be fetched or created, as the contracts see it.
#[verifier::ext_equal]
pub struct BuilderView {
    pub fields: ReleaseFields,
    pub git: Option<GitView>,
}

impl View for ReleaseArgs {
    type V = ReleaseFields;

    open spec fn view(&self) -> ReleaseFields {
        ReleaseFields {
            name: text::opt_text(self.name),
            version: text::opt_text(self.version),
            build: text::opt_text(self.build),
        }
    }
}

impl View for GitInfo {
    type V = GitView;

    open spec fn view(&self) -> GitView {
        GitView {
            remote_url: text::opt_text(self.remote_url),
            repo_name: text::opt_text(self.repo_name),
            branch: self.branch@,
            commit_id: self.commit_id@,
        }
    }
}

impl View for ReleaseBuilder {
    type V = BuilderView;

    open spec fn view(&self) -> BuilderView {
        BuilderView {
            fields: ReleaseFields {
                name: text::opt_text(self.name),
                version: text::opt_text(self.version),
                build: text::opt_text(self.build),
            },
            git: match self.git {
                Some(info) => Some(info@),
                None => None,
            },
        }
    }
}

impl ReleaseFields {
    /// Whether any field is given.
    pub open spec fn any(self) -> bool {
        self.name is Some || self.version is Some || self.build is Some
    }
}

impl BuilderView {
    /// Whether the release has a name.
    pub open spec fn has_name(self) -> bool {
        self.fields.name is Some
    }

    /// Whether the release has a version: one of its own, or a build to stand for it.
    pub open spec fn has_version(self) -> bool {
        self.fields.version is Some || self.fields.build is Some
    }

    /// Whether the release is identified.
    pub open spec fn can_create(self) -> bool {
        self.has_name() && self.has_version()
    }

    /// The release with git information, which also fills in the name and the version where they
    /// are left out.
    pub open spec fn with_git(self, info: GitView) -> BuilderView {
        BuilderView {
            fields: ReleaseFields {
                name: if self.has_name() { self.fields.name } else { info.repo_name },
                version: if self.has_version() {
                    self.fields.version
                } else {
                    Some(info.commit_id)
                },
                build: self.fields.build,
            },
            git: Some(info),
        }
    }
}

/// What asking git gave: information, nothing, or a failure.
pub type GitLookup = Result<Option<GitInfo>, String>;

/// What asking git gave, as the contracts see it.
pub open spec fn git_view(git: GitLookup) -> Result<Option<GitView>, Seq<char>> {
    match git {
        Ok(Some(info)) => Ok(Some(info@)),
        Ok(None) => Ok(None),
        Err(cause) => Err(cause@),
    }
}

/// The release that flags name.
pub open spec fn flagged(fields: ReleaseFields) -> BuilderView {
    BuilderView { fields, git: None }
}

/// The release after git was asked, or why there is none. Git matters only where the fields do not
/// identify a release by themselves; where nothing was given, there need be none.
pub open spec fn with_lookup(
    builder: BuilderView,
    git: Result<Option<GitView>, Seq<char>>,
) -> Result<BuilderView, ErrorView> {
    match git {
        Ok(Some(info)) => Ok(builder.with_git(info)),
        Ok(None) => if !builder.can_create() && (builder.has_name() || builder.has_version()) {
            Err(ErrorView::IncompleteRelease)
        } else {
            Ok(builder)
        },
        Err(cause) => if builder.can_create() {
            Ok(builder)
        } else {
            Err(ErrorView::GitInfo { cause })
        },
    }
}

/// The line that warns of a failure of git that is not fatal, because the flags identify a release
/// by themselves.
pub open spec fn skipped_git_line(
    fields: ReleaseFields,
    git: Result<Option<GitView>, Seq<char>>,
) -> Option<Seq<char>> {
    match git {
        Err(cause) => if flagged(fields).can_create() {
            Some("Skipping git metadata after failing to determine git info: "@ + cause)
        } else {
            None
        },
        Ok(_) => None,
    }
}

/// The release to fetch or create for these flags, where flags and git identify one.
pub open spec fn resolved(
    fields: ReleaseFields,
    git: Result<Option<GitView>, Seq<char>>,
) -> Result<Option<BuilderView>, ErrorView> {
    match with_lookup(flagged(fields), git) {
        Ok(builder) => if builder.can_create() {
            Ok(Some(builder))
        } else {
            Ok(None)
        },
        Err(error) => Err(error),
    }
}

/// Whether source maps need a release: flags name one, or a map has none.
pub open spec fn maps_need_release(
    fields: ReleaseFields,
    maps: Seq<pairs::SourceMapView>,
) -> bool {
    fields.any() || exists|i: int| 0 <= i < maps.len() && (#[trigger] maps[i]).release_id is None
}

/// The release to fetch or create for source maps, where they need one and flags and git identify
/// it.
pub open spec fn release_for_maps(
    fields: ReleaseFields,
    git: Result<Option<GitView>, Seq<char>>,
    maps: Seq<pairs::SourceMapView>,
) -> Result<Option<BuilderView>, ErrorView> {
    if maps_need_release(fields, maps) {
        resolved(fields, git)
    } else {
        Ok(None)
    }
}

/// The source maps of a list as the contracts see them.
pub open spec fn map_views(maps: Seq<&SourceMapFile>) -> Seq<pairs::SourceMapView> {
    maps.map_values(|map: &SourceMapFile| map@)
}

/// The outcome of looking for a release, as the contracts see it.
pub open spec fn lookup_view(result: Result<Option<ReleaseBuilder>, InjectError>) -> Result<
    Option<BuilderView>,
    ErrorView,
> {
    match result {
        Ok(Some(builder)) => Ok(Some(builder@)),
        Ok(None) => Ok(None),
        Err(error) => Err(error@),
    }
}

impl vstd::std_specs::convert::FromSpecImpl<ReleaseArgs> for ReleaseBuilder {
    open spec fn obeys_from_spec() -> bool {
        true
    }

    open spec fn from_spec(args: ReleaseArgs) -> ReleaseBuilder {
        ReleaseBuilder { name: args.name, version: args.version, build: args.build, git: None }
    }
}

impl From<ReleaseArgs> for ReleaseBuilder {
    fn from(args: ReleaseArgs) -> (builder: ReleaseBuilder) {
        ReleaseBuilder { name: args.name, version: args.version, build: args.build, git: None }
    }
}

impl ReleaseBuilder {
    /// Whether the release has a name.
    pub fn has_name(&self) -> (found: bool)
        ensures
            found == self@.has_name(),
    {
        self.name.is_some()
    }

    /// Whether the release has a version, or a build to stand for it.
    pub fn has_version(&self) -> (found: bool)
        ensures
            found == self@.has_version(),
    {
        self.version.is_some() || self.build.is_some()
    }

    /// Whether the release is identified.
    pub fn can_create(&self) -> (enough: bool)
        ensures
            enough == self@.can_create(),
    {
        self.has_name() && self.has_version()
    }

    /// Adds git information, and fills in the name and the version where they are left out.
    pub fn with_git(&mut self, info: GitInfo)
        ensures
            final(self)@ == old(self)@.with_git(info@),
    {
        if !self.has_name() {
            self.name = text::copy_opt(&info.repo_name);
        }
        if !self.has_version() {
            self.version = Some(info.commit_id.clone());
        }
        self.git = Some(info);
    }
}

/// Adds what asking git gave to a release. A failure of git is fatal only where the release
/// fields need git, and so is its absence where some but not all fields were given.
pub fn add_git_info_to_release_builder(git: GitLookup, builder: &mut ReleaseBuilder) -> (result:
    Result<(), InjectError>)
    ensures
        match (result, with_lookup(old(builder)@, git_view(git))) {
            (Ok(_), Ok(expected)) => final(builder)@ == expected,
            (Err(error), Err(expected)) => error@ == expected && final(builder)@ == old(builder)@,
            _ => false,
        },
{
    let needs_git_for_release_fields = !builder.can_create();
    let release_fields_were_provided = builder.has_name() || builder.has_version();
    match git {
        Ok(Some(info)) => {
            builder.with_git(info);
            Ok(())
        },
        Ok(None) => if needs_git_for_release_fields && release_fields_were_provided {
            Err(InjectError::IncompleteRelease)
        } else {
            Ok(())
        },
        Err(cause) => if needs_git_for_release_fields {
            Err(InjectError::GitInfo { cause })
        } else {
            Ok(())
        },
    }
}

/// The line that warns where git failed and its metadata is skipped, because the flags identify a
/// release by themselves.
pub fn warn_about_skipped_git(release: &ReleaseArgs, git: &GitLookup) -> (line: Option<String>)
    ensures
        text::opt_text(line) == skipped_git_line(release@, git_view(*git)),
{
    match git {
        Err(cause) => {
            if release.name.is_some() && (release.version.is_some() || release.build.is_some()) {
                Some(
                    "Skipping git metadata after failing to determine git info: ".to_string().concat(
                        cause.as_str(),
                    ),
                )
            } else {
                None
            }
        },
        Ok(_) => None,
    }
}

/// The release to fetch or create: the flags, with whichever of name and version they leave out
/// filled in from git. There is none where neither identifies one.
pub fn resolve_release(release: ReleaseArgs, git: GitLookup) -> (result: Result<
    Option<ReleaseBuilder>,
    InjectError,
>)
    ensures
        lookup_view(result) == resolved(release@, git_view(git)),
        release.name is Some && (release.version is Some || release.build is Some) ==> {
            &&& result matches Ok(Some(builder))
            &&& builder@.fields == release@
        },
{
    let mut builder = ReleaseBuilder::from(release);
    match add_git_info_to_release_builder(git, &mut builder) {
        Ok(()) => {},
        Err(error) => {
            return Err(error);
        },
    }
    if builder.can_create() {
        Ok(Some(builder))
    } else {
        Ok(None)
    }
}

/// Whether source maps need a release, so that git has to be asked: flags name one, or a map has
/// none.
pub fn needs_release(release: &ReleaseArgs, maps: &[&SourceMapFile]) -> (needed: bool)
    ensures
        needed == maps_need_release(release@, map_views(maps@)),
        release.name is Some || release.version is Some || release.build is Some ==> needed,
        release.name is None && release.version is None && release.build is None ==> needed
            == exists|i: int| 0 <= i < maps@.len() && (#[trigger] maps@[i]).release_id is None,
{
    if release.name.is_some() || release.version.is_some() || release.build.is_some() {
        return true;
    }
    let ghost views = map_views(maps@);
    let mut i: usize = 0;
    while i < maps.len()
        invariant
            i <= maps.len(),
            !release@.any(),
            views == map_views(maps@),
            release.name is None && release.version is None && release.build is None,
            forall|k: int| 0 <= k < i ==> (#[trigger] maps@[k]).release_id is Some,
            forall|k: int| 0 <= k < i ==> (#[trigger] views[k]).release_id is Some,
        decreases maps.len() - i,
    {
        assert(views[i as int] == maps@[i as int]@);
        if !maps[i].has_release_id() {
            assert(views[i as int].release_id is None);
            return true;
        }
        i += 1;
    }
    false
}

/// The release to fetch or create for source maps: none where they need none, otherwise what flags
/// and git identify.
pub fn get_release_for_maps(
    git: GitLookup,
    release: ReleaseArgs,
    maps: &[&SourceMapFile],
) -> (result: Result<Option<ReleaseBuilder>, InjectError>)
    ensures
        lookup_view(result) == release_for_maps(release@, git_view(git), map_views(maps@)),
        release.name is Some && (release.version is Some || release.build is Some) ==> {
            &&& result matches Ok(Some(builder))
            &&& builder@.fields == release@
        },
{
    if needs_release(&release, maps) {
        resolve_release(release, git)
    } else {
        Ok(None)
    }
}

/// The id of the release that was fetched earlier, if one was; otherwise that of the release that
/// flags and git identify, if they do.
pub fn resolve_release_id(
    existing_release: Option<&Release>,
    resolved_release: Option<&Release>,
) -> (id: Option<String>)
    ensures
        text::opt_text(id) == match (existing_release, resolved_release) {
            (Some(release), _) => Some(release.id@),
            (None, Some(release)) => Some(release.id@),
            (None, None) => None,
        },
        existing_release matches Some(release) ==> text::opt_text(id) == Some(release.id@),
        existing_release is None ==> (id is Some <==> resolved_release is Some),
{
    match existing_release {
        Some(release) => Some(release.id.clone()),
        None => match resolved_release {
            Some(release) => Some(release.id.clone()),
            None => None,
        },
    }
}

} // verus!
