//! What holds of the choice of a release as a whole.

use vstd::prelude::*;

use crate::error::ErrorView;
use crate::pairs::SourceMapView;
use crate::release;
use crate::release::{BuilderView, GitView, ReleaseFields};

verus! {

/// Flags that identify a release do so whatever git says, and git changes none of them.
pub proof fn law_explicit_release_fields_need_no_git(
    fields: ReleaseFields,
    git: Result<Option<GitView>, Seq<char>>,
)
    requires
        release::flagged(fields).can_create(),
    ensures
        release::resolved(fields, git) is Ok,
        release::resolved(fields, git)->Ok_0 is Some,
        release::resolved(fields, git)->Ok_0->0.fields == fields,
{
}

/// Git fills in what flags leave out, and changes nothing that they give.
pub proof fn law_git_fills_in_only_what_flags_leave_out(builder: BuilderView, info: GitView)
    ensures
        builder.fields.name is Some ==> builder.with_git(info).fields.name == builder.fields.name,
        builder.fields.version is Some ==> builder.with_git(info).fields.version
            == builder.fields.version,
        builder.with_git(info).fields.build == builder.fields.build,
        builder.can_create() ==> builder.with_git(info).can_create(),
        builder.with_git(info).has_version(),
{
}

/// Without git, flags that name something but do not identify a release are refused, and flags
/// that name nothing lead to no release.
pub proof fn law_missing_git_is_fatal_only_for_incomplete_flags(fields: ReleaseFields)
    ensures
        release::resolved(fields, Ok(None)) is Err <==> fields.any() && !release::flagged(
            fields,
        ).can_create(),
        release::resolved(fields, Ok(None)) is Err ==> release::resolved(fields, Ok(None))->Err_0
            == ErrorView::IncompleteRelease,
        !fields.any() ==> release::resolved(fields, Ok(None)) == Ok::<
            Option<BuilderView>,
            ErrorView,
        >(None),
{
}

/// A failure of git is fatal exactly where the flags do not identify a release.
pub proof fn law_git_failure_is_fatal_only_where_git_is_needed(
    fields: ReleaseFields,
    cause: Seq<char>,
)
    ensures
        release::resolved(fields, Err(cause)) is Err <==> !release::flagged(fields).can_create(),
        release::resolved(fields, Err(cause)) is Err ==> release::resolved(
            fields,
            Err(cause),
        )->Err_0 == (ErrorView::GitInfo { cause }),
{
}

/// Both modes and the command that resolves a release by itself land on the same release, wherever
/// source maps need one.
pub proof fn law_every_way_lands_on_the_same_release(
    fields: ReleaseFields,
    git: Result<Option<GitView>, Seq<char>>,
    maps: Seq<SourceMapView>,
)
    requires
        release::maps_need_release(fields, maps),
    ensures
        release::release_for_maps(fields, git, maps) == release::resolved(fields, git),
{
}

/// Maps that all have a release need none where flags name none, whatever git says.
pub proof fn law_stamped_maps_need_no_release(
    fields: ReleaseFields,
    git: Result<Option<GitView>, Seq<char>>,
    maps: Seq<SourceMapView>,
)
    requires
        !fields.any(),
        forall|i: int| 0 <= i < maps.len() ==> (#[trigger] maps[i]).release_id is Some,
    ensures
        release::release_for_maps(fields, git, maps) == Ok::<Option<BuilderView>, ErrorView>(None),
{
}

/// The release that is to be fetched or created always has a name and a version.
pub proof fn law_resolved_releases_are_identified(
    fields: ReleaseFields,
    git: Result<Option<GitView>, Seq<char>>,
)
    ensures
        release::resolved(fields, git) matches Ok(Some(builder)) ==> builder.can_create(),
{
}

/// Source maps need a release exactly where a flag gives a name, a version or a build, or some map
/// has no release id.
pub proof fn law_release_is_needed_for_flags_and_bare_maps(
    fields: ReleaseFields,
    maps: Seq<SourceMapView>,
)
    ensures
        release::maps_need_release(fields, maps) <==> {
            ||| fields.name is Some
            ||| fields.version is Some
            ||| fields.build is Some
            ||| !(forall|i: int| 0 <= i < maps.len() ==> (#[trigger] maps[i]).release_id is Some)
        },
{
}

/// Flags that give a name, a version or a build decide the release of source maps, however the maps
/// are stamped: the maps get what flags and git identify.
pub proof fn law_given_flags_decide_for_every_map(
    fields: ReleaseFields,
    git: Result<Option<GitView>, Seq<char>>,
    maps: Seq<SourceMapView>,
)
    requires
        fields.name is Some || fields.version is Some || fields.build is Some,
    ensures
        release::release_for_maps(fields, git, maps) == release::resolved(fields, git),
{
}

/// A map without a release id needs what flags and git identify, whatever the other maps have.
pub proof fn law_bare_map_needs_a_release(
    fields: ReleaseFields,
    git: Result<Option<GitView>, Seq<char>>,
    maps: Seq<SourceMapView>,
    i: int,
)
    requires
        0 <= i < maps.len(),
        maps[i].release_id is None,
    ensures
        release::release_for_maps(fields, git, maps) == release::resolved(fields, git),
{
}

/// Where no flag gives anything and every map has a release id, there is nothing to fetch.
pub proof fn law_stamped_maps_without_flags_fetch_nothing(
    fields: ReleaseFields,
    git: Result<Option<GitView>, Seq<char>>,
    maps: Seq<SourceMapView>,
)
    requires
        fields.name is None,
        fields.version is None,
        fields.build is None,
        forall|i: int| 0 <= i < maps.len() ==> (#[trigger] maps[i]).release_id is Some,
    ensures
        release::release_for_maps(fields, git, maps) == Ok::<Option<BuilderView>, ErrorView>(None),
{
}

/// Flags with a name and a version, or a build in its place, are the release to fetch or create,
/// as they are and whatever git says. What git knows goes along.
pub proof fn law_complete_flags_are_the_release(
    fields: ReleaseFields,
    git: Result<Option<GitView>, Seq<char>>,
)
    requires
        fields.name is Some,
        fields.version is Some || fields.build is Some,
    ensures
        release::resolved(fields, git) matches Ok(Some(builder)) && {
            &&& builder.fields.name == fields.name
            &&& builder.fields.version == fields.version
            &&& builder.fields.build == fields.build
            &&& builder.git == match git {
                Ok(info) => info,
                Err(_) => None,
            }
        },
{
}

/// Flags that git has to complete get their name from the repository and their version from the
/// commit, each only where they leave it out. They stay without a release exactly where neither
/// gives a name.
pub proof fn law_git_completes_the_flags(fields: ReleaseFields, info: GitView)
    ensures
        release::resolved(fields, Ok(Some(info))) is Ok,
        release::resolved(fields, Ok(Some(info)))->Ok_0 is None <==> fields.name is None
            && info.repo_name is None,
        release::resolved(fields, Ok(Some(info)))->Ok_0 matches Some(builder) ==> {
            &&& fields.name is Some ==> builder.fields.name == fields.name
            &&& fields.name is None ==> builder.fields.name == info.repo_name
            &&& fields.version is Some || fields.build is Some ==> builder.fields.version
                == fields.version
            &&& fields.version is None && fields.build is None ==> builder.fields.version == Some(
                info.commit_id,
            )
            &&& builder.fields.build == fields.build
            &&& builder.git == Some(info)
        },
{
}

/// Without git, flags that give something but not both a name and a version or build are refused,
/// and flags that give nothing lead to no release.
pub proof fn law_missing_git_refuses_half_given_flags(fields: ReleaseFields)
    requires
        fields.name is None || (fields.version is None && fields.build is None),
    ensures
        fields.name is Some || fields.version is Some || fields.build is Some ==> release::resolved(
            fields,
            Ok(None),
        ) == Err::<Option<BuilderView>, ErrorView>(ErrorView::IncompleteRelease),
        fields.name is None && fields.version is None && fields.build is None
            ==> release::resolved(fields, Ok(None)) == Ok::<Option<BuilderView>, ErrorView>(None),
{
}

/// A failure of git is passed on where the flags do not give both a name and a version or build.
pub proof fn law_failing_git_is_passed_on(fields: ReleaseFields, cause: Seq<char>)
    requires
        fields.name is None || (fields.version is None && fields.build is None),
    ensures
        release::resolved(fields, Err(cause)) == Err::<Option<BuilderView>, ErrorView>(
            ErrorView::GitInfo { cause },
        ),
{
}

/// What asking git makes of a release that is being put together, whichever fields it has already.
pub proof fn law_lookup_adds_to_any_builder(
    builder: BuilderView,
    git: Result<Option<GitView>, Seq<char>>,
)
    ensures
        ({
            let named = builder.fields.name is Some;
            let versioned = builder.fields.version is Some || builder.fields.build is Some;
            let found = release::with_lookup(builder, git);
            match git {
                Ok(Some(info)) => {
                    &&& found matches Ok(after)
                    &&& after.git == Some(info)
                    &&& after.fields.build == builder.fields.build
                    &&& named ==> after.fields.name == builder.fields.name
                    &&& !named ==> after.fields.name == info.repo_name
                    &&& versioned ==> after.fields.version == builder.fields.version
                    &&& !versioned ==> after.fields.version == Some(info.commit_id)
                },
                Ok(None) => if named == versioned {
                    found == Ok::<BuilderView, ErrorView>(builder)
                } else {
                    found == Err::<BuilderView, ErrorView>(ErrorView::IncompleteRelease)
                },
                Err(cause) => if named && versioned {
                    found == Ok::<BuilderView, ErrorView>(builder)
                } else {
                    found == Err::<BuilderView, ErrorView>(ErrorView::GitInfo { cause })
                },
            }
        }),
{
}

/// A failure of git is announced exactly where it is not fatal, and the line gives its cause.
pub proof fn law_skipped_git_is_announced(
    fields: ReleaseFields,
    git: Result<Option<GitView>, Seq<char>>,
)
    ensures
        release::skipped_git_line(fields, git) is Some <==> git is Err && release::resolved(
            fields,
            git,
        ) is Ok,
        release::skipped_git_line(fields, git) matches Some(line) ==> line
            == "Skipping git metadata after failing to determine git info: "@ + git->Err_0,
{
}

} // verus!
