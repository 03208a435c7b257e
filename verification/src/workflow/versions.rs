//! Listing versions and choosing one.

use vstd::prelude::*;

use super::images::failed;
use crate::domain::profile::Profile;
use crate::domain::version::{version_text, Version};
use crate::requests::ShowRcsData;
use crate::session::AppCore;
use crate::state::{log_text, profile_reset, switched, AppState, LogLine, Notification,
    StateView, Task, UIState};
use crate::text::scan::{contains, has_part, joined, texts};

verus! {

/// The first series that is listed.
pub const MIN_SERIES: u8 = 21;

/// A version is listed: one of a series that is not too old, and no release
/// candidate unless these are wanted.
pub open spec fn offered(v: Version, show_rcs: bool) -> bool {
    (show_rcs || v.rc is None) && v.major >= MIN_SERIES
}

/// The versions that are listed.
pub open spec fn offered_versions(s: Seq<Version>, show_rcs: bool) -> Seq<Version> {
    s.filter(|v: Version| offered(v, show_rcs))
}

/// The texts of versions.
pub open spec fn version_texts(s: Seq<Version>) -> Seq<Seq<char>> {
    s.map_values(|v: Version| version_text(v))
}

/// The versions that are listed, as texts.
pub fn filter_versions(versions: &Vec<Version>, show_rcs: bool) -> (r: Vec<String>)
    ensures
        texts(r@) == version_texts(offered_versions(versions@, show_rcs)),
{
    let ghost keep = |v: Version| offered(v, show_rcs);
    let mut r: Vec<String> = Vec::new();
    let mut i: usize = 0;
    assert(texts(r@) =~= version_texts(versions@.take(0).filter(keep))) by {
        reveal(Seq::filter);
    }
    while i < versions.len()
        invariant
            i <= versions.len(),
            keep == (|v: Version| offered(v, show_rcs)),
            texts(r@) == version_texts(versions@.take(i as int).filter(keep)),
        decreases versions.len() - i,
    {
        let ghost s = versions@.take(i as int);
        let ghost r0 = texts(r@);
        let v: Version = versions[i];
        if (show_rcs || v.rc.is_none()) && v.major >= MIN_SERIES {
            r.push(v.to_string());
            assert(texts(r@) =~= r0.push(version_text(v)));
            assert(version_texts(s.filter(keep).push(v)) =~= version_texts(s.filter(keep)).push(
                version_text(v),
            ));
        }
        i += 1;
        assert(versions@.take(i as int) == s.push(v));
        assert(s.push(v).drop_last() == s);
        reveal(Seq::filter);
    }
    assert(versions@.take(versions@.len() as int) == versions@);
    r
}

/// The window after release candidates were switched on or off. A selected
/// candidate that is no longer listed is dropped, with all that belongs to it.
pub open spec fn toggled(
    s: StateView,
    versions: Seq<Version>,
    show_rcs: bool,
    selected: Seq<char>,
) -> StateView {
    let listed = StateView {
        versions: version_texts(offered_versions(versions, show_rcs)),
        ..s
    };
    if !show_rcs && has_part(selected, "-rc"@) {
        profile_reset(
            StateView { profiles: seq![], search_text: seq![], selected_version: seq![], ..listed },
        )
    } else {
        listed
    }
}

/// Shows or hides release candidates.
pub fn show_rcs_toggled(state: &mut AppState, core: &AppCore, data: &ShowRcsData)
    ensures
        final(state)@ == toggled(
            old(state)@,
            core.versions@,
            data.show_rcs,
            data.version@,
        ),
{
    let ghost s0 = state@;
    state.versions = filter_versions(&core.versions, data.show_rcs);
    let ghost listed = StateView {
        versions: version_texts(offered_versions(core.versions@, data.show_rcs)),
        ..s0
    };
    assert(state@ =~= listed);
    if !data.show_rcs && contains(data.version.as_str(), "-rc") {
        state.profiles = Vec::new();
        state.search_text = String::new();
        state.selected_version = String::new();
        assert(state@ =~= (StateView {
            profiles: seq![],
            search_text: seq![],
            selected_version: seq![],
            ..listed
        }));
        state.reset_profile();
    }
}

/// Shows that the profiles of a version are being loaded. Gives the version.
pub fn version_changed(state: &mut AppState, version: &str) -> (r: Version)
    ensures
        r == crate::domain::version::version_of(version@),
        final(state)@ == switched(old(state)@, Task::Profiles(r)),
{
    let v: Version = Version::from(version);
    state.switch_to(UIState::LoadingProfiles(v));
    v
}

/// The window with the profiles of a version loaded.
pub open spec fn profiles_ready(s: StateView) -> StateView {
    switched(StateView { profiles: seq![], ..profile_reset(s) }, Task::Rest(seq![]))
}

/// Takes the profiles of a version in.
pub fn profiles_loaded(state: &mut AppState, core: &mut AppCore, loaded: Vec<Profile>)
    ensures
        final(state)@ == profiles_ready(old(state)@),
        final(core).profiles == loaded,
        final(core).config == old(core).config,
        final(core).packages == old(core).packages,
        final(core).versions == old(core).versions,
{
    core.profiles = loaded;
    state.reset_profile();
    let ghost s1 = state@;
    state.profiles = Vec::new();
    assert(state@ =~= (StateView { profiles: seq![], ..s1 }));
    state.switch_to(UIState::Idle(None));
}

/// The window when the profiles of a version could not be loaded.
pub open spec fn profiles_missing(s: StateView, v: Version) -> StateView {
    failed(
        StateView { profiles: seq![], profiles_fetch_failed: true, ..s },
        "Failed to fetch profiles for version "@ + version_text(v),
    )
}

/// Shows that the profiles of a version could not be loaded.
pub fn profiles_not_loaded(state: &mut AppState, version: &Version) -> (r: Option<LogLine>)
    ensures
        final(state)@ == profiles_missing(old(state)@, *version),
        r matches Some(line) && line.to_stderr && line.text@ == log_text(
            Notification::Error,
            "Failed to fetch profiles for version "@ + version_text(*version),
        ),
{
    let ghost s0 = state@;
    state.profiles = Vec::new();
    state.profiles_fetch_failed = true;
    assert(state@ =~= (StateView { profiles: seq![], profiles_fetch_failed: true, ..s0 }));
    let msg: String = joined("Failed to fetch profiles for version ", version.to_string().as_str());
    super::images::show_failure(state, msg.as_str())
}

/// With release candidates more is listed, and never less; without them no
/// candidate is.
pub proof fn law_offered(v: Version)
    ensures
        offered(v, false) ==> offered(v, true),
        offered(v, false) ==> v.rc is None,
        offered(v, true) <==> v.major >= MIN_SERIES,
{
}

/// Every version of a series that is not too old is offered, whatever its minor
/// number and patch level, unless it is a candidate and candidates are hidden;
/// no other version is.
pub proof fn law_offered_exact(v: Version, show_rcs: bool)
    ensures
        v.major >= 21 && v.rc is None ==> offered(v, show_rcs),
        v.major >= 21 && show_rcs ==> offered(v, show_rcs),
        v.major < 21 ==> !offered(v, show_rcs),
        v.rc is Some && !show_rcs ==> !offered(v, show_rcs),
{
}

/// The versions are listed in the order in which they come, each that is
/// offered by its text, and no other.
pub proof fn law_listed(s: Seq<Version>, v: Version, show_rcs: bool)
    ensures
        version_texts(offered_versions(Seq::empty(), show_rcs)) == Seq::<Seq<char>>::empty(),
        v.major >= 21 && (show_rcs || v.rc is None) ==> version_texts(
            offered_versions(s.push(v), show_rcs),
        ) == version_texts(offered_versions(s, show_rcs)).push(version_text(v)),
        v.major < 21 || (v.rc is Some && !show_rcs) ==> version_texts(
            offered_versions(s.push(v), show_rcs),
        ) == version_texts(offered_versions(s, show_rcs)),
{
    reveal(Seq::filter);
    assert(s.push(v).drop_last() =~= s);
    assert(offered_versions(Seq::empty(), show_rcs) =~= Seq::<Version>::empty());
    assert(version_texts(Seq::empty()) =~= Seq::<Seq<char>>::empty());
    let a = offered_versions(s, show_rcs);
    assert(version_texts(a.push(v)) =~= version_texts(a).push(version_text(v)));
}

/// A version that is among those loaded is listed exactly where it is offered.
pub proof fn law_listed_member(s: Seq<Version>, v: Version, show_rcs: bool)
    requires
        s.contains(v),
    ensures
        offered_versions(s, show_rcs).contains(v) <==> v.major >= 21 && (show_rcs || v.rc is None),
        v.major >= 21 && v.rc is None ==> version_texts(offered_versions(s, show_rcs)).contains(
            version_text(v),
        ),
    decreases s.len(),
{
    reveal(Seq::filter);
    let t = s.drop_last();
    let a = offered_versions(t, show_rcs);
    let r = offered_versions(s, show_rcs);
    if s.last() == v {
        if offered(v, show_rcs) {
            assert(r[a.len() as int] == v);
        } else {
            lemma_offered_only(s, v, show_rcs);
        }
    } else {
        let i = choose|i: int| 0 <= i < s.len() && s[i] == v;
        assert(t[i] == v);
        law_listed_member(t, v, show_rcs);
        if a.contains(v) {
            let k = choose|k: int| 0 <= k < a.len() && a[k] == v;
            assert(r[k] == v);
        } else {
            lemma_offered_only(s, v, show_rcs);
        }
    }
    if r.contains(v) {
        let k = choose|k: int| 0 <= k < r.len() && r[k] == v;
        assert(version_texts(r)[k] == version_text(v));
    }
}

proof fn lemma_offered_only(s: Seq<Version>, v: Version, show_rcs: bool)
    requires
        !offered(v, show_rcs),
    ensures
        !offered_versions(s, show_rcs).contains(v),
    decreases s.len(),
{
    reveal(Seq::filter);
    if s.len() > 0 {
        let a = offered_versions(s.drop_last(), show_rcs);
        let r = offered_versions(s, show_rcs);
        lemma_offered_only(s.drop_last(), v, show_rcs);
        if r.contains(v) {
            let k = choose|k: int| 0 <= k < r.len() && r[k] == v;
            if k < a.len() {
                assert(a[k] == v);
            }
        }
    }
}

/// Switching candidates on or off lists the versions anew. The selection goes
/// only where candidates are hidden and a candidate is selected; otherwise
/// nothing else changes.
pub proof fn law_toggled(
    s: StateView,
    versions: Seq<Version>,
    show_rcs: bool,
    selected: Seq<char>,
)
    ensures
        ({
            let w = toggled(s, versions, show_rcs, selected);
            let dropped = !show_rcs && has_part(selected, "-rc"@);
            &&& w.versions == version_texts(offered_versions(versions, show_rcs))
            &&& !dropped ==> (StateView { versions: s.versions, ..w }) == s
            &&& dropped ==> w.selected_version.len() == 0 && w.selected_id.len() == 0
                && w.search_text.len() == 0 && w.profiles.len() == 0 && w.packages_text.len() == 0
                && !w.image_exists
            &&& w.busy == s.busy && w.build_path_text == s.build_path_text
        }),
{
}

/// Profiles that were loaded clear the selection and the names found, and leave
/// the version and the query. Where they could not be loaded, that is marked,
/// and the version is named.
pub proof fn law_profiles_shown(s: StateView, v: Version)
    ensures
        profiles_ready(s).profiles.len() == 0,
        profiles_ready(s).selected_id.len() == 0,
        profiles_ready(s).packages_text.len() == 0,
        profiles_ready(s).versions == s.versions,
        profiles_ready(s).selected_version == s.selected_version,
        profiles_ready(s).search_text == s.search_text,
        !profiles_ready(s).profiles_fetch_failed,
        !profiles_ready(s).notification_is_error,
        profiles_missing(s, v).profiles.len() == 0,
        profiles_missing(s, v).profiles_fetch_failed,
        profiles_missing(s, v).notification == "Failed to fetch profiles for version "@
            + version_text(v),
        profiles_missing(s, v).versions == s.versions,
        profiles_missing(s, v).selected_version == s.selected_version,
{
}

} // verus!
