//! What happens when the application starts.

use std::path::PathBuf;
use vstd::prelude::*;

use super::images::{failed, show_failure};
use super::versions::{filter_versions, offered_versions, version_texts};
use crate::domain::profile::Profile;
use crate::domain::version::{law_version_round_trip, version_text, Version};
use crate::paths::{lossy_path, path_lossy};
use crate::session::AppCore;
use crate::state::{log_text, notified, switched, AppState, LogLine, Notification, StateView, Task,
    UIState};
use crate::text::scan::{joined, same, texts};

verus! {

/// Whether the command line asks for the version alone.
pub fn wants_version(args: &Vec<String>) -> (r: bool)
    ensures
        r == (texts(args@).contains("--version"@) || texts(args@).contains("-v"@)),
{
    let mut i: usize = 0;
    while i < args.len()
        invariant
            i <= args.len(),
            forall|k: int|
                0 <= k < i ==> #[trigger] texts(args@)[k] != "--version"@ && texts(args@)[k]
                    != "-v"@,
        decreases args.len() - i,
    {
        assert(texts(args@)[i as int] == args@[i as int]@);
        if same(args[i].as_str(), "--version") || same(args[i].as_str(), "-v") {
            return true;
        }
        i += 1;
    }
    false
}

/// The window when it opens.
pub open spec fn opened(s: StateView, build_path: PathBuf, version: Seq<char>) -> StateView {
    switched(
        StateView { build_path_text: path_lossy(build_path), version, ..s },
        Task::Busy { name: "Fetching versions"@, bar: true },
    )
}

/// Shows the settings and that versions are being loaded.
pub fn window_opened(state: &mut AppState, build_path: &PathBuf, version: &str)
    ensures
        final(state)@ == opened(old(state)@, *build_path, version@),
{
    let ghost s0 = state@;
    state.build_path_text = lossy_path(build_path);
    state.version = version.to_string();
    assert(state@ =~= (StateView {
        build_path_text: path_lossy(*build_path),
        version: version@,
        ..s0
    }));
    state.switch_to(UIState::LoadingVersions);
}

/// The notice that no container engine was found.
pub const NO_ENGINE: &'static str =
    "Podman or Docker not found. Please ensure either of them is running.";

/// Shows that no container engine was found.
pub fn engine_missing(state: &mut AppState) -> (r: Option<LogLine>)
    ensures
        final(state)@ == notified(
            switched(old(state)@, Task::Rest("No container engines found"@)),
            Notification::Error,
            Some(NO_ENGINE@),
        ),
        r matches Some(line) && line.to_stderr && line.text@ == log_text(
            Notification::Error,
            NO_ENGINE@,
        ),
{
    state.switch_to(UIState::Idle(Some("No container engines found".to_string())));
    state.set_notification(Notification::Error, Some(NO_ENGINE))
}

/// Shows that versions could not be loaded.
pub fn versions_not_loaded(state: &mut AppState, reason: &str) -> (r: Option<LogLine>)
    ensures
        final(state)@ == notified(
            old(state)@,
            Notification::Error,
            Some("Initial load error: "@ + reason@),
        ),
        r matches Some(line) && line.to_stderr && line.text@ == log_text(
            Notification::Error,
            "Initial load error: "@ + reason@,
        ),
{
    let msg: String = joined("Initial load error: ", reason);
    state.set_notification(Notification::Error, Some(msg.as_str()))
}

/// The notice that there are no versions.
pub const NO_VERSIONS: &'static str = "No OpenWrt versions found.";

/// The window with the versions loaded.
pub open spec fn versions_shown(s: StateView, versions: Seq<Version>, show_rcs: bool) -> StateView {
    let listed = offered_versions(versions, show_rcs);
    if listed.len() == 0 {
        notified(s, Notification::Error, Some(NO_VERSIONS@))
    } else {
        switched(StateView { versions: version_texts(listed), ..s }, Task::Profiles(listed[0]))
    }
}

/// Takes the versions in, and shows that the profiles of the first one listed
/// are being loaded. Gives that version, if there is one, and the line for the
/// console.
pub fn versions_loaded(
    state: &mut AppState,
    core: &mut AppCore,
    loaded: Vec<Version>,
    show_rcs: bool,
) -> (r: (Option<Version>, Option<LogLine>))
    ensures
        final(core).versions == loaded,
        final(core).config == old(core).config,
        final(core).packages == old(core).packages,
        final(core).profiles == old(core).profiles,
        final(state)@ == versions_shown(old(state)@, loaded@, show_rcs),
        match r.0 {
            Some(v) => offered_versions(loaded@, show_rcs).len() > 0 && v == offered_versions(
                loaded@,
                show_rcs,
            )[0] && r.1 is None,
            None => offered_versions(loaded@, show_rcs).len() == 0 && (r.1 matches Some(line)
                && line.to_stderr && line.text@ == log_text(Notification::Error, NO_VERSIONS@)),
        },
{
    let filtered: Vec<String> = filter_versions(&loaded, show_rcs);
    let ghost listed = offered_versions(loaded@, show_rcs);
    assert(texts(filtered@).len() == listed.len());
    core.versions = loaded;
    if filtered.len() == 0 {
        let line: Option<LogLine> = state.set_notification(Notification::Error, Some(NO_VERSIONS));
        return (None, line);
    }
    assert(texts(filtered@)[0] == filtered@[0]@);
    let first: Version = Version::from(filtered[0].as_str());
    proof {
        assert(version_texts(listed)[0] == version_text(listed[0]));
        law_version_round_trip(listed[0]);
    }
    let ghost s0 = state@;
    state.versions = filtered;
    assert(state@ =~= (StateView { versions: version_texts(listed), ..s0 }));
    state.switch_to(UIState::LoadingProfiles(first));
    (Some(first), None)
}

/// Shows that the first profiles could not be loaded.
pub fn first_profiles_not_loaded(state: &mut AppState, reason: &str) -> (r: Option<LogLine>)
    ensures
        final(state)@ == failed(
            StateView { profiles_fetch_failed: true, ..old(state)@ },
            "Initial load error: "@ + reason@,
        ),
        r matches Some(line) && line.to_stderr && line.text@ == log_text(
            Notification::Error,
            "Initial load error: "@ + reason@,
        ),
{
    let ghost s0 = state@;
    state.profiles_fetch_failed = true;
    assert(state@ =~= (StateView { profiles_fetch_failed: true, ..s0 }));
    let msg: String = joined("Initial load error: ", reason);
    show_failure(state, msg.as_str())
}

/// Takes the first profiles in.
pub fn first_profiles_loaded(core: &mut AppCore, loaded: Vec<Profile>)
    ensures
        final(core).profiles == loaded,
        final(core).config == old(core).config,
        final(core).packages == old(core).packages,
        final(core).versions == old(core).versions,
{
    core.profiles = loaded;
}

/// Shows that all is loaded.
pub fn startup_done(state: &mut AppState)
    ensures
        final(state)@ == switched(
            StateView { profiles: seq![], ..old(state)@ },
            Task::Rest(seq![]),
        ),
{
    let ghost s0 = state@;
    state.profiles = Vec::new();
    assert(state@ =~= (StateView { profiles: seq![], ..s0 }));
    state.switch_to(UIState::Idle(None));
}

/// The versions that are offered are listed, and the first of them is selected
/// and loaded; where there is none, that is shown, and nothing is selected.
pub proof fn law_versions_shown(s: StateView, versions: Seq<Version>, show_rcs: bool)
    ensures
        ({
            let listed = offered_versions(versions, show_rcs);
            let w = versions_shown(s, versions, show_rcs);
            &&& listed.len() > 0 ==> w.versions == version_texts(listed) && w.selected_version
                == version_text(listed[0]) && w.busy && w.status_text == "Fetching profiles"@
                && w.search_text.len() == 0
            &&& listed.len() == 0 ==> w.notification == "No OpenWrt versions found."@
                && w.notification_is_error && w.versions == s.versions && w.selected_version
                == s.selected_version
        }),
{
}

/// The window opens with the folder for images and the version of the
/// application, while versions are being loaded.
pub proof fn law_opened(s: StateView, build_path: PathBuf, version: Seq<char>)
    ensures
        opened(s, build_path, version).build_path_text == path_lossy(build_path),
        opened(s, build_path, version).version == version,
        opened(s, build_path, version).busy,
        opened(s, build_path, version).status_text == "Fetching versions"@,
        opened(s, build_path, version).versions == s.versions,
        opened(s, build_path, version).selected_id == s.selected_id,
{
}

/// An engine that is missing is said to be so.
pub proof fn law_no_engine(s: StateView)
    ensures
        notified(s, Notification::Error, Some(NO_ENGINE@)).notification
            == "Podman or Docker not found. Please ensure either of them is running."@,
        notified(s, Notification::Error, Some(NO_ENGINE@)).notification_is_error,
{
}

} // verus!
