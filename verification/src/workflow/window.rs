//! Requests that concern folders, edits and the window itself.

use std::path::PathBuf;
use vstd::prelude::*;

use crate::config::Platform;
use crate::domain::package::{law_diff_exact, list_of, list_text, ordered, without, PackageList,
    PackageView};
use crate::domain::target::{target_of, Target};
use crate::paths::{copy_path, lossy_path, path_from, path_lossy, path_of, path_shown, show_path};
use crate::session::AppCore;
use crate::state::{log_text, notified, switched, AppState, LogLine, Notification, StateView, Task,
    UIState};
use crate::text::scan::{joined, opt_str};
use super::building::{build_folder, target_folder};

verus! {

/// The notice that the window cannot be closed yet.
pub const STILL_BUSY: &'static str =
    "An operation is in progress. Please wait for it to finish before closing.";

/// The window after it was asked to close.
pub open spec fn closing(s: StateView) -> StateView {
    if s.busy {
        notified(s, Notification::Warning, Some(STILL_BUSY@))
    } else {
        s
    }
}

/// Whether the window may close. While something is going on it may not, and a
/// warning says so.
pub fn close_requested(state: &mut AppState) -> (r: (bool, Option<LogLine>))
    ensures
        r.0 == !old(state)@.busy,
        final(state)@ == if old(state)@.busy {
            notified(old(state)@, Notification::Warning, Some(STILL_BUSY@))
        } else {
            old(state)@
        },
        final(state)@ == closing(old(state)@),
        match r.1 {
            Some(line) => old(state)@.busy && line.to_stderr && line.text@ == log_text(
                Notification::Warning,
                STILL_BUSY@,
            ),
            None => !old(state)@.busy,
        },
{
    if state.busy {
        (false, state.set_notification(Notification::Warning, Some(STILL_BUSY)))
    } else {
        (true, None)
    }
}

/// Sets the folder that images are built in.
pub fn build_path_edited(core: &mut AppCore, path: &str)
    ensures
        final(core).config.build_path == path_of(path@),
        path_shown(final(core).config.build_path) == path@,
        final(core).config.cache_path == old(core).config.cache_path,
        final(core).packages == old(core).packages,
        final(core).profiles == old(core).profiles,
        final(core).versions == old(core).versions,
{
    core.config.build_path = path_from(path);
}

/// The window with a folder for images that was picked.
pub open spec fn folder_shown(s: StateView, path: PathBuf) -> StateView {
    switched(StateView { build_path_text: path_lossy(path), ..s }, Task::Rest(seq![]))
}

/// The window with an overlay that was picked.
pub open spec fn overlay_shown(s: StateView, path: PathBuf) -> StateView {
    switched(StateView { overlay_path_text: path_lossy(path), ..s }, Task::Rest(seq![]))
}

/// Sets the folder that images are built in to one that was picked.
pub fn build_folder_selected(state: &mut AppState, core: &mut AppCore, path: &PathBuf)
    ensures
        final(core).config.build_path == *path,
        final(core).config.cache_path == old(core).config.cache_path,
        final(core).packages == old(core).packages,
        final(core).profiles == old(core).profiles,
        final(core).versions == old(core).versions,
        final(state)@ == switched(
            StateView { build_path_text: path_lossy(*path), ..old(state)@ },
            Task::Rest(seq![]),
        ),
        final(state)@ == folder_shown(old(state)@, *path),
{
    core.config.build_path = copy_path(path);
    let ghost s0 = state@;
    state.build_path_text = lossy_path(path);
    assert(state@ =~= (StateView { build_path_text: path_lossy(*path), ..s0 }));
    state.switch_to(UIState::Idle(None));
}

/// Sets the overlay to a folder that was picked.
pub fn overlay_folder_selected(state: &mut AppState, path: &PathBuf)
    ensures
        final(state)@ == switched(
            StateView { overlay_path_text: path_lossy(*path), ..old(state)@ },
            Task::Rest(seq![]),
        ),
        final(state)@ == overlay_shown(old(state)@, *path),
{
    let ghost s0 = state@;
    state.overlay_path_text = lossy_path(path);
    assert(state@ =~= (StateView { overlay_path_text: path_lossy(*path), ..s0 }));
    state.switch_to(UIState::Idle(None));
}

/// The folder to open for a target.
pub fn folder_to_open(core: &AppCore, target: &str) -> (r: PathBuf)
    ensures
        r == target_folder(core.config.build_path, target_of(target@)),
{
    build_folder(core, &Target::from(target))
}

/// How opening a folder went.
#[derive(Clone, Copy, Debug, Eq, PartialEq, Structural)]
pub enum OpenOutcome {
    Opened,
    /// There is no such folder.
    Missing,
    /// The platform's opener reported a failure.
    Failed,
    /// The platform has no opener.
    Unsupported,
}

/// The program that opens a folder on a platform, if there is one.
pub open spec fn opener_of(platform: Platform) -> Option<Seq<char>> {
    match platform {
        Platform::Linux => Some("xdg-open"@),
        Platform::MacOs => Some("open"@),
        Platform::Windows => Some("explorer"@),
        Platform::OtherUnix => None,
        Platform::Other => None,
    }
}

/// The program that opens a folder on a platform, if there is one.
pub fn opener(platform: Platform) -> (r: Option<&'static str>)
    ensures
        opt_str(r) == opener_of(platform),
{
    match platform {
        Platform::Linux => Some("xdg-open"),
        Platform::MacOs => Some("open"),
        Platform::Windows => Some("explorer"),
        Platform::OtherUnix | Platform::Other => None,
    }
}

/// How opening a folder went.
pub open spec fn outcome_of(platform: Platform, there: bool, succeeded: bool) -> OpenOutcome {
    if !there {
        OpenOutcome::Missing
    } else if opener_of(platform) is None {
        OpenOutcome::Unsupported
    } else if succeeded || platform is Windows {
        OpenOutcome::Opened
    } else {
        OpenOutcome::Failed
    }
}

/// How opening a folder went: whether it was there, and whether the opener ran
/// and reported success. The explorer of Windows reports a failure at times even
/// where it opened the folder, so what it reports does not count.
pub fn open_outcome(platform: Platform, there: bool, succeeded: bool) -> (r: OpenOutcome)
    ensures
        r == if !there {
            OpenOutcome::Missing
        } else if opener_of(platform) is None {
            OpenOutcome::Unsupported
        } else if succeeded || platform is Windows {
            OpenOutcome::Opened
        } else {
            OpenOutcome::Failed
        },
        r == outcome_of(platform, there, succeeded),
{
    if !there {
        return OpenOutcome::Missing;
    }
    match platform {
        Platform::Linux | Platform::MacOs => if succeeded {
            OpenOutcome::Opened
        } else {
            OpenOutcome::Failed
        },
        Platform::Windows => OpenOutcome::Opened,
        Platform::OtherUnix | Platform::Other => OpenOutcome::Unsupported,
    }
}

/// The message for a folder that was not opened.
pub open spec fn open_message(outcome: OpenOutcome, path: PathBuf) -> Option<Seq<char>> {
    match outcome {
        OpenOutcome::Opened => None,
        OpenOutcome::Missing => Some("Folder does not exist: "@ + path_shown(path)),
        OpenOutcome::Failed => Some("Failed to open folder: "@ + path_shown(path)),
        OpenOutcome::Unsupported => Some("Opening file explorer is not supported on this OS."@),
    }
}

/// Shows why a folder was not opened.
pub fn folder_opened(state: &mut AppState, outcome: OpenOutcome, path: &PathBuf) -> (r: Option<
    LogLine,
>)
    ensures
        final(state)@ == match open_message(outcome, *path) {
            Some(msg) => notified(old(state)@, Notification::Error, Some(msg)),
            None => old(state)@,
        },
        match open_message(outcome, *path) {
            Some(msg) => r matches Some(line) && line.to_stderr && line.text@ == log_text(
                Notification::Error,
                msg,
            ),
            None => r is None,
        },
{
    let msg: String = match outcome {
        OpenOutcome::Opened => {
            return None;
        },
        OpenOutcome::Missing => joined("Folder does not exist: ", show_path(path).as_str()),
        OpenOutcome::Failed => joined("Failed to open folder: ", show_path(path).as_str()),
        OpenOutcome::Unsupported => "Opening file explorer is not supported on this OS.".to_string(),
    };
    state.set_notification(Notification::Error, Some(msg.as_str()))
}

/// The milliseconds without an edit after which edited packages are compared.
pub const EDIT_MILLIS: u64 = 500;

/// Shows the packages as they are edited.
pub fn packages_edited(state: &mut AppState, text: &str)
    ensures
        final(state)@ == (StateView { packages_text: text@, ..old(state)@ }),
{
    let ghost s0 = state@;
    state.packages_text = text.to_string();
    assert(state@ =~= (StateView { packages_text: text@, ..s0 }));
}

/// The window with the packages of the profile that the edited text does not
/// name.
pub open spec fn edited_shown(s: StateView, profile: Seq<PackageView>, text: Seq<char>) -> StateView {
    StateView {
        removed_packages_text: list_text(ordered(without(profile, list_of(text)))),
        ..s
    }
}

/// Shows the packages of the profile that the edited text does not name.
pub fn edited_packages_compared(state: &mut AppState, core: &AppCore, text: &str)
    ensures
        final(state)@ == (StateView {
            removed_packages_text: list_text(ordered(without(core.packages@, list_of(text@)))),
            ..old(state)@
        }),
        final(state)@ == edited_shown(old(state)@, core.packages@, text@),
{
    let ghost s0 = state@;
    let gone: PackageList = core.packages.diff(&PackageList::from(text));
    state.removed_packages_text = gone.to_string();
    assert(state@ =~= (StateView {
        removed_packages_text: list_text(ordered(without(core.packages@, list_of(text@)))),
        ..s0
    }));
}

/// Shows the choices for a key.
pub fn identities_listed(state: &mut AppState, identities: Vec<String>)
    ensures
        final(state)@ == (StateView {
            ssh_agent_identities: seq![Seq::<char>::empty()] + crate::text::scan::texts(
                identities@,
            ),
            ..old(state)@
        }),
{
    let ghost s0 = state@;
    let ghost names = crate::text::scan::texts(identities@);
    state.ssh_agent_identities = crate::ssh::identity_choices(identities);
    assert(state@ =~= (StateView {
        ssh_agent_identities: seq![Seq::<char>::empty()] + names,
        ..s0
    }));
}

/// The notice that there is no agent.
pub const NO_AGENT: &'static str = "SSH agent is not available.";

/// Shows that there is no agent.
pub fn identities_not_listed(state: &mut AppState) -> (r: Option<LogLine>)
    ensures
        final(state)@ == notified(old(state)@, Notification::Warning, Some(NO_AGENT@)),
        r matches Some(line) && line.to_stderr && line.text@ == log_text(
            Notification::Warning,
            NO_AGENT@,
        ),
{
    state.set_notification(Notification::Warning, Some(NO_AGENT))
}

/// Each platform that has a program to open folders has its own; a folder that
/// was not opened is named.
pub proof fn law_open(path: PathBuf)
    ensures
        opener_of(Platform::Linux) == Some("xdg-open"@),
        opener_of(Platform::MacOs) == Some("open"@),
        opener_of(Platform::Windows) == Some("explorer"@),
        opener_of(Platform::OtherUnix) is None,
        opener_of(Platform::Other) is None,
        open_message(OpenOutcome::Opened, path) is None,
        open_message(OpenOutcome::Missing, path) == Some(
            "Folder does not exist: "@ + path_shown(path),
        ),
        open_message(OpenOutcome::Failed, path) == Some(
            "Failed to open folder: "@ + path_shown(path),
        ),
        open_message(OpenOutcome::Unsupported, path) == Some(
            "Opening file explorer is not supported on this OS."@,
        ),
{
}

/// What an edited list leaves out of the packages of the profile is what the
/// list does not mention, in or out.
pub proof fn law_edited(profile: Seq<PackageView>, text: Seq<char>, p: PackageView)
    ensures
        ordered(without(profile, list_of(text))).contains(p) <==> profile.contains(p)
            && !list_of(text).contains(PackageView { name: p.name, enabled: true })
            && !list_of(text).contains(PackageView { name: p.name, enabled: false }),
{
    law_diff_exact(profile, list_of(text), p);
}

/// A busy window stays open, with a warning; one at rest closes as it is.
pub proof fn law_closing(s: StateView)
    ensures
        s.busy ==> closing(s).notification
            == "An operation is in progress. Please wait for it to finish before closing."@
            && closing(s).notification_is_warning && closing(s).busy,
        !s.busy ==> closing(s) == s,
{
}

/// A folder that is not there is missing, whatever the platform; one that is
/// there is opened where the opener says so, and on Windows in any case.
pub proof fn law_outcome(platform: Platform, succeeded: bool)
    ensures
        outcome_of(platform, false, succeeded) is Missing,
        platform is Windows ==> outcome_of(platform, true, succeeded) is Opened,
        (platform is Linux || platform is MacOs) && succeeded ==> outcome_of(
            platform,
            true,
            succeeded,
        ) is Opened,
        (platform is Linux || platform is MacOs) && !succeeded ==> outcome_of(
            platform,
            true,
            succeeded,
        ) is Failed,
        (platform is OtherUnix || platform is Other) ==> outcome_of(
            platform,
            true,
            succeeded,
        ) is Unsupported,
{
}

/// A folder that is picked is shown in its own place, and the window comes to
/// rest; the other folder stays.
pub proof fn law_folders_shown(s: StateView, path: PathBuf)
    ensures
        folder_shown(s, path).build_path_text == path_lossy(path),
        folder_shown(s, path).overlay_path_text == s.overlay_path_text,
        !folder_shown(s, path).busy,
        overlay_shown(s, path).overlay_path_text == path_lossy(path),
        overlay_shown(s, path).build_path_text == s.build_path_text,
        !overlay_shown(s, path).busy,
        overlay_shown(s, path).packages_text == s.packages_text,
        folder_shown(s, path).packages_text == s.packages_text,
{
}

/// Editing the packages shows those of the profile that the text does not
/// mention, as the list that shows them reads, and changes nothing else.
pub proof fn law_edited_shown(s: StateView, profile: Seq<PackageView>, text: Seq<char>)
    ensures
        edited_shown(s, profile, text).removed_packages_text == list_text(
            ordered(without(profile, list_of(text))),
        ),
        (StateView {
            removed_packages_text: s.removed_packages_text,
            ..edited_shown(s, profile, text)
        }) == s,
{
}

/// An agent that is missing is said to be so.
pub proof fn law_no_agent(s: StateView)
    ensures
        notified(s, Notification::Warning, Some(NO_AGENT@)).notification
            == "SSH agent is not available."@,
        notified(s, Notification::Warning, Some(NO_AGENT@)).notification_is_warning,
{
}

} // verus!
