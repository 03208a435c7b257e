//! Whether the image builder of the selection is there, and the packages that
//! it reports.

use vstd::prelude::*;

use crate::domain::package::{list_text, PackageList, PackageView};
use crate::session::{add_extras, kept_in_mind, with_extras, AppCore};
use crate::state::{log_text, notified, switched, AppState, LogLine, Notification, StateView, Task,
    UIState};
use crate::text::scan::joined;

verus! {

/// The notice that an image builder is missing.
pub const NOT_FOUND_LOCALLY: &'static str =
    "Image builder not found locally. Please download it first.";

/// The window after the image builder was looked for.
pub open spec fn checked(s: StateView, found: bool) -> StateView {
    notified(
        StateView { image_exists: found, ..s },
        Notification::Info,
        if found {
            None
        } else {
            Some(NOT_FOUND_LOCALLY@)
        },
    )
}

/// Shows whether the image builder is there.
pub fn image_checked(state: &mut AppState, found: bool) -> (r: Option<LogLine>)
    ensures
        final(state)@ == checked(old(state)@, found),
        match r {
            Some(line) => !found && !line.to_stderr && line.text@ == NOT_FOUND_LOCALLY@,
            None => found,
        },
{
    let ghost want = checked(state@, found);
    state.image_exists = found;
    let line: Option<LogLine> = state.set_notification(
        Notification::Info,
        if found {
            None
        } else {
            Some(NOT_FOUND_LOCALLY)
        },
    );
    assert(state@ =~= want);
    line
}

/// The window after the image builder could not be looked for.
pub open spec fn check_failed(s: StateView, reason: Seq<char>) -> StateView {
    StateView { image_exists: false, ..notified(s, Notification::Error, Some(reason)) }
}

/// Shows that the image builder could not be looked for.
pub fn image_check_failed(state: &mut AppState, reason: &str) -> (r: Option<LogLine>)
    ensures
        final(state)@ == check_failed(old(state)@, reason@),
        r matches Some(line) && line.to_stderr && line.text@ == log_text(
            Notification::Error,
            reason@,
        ),
{
    let ghost want = check_failed(state@, reason@);
    let line: Option<LogLine> = state.set_notification(Notification::Error, Some(reason));
    state.image_exists = false;
    assert(state@ =~= want);
    line
}

/// Why the image builder is looked for.
#[derive(Clone, Copy, Debug, Eq, PartialEq, Structural)]
pub enum Purpose {
    /// A profile was picked.
    Selection,
    /// It was downloaded.
    Download,
    /// A preset was read.
    Preset,
    /// Another one was deleted.
    Deletion,
}

/// What comes after a look for the image builder.
#[derive(Clone, Copy, Debug, Eq, PartialEq, Structural)]
pub enum AfterLook {
    /// Fetch the packages of the profile and show them.
    FetchPackages,
    /// Fetch the packages of the profile and compare the preset with them.
    ComparePreset,
    /// Nothing.
    Stop,
}

/// The window after a look for the image builder: what is found or not, or why
/// none could be looked for.
pub open spec fn looked(s: StateView, found: Result<bool, Seq<char>>) -> StateView {
    match found {
        Ok(b) => checked(s, b),
        Err(reason) => check_failed(s, reason),
    }
}

/// Whether to wait for the image builder, or to look once: only after a download
/// it may take a while until it is there.
pub fn waits(purpose: Purpose) -> (r: bool)
    ensures
        r == (purpose is Download),
{
    match purpose {
        Purpose::Download => true,
        Purpose::Selection | Purpose::Preset | Purpose::Deletion => false,
    }
}

/// What comes after a look for the image builder.
pub open spec fn next_after_look(purpose: Purpose, found: bool) -> AfterLook {
    match purpose {
        Purpose::Selection => if found {
            AfterLook::FetchPackages
        } else {
            AfterLook::Stop
        },
        Purpose::Download => if found {
            AfterLook::FetchPackages
        } else {
            AfterLook::Stop
        },
        Purpose::Preset => if found {
            AfterLook::ComparePreset
        } else {
            AfterLook::Stop
        },
        Purpose::Deletion => AfterLook::Stop,
    }
}

/// The window when what comes after a look begins.
pub open spec fn went_on(s: StateView, next: AfterLook) -> StateView {
    match next {
        AfterLook::FetchPackages => switched(
            s,
            Task::Busy { name: "Fetching package list"@, bar: true },
        ),
        AfterLook::ComparePreset => s,
        AfterLook::Stop => switched(s, Task::Rest(seq![])),
    }
}

/// Shows the outcome of a look for the image builder, and goes on. Where the
/// look failed, it counts as not found.
pub fn look_done(state: &mut AppState, purpose: Purpose, found: Result<bool, &str>) -> (r: (
    AfterLook,
    Option<LogLine>,
))
    ensures
        r.0 == next_after_look(purpose, found == Ok::<bool, &str>(true)),
        final(state)@ == went_on(
            looked(
                old(state)@,
                match found {
                    Ok(b) => Ok(b),
                    Err(e) => Err(e@),
                },
            ),
            r.0,
        ),
        match r.1 {
            Some(line) => match found {
                Ok(b) => !b && !line.to_stderr && line.text@ == NOT_FOUND_LOCALLY@,
                Err(e) => line.to_stderr && line.text@ == log_text(Notification::Error, e@),
            },
            None => found == Ok::<bool, &str>(true),
        },
{
    let (ok, line): (bool, Option<LogLine>) = match found {
        Ok(b) => (b, image_checked(state, b)),
        Err(reason) => (false, image_check_failed(state, reason)),
    };
    let next: AfterLook = match purpose {
        Purpose::Selection | Purpose::Download => if ok {
            AfterLook::FetchPackages
        } else {
            AfterLook::Stop
        },
        Purpose::Preset => if ok {
            AfterLook::ComparePreset
        } else {
            AfterLook::Stop
        },
        Purpose::Deletion => AfterLook::Stop,
    };
    match next {
        AfterLook::FetchPackages => state.switch_to(UIState::FetchingPackages),
        AfterLook::ComparePreset => {},
        AfterLook::Stop => state.switch_to(UIState::Idle(None)),
    }
    (next, line)
}

/// The window with a notification that something failed, and at rest.
pub open spec fn failed(s: StateView, message: Seq<char>) -> StateView {
    switched(notified(s, Notification::Error, Some(message)), Task::Rest(seq![]))
}

/// Shows that something failed, and that nothing goes on any more.
pub fn show_failure(state: &mut AppState, message: &str) -> (r: Option<LogLine>)
    ensures
        final(state)@ == failed(old(state)@, message@),
        r matches Some(line) && line.to_stderr && line.text@ == log_text(
            Notification::Error,
            message@,
        ),
{
    let line: Option<LogLine> = state.set_notification(Notification::Error, Some(message));
    state.switch_to(UIState::Idle(None));
    line
}

/// Shows that nothing goes on any more.
pub fn come_to_rest(state: &mut AppState)
    ensures
        final(state)@ == switched(old(state)@, Task::Rest(seq![])),
{
    state.switch_to(UIState::Idle(None));
}

/// The window with the packages of a profile.
pub open spec fn packages_shown(s: StateView, packages: Seq<PackageView>) -> StateView {
    switched(
        StateView { packages_text: list_text(packages), removed_packages_text: seq![], ..s },
        Task::Rest(seq![]),
    )
}

/// Shows the packages that were fetched for a profile, with those that every
/// image gets, and keeps them in mind.
pub fn packages_fetched(state: &mut AppState, core: &mut AppCore, fetched: PackageList)
    ensures
        final(state)@ == packages_shown(old(state)@, with_extras(fetched@)),
        final(core).packages@ == with_extras(fetched@),
        final(core).packages@ == kept_in_mind(Some(fetched@)),
        final(core).config == old(core).config,
        final(core).profiles == old(core).profiles,
        final(core).versions == old(core).versions,
{
    let mut packages: PackageList = fetched;
    add_extras(&mut packages);
    show_packages(state, &packages);
    core.packages = packages;
}

/// Shows packages, and that nothing goes on any more.
fn show_packages(state: &mut AppState, packages: &PackageList)
    ensures
        final(state)@ == packages_shown(old(state)@, packages@),
{
    let ghost s0 = state@;
    state.packages_text = packages.to_string();
    state.removed_packages_text = String::new();
    assert(state@ =~= (StateView {
        packages_text: list_text(packages@),
        removed_packages_text: seq![],
        ..s0
    }));
    state.switch_to(UIState::Idle(None));
}

/// Shows that the packages of a profile could not be fetched: there are none.
pub fn packages_not_fetched(state: &mut AppState, reason: &str) -> (r: Option<LogLine>)
    ensures
        final(state)@ == packages_shown(
            notified(
                old(state)@,
                Notification::Error,
                Some("Error fetching package list for profile: "@ + reason@),
            ),
            seq![],
        ),
        r matches Some(line) && line.to_stderr && line.text@ == log_text(
            Notification::Error,
            "Error fetching package list for profile: "@ + reason@,
        ),
{
    let msg: String = joined("Error fetching package list for profile: ", reason);
    let line: Option<LogLine> = state.set_notification(Notification::Error, Some(msg.as_str()));
    let none: PackageList = PackageList::default();
    assert(none@ =~= Seq::<PackageView>::empty());
    show_packages(state, &none);
    line
}

/// A look for the image builder settles whether it is there and changes nothing
/// of the selection.
pub proof fn law_checked(s: StateView, found: bool)
    ensures
        checked(s, found).image_exists == found,
        checked(s, found).selected_id == s.selected_id,
        checked(s, found).selected_version == s.selected_version,
        checked(s, found).packages_text == s.packages_text,
        checked(s, found).busy == s.busy,
        !checked(s, found).notification_is_error,
{
}

/// After a look that found the image builder, a selection and a download fetch
/// the packages and a preset compares them; after any other look nothing
/// follows.
pub proof fn law_after_look(purpose: Purpose)
    ensures
        next_after_look(Purpose::Selection, true) is FetchPackages,
        next_after_look(Purpose::Download, true) is FetchPackages,
        next_after_look(Purpose::Preset, true) is ComparePreset,
        next_after_look(Purpose::Deletion, true) is Stop,
        next_after_look(purpose, false) is Stop,
{
}

/// A look shows a notice where the image builder is missing, takes the old
/// notification away where it is there, and shows why it could not be looked
/// for; nothing else changes.
pub proof fn law_looked(s: StateView, reason: Seq<char>)
    ensures
        checked(s, true).image_exists && checked(s, true).notification.len() == 0,
        !checked(s, false).image_exists && checked(s, false).notification
            == "Image builder not found locally. Please download it first."@,
        !checked(s, false).notification_is_error && !checked(s, false).notification_is_warning,
        !check_failed(s, reason).image_exists && check_failed(s, reason).notification == reason
            && check_failed(s, reason).notification_is_error,
        looked(s, Ok(true)) == checked(s, true),
        looked(s, Ok(false)) == checked(s, false),
        looked(s, Err(reason)) == check_failed(s, reason),
        forall|found: bool| #[trigger]
            checked(s, found).packages_text == s.packages_text && checked(s, found).selected_id
                == s.selected_id && checked(s, found).busy == s.busy,
        check_failed(s, reason).packages_text == s.packages_text,
        check_failed(s, reason).busy == s.busy,
{
}

/// Packages that were fetched are shown, all of them, and none goes.
pub proof fn law_packages_shown(s: StateView, packages: Seq<PackageView>)
    ensures
        packages_shown(s, packages).packages_text == list_text(packages),
        packages_shown(s, packages).removed_packages_text.len() == 0,
        packages_shown(s, packages).selected_id == s.selected_id,
        packages_shown(s, packages).image_exists == s.image_exists,
        packages_shown(s, packages).notification == s.notification,
        packages_shown(s, packages).search_text == s.search_text,
{
}

/// Where packages are fetched next the window stays busy; where nothing follows
/// it comes to rest.
pub proof fn law_went_on(s: StateView)
    ensures
        went_on(s, AfterLook::FetchPackages).busy,
        went_on(s, AfterLook::FetchPackages).status_text == "Fetching package list"@,
        went_on(s, AfterLook::ComparePreset) == s,
        !went_on(s, AfterLook::Stop).busy,
        went_on(s, AfterLook::Stop).status_text.len() == 0,
        went_on(s, AfterLook::Stop).image_exists == s.image_exists,
{
}

} // verus!
