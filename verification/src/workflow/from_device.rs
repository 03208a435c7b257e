//! Taking over the packages of a device.

use vstd::prelude::*;

use super::images::{failed, show_failure};
use crate::device::SystemInfo;
use crate::domain::package::{law_diff_exact, list_text, ordered, without, PackageList, PackageView};
use crate::domain::profile::ProfileId;
use crate::domain::target::{target_text, Target, TargetView};
use crate::domain::version::{series_text, ReleaseSeries, Version};
use crate::progress::nothing;
use crate::session::{add_extras, with_extras};
use crate::state::{log_text, notified, switched, AppState, LogLine, Notification, StateView, Task,
    UIState};
use crate::text::scan::{joined, same};

verus! {

/// The identifier of profiles that fit many devices.
pub const GENERIC: &'static str = "generic";

/// Shows that a device is being asked.
pub fn fetch_started(state: &mut AppState, host: &str)
    ensures
        final(state)@ == switched(
            old(state)@,
            Task::Measured { progress: nothing(), status: Some("Connecting to "@ + host@) },
        ),
{
    state.switch_to(
        UIState::FetchingFromDevice {
            progress: None,
            status: Some(joined("Connecting to ", host)),
        },
    );
}

/// Shows that a device could not be asked.
pub fn fetch_failed(state: &mut AppState, reason: &str) -> (r: Option<LogLine>)
    ensures
        final(state)@ == failed(old(state)@, "SSH Error: "@ + reason@),
        r matches Some(line) && line.to_stderr && line.text@ == log_text(
            Notification::Error,
            "SSH Error: "@ + reason@,
        ),
{
    let msg: String = joined("SSH Error: ", reason);
    show_failure(state, msg.as_str())
}

/// Shows that the task that asks a device did not come to its end.
pub fn fetch_interrupted(state: &mut AppState, reason: &str) -> (r: Option<LogLine>)
    ensures
        final(state)@ == failed(old(state)@, "Task Error: "@ + reason@),
        r matches Some(line) && line.to_stderr && line.text@ == log_text(
            Notification::Error,
            "Task Error: "@ + reason@,
        ),
{
    let msg: String = joined("Task Error: ", reason);
    show_failure(state, msg.as_str())
}

/// A device fits the selection: the same target, and the same profile unless
/// the selected one fits many devices.
pub open spec fn fits(
    target: TargetView,
    id: Seq<char>,
    device_target: TargetView,
    device_id: Seq<char>,
) -> bool {
    target == device_target && (id == device_id || id == GENERIC@)
}

/// The message for a device that does not fit.
pub open spec fn misfit_text(
    target: TargetView,
    id: Seq<char>,
    device_target: TargetView,
    device_id: Seq<char>,
) -> Seq<char> {
    "Wrong profile: expected "@ + target_text(target) + " "@ + id + ", got "@ + target_text(
        device_target,
    ) + " "@ + device_id
}

/// The message for a device that does not fit the selection, if it does not.
pub fn check_device(target: &Target, profile_id: &ProfileId, device: &SystemInfo) -> (r: Option<
    String,
>)
    ensures
        match r {
            Some(msg) => !fits(target@, profile_id@, device.target@, device.profile_id@) && msg@
                == misfit_text(target@, profile_id@, device.target@, device.profile_id@),
            None => fits(target@, profile_id@, device.target@, device.profile_id@),
        },
{
    if *target == device.target && (*profile_id == device.profile_id || same(
        profile_id.as_str(),
        GENERIC,
    )) {
        return None;
    }
    let mut msg: String = "Wrong profile: expected ".to_string();
    msg.append(target.to_string().as_str());
    msg.append(" ");
    msg.append(profile_id.as_str());
    msg.append(", got ");
    msg.append(device.target.to_string().as_str());
    msg.append(" ");
    msg.append(device.profile_id.as_str());
    Some(msg)
}

/// The window after a device reported about itself.
pub open spec fn device_checked(
    s: StateView,
    target: TargetView,
    id: Seq<char>,
    device_target: TargetView,
    device_id: Seq<char>,
) -> StateView {
    if fits(target, id, device_target, device_id) {
        s
    } else {
        switched(
            notified(
                s,
                Notification::Error,
                Some(misfit_text(target, id, device_target, device_id)),
            ),
            Task::Rest("Failed to fetch package list"@),
        )
    }
}

/// Compares a device with the selection. Where it does not fit, that is shown,
/// and the fetch ends.
pub fn device_reported(
    state: &mut AppState,
    target: &Target,
    profile_id: &ProfileId,
    device: &SystemInfo,
) -> (r: (bool, Option<LogLine>))
    ensures
        r.0 == fits(target@, profile_id@, device.target@, device.profile_id@),
        final(state)@ == device_checked(
            old(state)@,
            target@,
            profile_id@,
            device.target@,
            device.profile_id@,
        ),
        match r.1 {
            Some(line) => !r.0 && line.to_stderr && line.text@ == log_text(
                Notification::Error,
                misfit_text(target@, profile_id@, device.target@, device.profile_id@),
            ),
            None => r.0,
        },
{
    match check_device(target, profile_id, device) {
        Some(msg) => (false, device_misfit(state, msg.as_str())),
        None => (true, None),
    }
}

/// Shows that a device does not fit the selection.
pub fn device_misfit(state: &mut AppState, message: &str) -> (r: Option<LogLine>)
    ensures
        final(state)@ == switched(
            notified(old(state)@, Notification::Error, Some(message@)),
            Task::Rest("Failed to fetch package list"@),
        ),
        r matches Some(line) && line.to_stderr && line.text@ == log_text(
            Notification::Error,
            message@,
        ),
{
    let line: Option<LogLine> = state.set_notification(Notification::Error, Some(message));
    state.switch_to(UIState::Idle(Some("Failed to fetch package list".to_string())));
    line
}

/// The packages that were fetched, or none.
pub open spec fn original_packages(fetched: Option<PackageList>) -> Seq<PackageView> {
    match fetched {
        Some(p) => p@,
        None => seq![],
    }
}

/// The packages that an image has before anything is changed, and those of them
/// that a list does not name.
pub open spec fn removed(original: Seq<PackageView>, kept: Seq<PackageView>) -> Seq<PackageView> {
    ordered(without(with_extras(original), kept))
}

/// The packages that an image has before anything is changed, with those that
/// every image gets, and those of them that `kept` does not name. Where none
/// could be fetched there are none.
pub fn compare_packages(original: Option<PackageList>, kept: &PackageList) -> (r: (
    PackageList,
    PackageList,
))
    ensures
        r.0@ == with_extras(original_packages(original)),
        r.1@ == removed(original_packages(original), kept@),
{
    let mut packages: PackageList = match original {
        Some(p) => p,
        None => PackageList::default(),
    };
    assert(packages@ =~= original_packages(original));
    add_extras(&mut packages);
    let gone: PackageList = packages.diff(kept);
    (packages, gone)
}

/// The warning that packages come from another release series.
pub open spec fn series_warning(from: ReleaseSeries, to: ReleaseSeries) -> Seq<char> {
    "Package list from "@ + series_text(from) + " might be incompatible with "@ + series_text(to)
        + "."@
}

/// The warning that packages come from another release series, if they do.
pub fn warn_of_series(from: &ReleaseSeries, to: &ReleaseSeries) -> (r: Option<String>)
    ensures
        match r {
            Some(msg) => *from != *to && msg@ == series_warning(*from, *to),
            None => *from == *to,
        },
{
    if *from == *to {
        return None;
    }
    let mut msg: String = "Package list from ".to_string();
    msg.append(from.to_string().as_str());
    msg.append(" might be incompatible with ");
    msg.append(to.to_string().as_str());
    msg.append(".");
    Some(msg)
}

/// The window with a warning, if the two series differ.
pub open spec fn warned(s: StateView, from: ReleaseSeries, to: ReleaseSeries) -> StateView {
    if from == to {
        s
    } else {
        notified(s, Notification::Warning, Some(series_warning(from, to)))
    }
}

/// Warns that packages come from another release series, if they do.
pub fn show_series_warning(state: &mut AppState, from: &ReleaseSeries, to: &ReleaseSeries) -> (r:
    Option<LogLine>)
    ensures
        final(state)@ == warned(old(state)@, *from, *to),
        match r {
            Some(line) => *from != *to && line.to_stderr && line.text@ == log_text(
                Notification::Warning,
                series_warning(*from, *to),
            ),
            None => *from == *to,
        },
{
    match warn_of_series(from, to) {
        Some(msg) => state.set_notification(Notification::Warning, Some(msg.as_str())),
        None => None,
    }
}

/// The series of a version.
pub open spec fn series(v: Version) -> ReleaseSeries {
    ReleaseSeries { major: v.major, minor: v.minor }
}

/// The window with the packages of a device.
pub open spec fn device_shown(
    s: StateView,
    device_packages: Seq<PackageView>,
    gone: Seq<PackageView>,
    device_version: Version,
    version: Version,
) -> StateView {
    warned(
        switched(
            StateView {
                packages_text: list_text(device_packages),
                removed_packages_text: list_text(gone),
                ..s
            },
            Task::Rest(seq![]),
        ),
        series(device_version),
        series(version),
    )
}

/// Shows the packages of a device.
pub fn device_fetched(
    state: &mut AppState,
    device_packages: &PackageList,
    gone: &PackageList,
    device_version: &Version,
    version: &Version,
) -> (r: Option<LogLine>)
    ensures
        final(state)@ == device_shown(
            old(state)@,
            device_packages@,
            gone@,
            *device_version,
            *version,
        ),
        match r {
            Some(line) => series(*device_version) != series(*version) && line.to_stderr
                && line.text@ == log_text(
                Notification::Warning,
                series_warning(series(*device_version), series(*version)),
            ),
            None => series(*device_version) == series(*version),
        },
{
    let ghost s0 = state@;
    state.packages_text = device_packages.to_string();
    state.removed_packages_text = gone.to_string();
    assert(state@ =~= (StateView {
        packages_text: list_text(device_packages@),
        removed_packages_text: list_text(gone@),
        ..s0
    }));
    state.switch_to(UIState::Idle(None));
    show_series_warning(
        state,
        &device_version.to_release_series(),
        &version.to_release_series(),
    )
}

/// A device with the selected target and profile fits, and so does any device
/// of the target where the profile fits many.
pub proof fn law_fits(target: TargetView, id: Seq<char>, device_id: Seq<char>)
    ensures
        fits(target, id, target, id),
        fits(target, GENERIC@, target, device_id),
{
}

/// A device fits exactly where it has the selected target and either the
/// selected profile or the selected profile is the one that fits many.
pub proof fn law_fits_exact(
    target: TargetView,
    id: Seq<char>,
    device_target: TargetView,
    device_id: Seq<char>,
)
    ensures
        target != device_target ==> !fits(target, id, device_target, device_id),
        id != device_id && id != "generic"@ ==> !fits(target, id, device_target, device_id),
        target == device_target && (id == device_id || id == "generic"@) ==> fits(
            target,
            id,
            device_target,
            device_id,
        ),
{
}

/// A device that fits changes nothing yet; one that does not is named, with what
/// was wanted and what it is, and the fetch ends.
pub proof fn law_device_checked(
    s: StateView,
    target: TargetView,
    id: Seq<char>,
    device_target: TargetView,
    device_id: Seq<char>,
)
    ensures
        ({
            let w = device_checked(s, target, id, device_target, device_id);
            &&& fits(target, id, device_target, device_id) ==> w == s
            &&& !fits(target, id, device_target, device_id) ==> {
                &&& w.notification_is_error && !w.busy
                &&& w.status_text == "Failed to fetch package list"@
                &&& w.notification == "Wrong profile: expected "@ + target_text(target) + " "@ + id
                    + ", got "@ + target_text(device_target) + " "@ + device_id
            }
        }),
{
}

/// The packages that go are those of the image, the extra ones included, that
/// the new list does not mention, each as it was.
pub proof fn law_removed(original: Seq<PackageView>, kept: Seq<PackageView>, p: PackageView)
    ensures
        removed(original, kept).contains(p) <==> with_extras(original).contains(p) && !kept.contains(
            PackageView { name: p.name, enabled: true },
        ) && !kept.contains(PackageView { name: p.name, enabled: false }),
        original_packages(None) == Seq::<PackageView>::empty(),
        forall|l: PackageList| #[trigger] original_packages(Some(l)) == l@,
{
    law_diff_exact(with_extras(original), kept, p);
}

/// Taking over the packages of a device shows them, and those that go, and
/// changes nothing else of the selection; the series are told apart by their
/// major and minor numbers alone.
pub proof fn law_device_shown(
    s: StateView,
    packages: Seq<PackageView>,
    gone: Seq<PackageView>,
    from: Version,
    to: Version,
)
    ensures
        ({
            let w = device_shown(s, packages, gone, from, to);
            &&& w.packages_text == list_text(packages)
            &&& w.removed_packages_text == list_text(gone)
            &&& !w.busy
            &&& (from.major == to.major && from.minor == to.minor) ==> w.notification
                == s.notification && w.notification_is_error == s.notification_is_error
            &&& (from.major != to.major || from.minor != to.minor) ==> w.notification
                == "Package list from "@ + series_text(series(from))
                + " might be incompatible with "@ + series_text(series(to)) + "."@
            &&& (StateView {
                packages_text: s.packages_text,
                removed_packages_text: s.removed_packages_text,
                busy: s.busy,
                progress_value: s.progress_value,
                progress_visible: s.progress_visible,
                status_text: s.status_text,
                notification: s.notification,
                notification_is_error: s.notification_is_error,
                notification_is_warning: s.notification_is_warning,
                ..w
            }) == s
        }),
{
}

} // verus!
