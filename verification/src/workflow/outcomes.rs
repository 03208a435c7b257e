//! What holds of the window whichever way a request goes.

use vstd::prelude::*;

use super::from_device::{device_checked, device_shown, fits};
use super::images::{failed, looked, next_after_look, packages_shown, went_on, Purpose};
use super::presets::preset_shown;
use super::versions::{profiles_missing, profiles_ready};
use crate::domain::package::PackageView;
use crate::domain::preset::PresetView;
use crate::domain::target::TargetView;
use crate::domain::version::Version;
use crate::progress::nothing;
use crate::state::StateView;

verus! {

/// The window is at rest: nothing goes on, and no progress is shown.
pub open spec fn at_rest(s: StateView) -> bool {
    !s.busy && !s.progress_visible && s.progress_value == nothing()
}

/// A request that failed leaves the window at rest, with an error shown.
pub proof fn law_failure_rests(s: StateView, message: Seq<char>, version: Version)
    ensures
        at_rest(failed(s, message)),
        failed(s, message).notification_is_error,
        failed(s, message).notification == message,
        at_rest(profiles_missing(s, version)),
        profiles_missing(s, version).notification_is_error,
{
}

/// Profiles and packages that were loaded leave the window at rest.
pub proof fn law_loading_rests(s: StateView, packages: Seq<PackageView>)
    ensures
        at_rest(packages_shown(s, packages)),
        at_rest(profiles_ready(s)),
{
}

/// A look for the image builder leaves the window at rest unless packages are
/// fetched next, and these are fetched only where the image builder was found.
pub proof fn law_look_rests(s: StateView, purpose: Purpose, found: Result<bool, Seq<char>>)
    ensures
        ({
            let next = next_after_look(purpose, found == Ok::<bool, Seq<char>>(true));
            let w = went_on(looked(s, found), next);
            &&& next is Stop ==> at_rest(w)
            &&& !(next is Stop) ==> found == Ok::<bool, Seq<char>>(true) && w.image_exists
            &&& w.image_exists == (found == Ok::<bool, Seq<char>>(true))
        }),
{
}

/// Packages that come from a device or a preset leave the window at rest, with
/// a warning exactly where the release series differ, if no warning was shown
/// before.
pub proof fn law_takeover_rests(
    s: StateView,
    preset: PresetView,
    packages: Seq<PackageView>,
    gone: Seq<PackageView>,
    from: Version,
    to: Version,
)
    requires
        !s.notification_is_warning,
    ensures
        at_rest(device_shown(s, packages, gone, from, to)),
        device_shown(s, packages, gone, from, to).notification_is_warning <==> from.major
            != to.major || from.minor != to.minor,
        at_rest(preset_shown(s, preset, gone, to)),
        preset_shown(s, preset, gone, to).notification_is_warning <==> preset.release_series.major
            != to.major || preset.release_series.minor != to.minor,
{
}

/// A device that does not fit leaves the packages of the window as they are.
pub proof fn law_misfit_changes_no_packages(
    s: StateView,
    target: TargetView,
    id: Seq<char>,
    device_target: TargetView,
    device_id: Seq<char>,
)
    ensures
        device_checked(s, target, id, device_target, device_id).packages_text == s.packages_text,
        device_checked(s, target, id, device_target, device_id).removed_packages_text
            == s.removed_packages_text,
        !fits(target, id, device_target, device_id) ==> at_rest(
            device_checked(s, target, id, device_target, device_id),
        ),
{
}

} // verus!
