//! Saving and loading presets.

use std::path::PathBuf;
use vstd::prelude::*;

use super::from_device::{compare_packages, original_packages, removed, series, series_warning,
    show_series_warning, warned};
use super::images::{failed, show_failure};
use crate::domain::package::{list_text, PackageList, PackageView};
use crate::domain::preset::{Preset, PresetView};
use crate::domain::profile::{all_models, display_names, law_display_names, profiles, title_text, Profile,
    ProfileView};
use crate::domain::target::{target_text, Target, TargetView};
use crate::domain::version::Version;
use crate::paths::{lossy_path, path_lossy, path_shown, show_path};
use crate::session::{kept_in_mind, with_extras, AppCore};
use crate::state::{console, failure_console, failure_lines, log_text, notified, switched, AppState,
    LogLine, Notification, StateView, Task, UIState};
use crate::text::number::{decimal, lemma_parsed_decimal, parsed, to_decimal};
use crate::text::scan::{joined, texts};

verus! {

/// The name that a preset is saved under unless another is chosen.
pub open spec fn preset_name(p: PresetView) -> Seq<char> {
    if p.extra_image_name.len() == 0 {
        "preset-"@ + p.profile_id + ".json"@
    } else {
        "preset-"@ + p.profile_id + "-"@ + p.extra_image_name + ".json"@
    }
}

/// The name that a preset is saved under unless another is chosen.
pub fn preset_file_name(preset: &Preset) -> (r: String)
    ensures
        r@ == preset_name(preset@),
{
    let mut s: String = "preset-".to_string();
    s.append(preset.profile_id.as_str());
    if !preset.extra_image_name.as_str().is_empty() {
        s.append("-");
        s.append(preset.extra_image_name.as_str());
    }
    s.append(".json");
    s
}

/// How saving a preset failed.
pub enum SaveFailure<'failure> {
    /// It could not be written.
    Write(&'failure PathBuf, &'failure str),
    /// It could not be put into text.
    Serialize(&'failure str),
}

/// The message for a preset that could not be saved.
pub open spec fn save_message(f: SaveFailure) -> Seq<char> {
    match f {
        SaveFailure::Write(path, reason) => "Error saving preset "@ + path_shown(*path) + ": "@
            + reason@,
        SaveFailure::Serialize(reason) => "Failed to serialize preset: "@ + reason@,
    }
}

/// Shows that a preset was saved, or why it was not.
pub fn preset_saved(state: &mut AppState, failure: Option<SaveFailure>) -> (r: Option<LogLine>)
    ensures
        final(state)@ == switched(
            match failure {
                Some(f) => notified(old(state)@, Notification::Error, Some(save_message(f))),
                None => old(state)@,
            },
            Task::Rest(seq![]),
        ),
        match failure {
            Some(f) => r matches Some(line) && line.to_stderr && line.text@ == log_text(
                Notification::Error,
                save_message(f),
            ),
            None => r is None,
        },
{
    let line: Option<LogLine> = match failure {
        Some(f) => {
            let msg: String = match f {
                SaveFailure::Write(path, reason) => {
                    let mut s: String = "Error saving preset ".to_string();
                    s.append(show_path(path).as_str());
                    s.append(": ");
                    s.append(reason);
                    s
                },
                SaveFailure::Serialize(reason) => joined("Failed to serialize preset: ", reason),
            };
            state.set_notification(Notification::Error, Some(msg.as_str()))
        },
        None => None,
    };
    state.switch_to(UIState::Idle(None));
    line
}

/// The profile of a preset, as it is shown.
pub struct FoundProfile {
    pub name: String,
    pub model: String,
    pub target: Target,
}

/// What a [`FoundProfile`] holds.
pub struct FoundView {
    pub name: Seq<char>,
    pub model: Seq<char>,
    pub target: TargetView,
}

impl View for FoundProfile {
    type V = FoundView;

    open spec fn view(&self) -> FoundView {
        FoundView { name: self.name@, model: self.model@, target: self.target@ }
    }
}

/// A profile is the one that a preset is for.
pub open spec fn meant(p: ProfileView, preset: PresetView) -> bool {
    p.id == preset.profile_id && p.target == preset.target
}

/// A profile as it is shown: by its first display name, or else its identifier.
pub open spec fn found_view(p: ProfileView) -> FoundView {
    FoundView {
        name: if display_names(p).len() > 0 {
            display_names(p)[0]
        } else {
            p.id
        },
        model: all_models(p),
        target: p.target,
    }
}

/// The first profile at `from` or later that a preset is for.
pub open spec fn preset_profile(s: Seq<ProfileView>, preset: PresetView, from: int) -> Option<
    ProfileView,
>
    decreases s.len() - from,
{
    if from < 0 || from >= s.len() {
        None
    } else if meant(s[from], preset) {
        Some(s[from])
    } else {
        preset_profile(s, preset, from + 1)
    }
}

/// The message for a preset whose profile is not there.
pub open spec fn no_profile_text(preset: PresetView) -> Seq<char> {
    "Profile '"@ + preset.profile_id + "' for target '"@ + target_text(preset.target)
        + "' not found in current version"@
}

/// Looks for the profile of a preset.
pub fn find_preset_profile(core: &AppCore, preset: &Preset) -> (r: Result<FoundProfile, String>)
    ensures
        match preset_profile(profiles(core.profiles@), preset@, 0) {
            Some(p) => r matches Ok(f) && f@ == found_view(p),
            None => r matches Err(msg) && msg@ == no_profile_text(preset@),
        },
{
    let ghost all = profiles(core.profiles@);
    let mut i: usize = 0;
    while i < core.profiles.len()
        invariant
            i <= core.profiles.len(),
            all == profiles(core.profiles@),
            preset_profile(all, preset@, 0) == preset_profile(all, preset@, i as int),
        decreases core.profiles.len() - i,
    {
        let p: &Profile = &core.profiles[i];
        assert(all[i as int] == p@);
        if p.id == preset.profile_id && p.target == preset.target {
            let names: Vec<String> = p.format();
            assert(texts(names@).len() == names@.len());
            let name: String = if names.len() > 0 {
                assert(texts(names@)[0] == names@[0]@);
                names[0].clone()
            } else {
                p.id.to_string()
            };
            return Ok(
                FoundProfile { name, model: p.format_all_models(), target: p.target.clone() },
            );
        }
        i += 1;
    }
    let mut msg: String = "Profile '".to_string();
    msg.append(preset.profile_id.as_str());
    msg.append("' for target '");
    msg.append(preset.target.to_string().as_str());
    msg.append("' not found in current version");
    Err(msg)
}

/// The window with the profile of a preset.
pub open spec fn profile_shown(s: StateView, preset: PresetView, f: FoundView) -> StateView {
    StateView {
        overlay_path_text: path_lossy(preset.overlay_path),
        packages_text: seq![],
        removed_packages_text: seq![],
        search_text: f.name,
        selected_id: preset.profile_id,
        selected_model: f.model,
        selected_target: target_text(f.target),
        ..s
    }
}

/// Shows the profile of a preset.
pub fn preset_found(state: &mut AppState, preset: &Preset, found: &FoundProfile)
    ensures
        final(state)@ == profile_shown(old(state)@, preset@, found@),
{
    let ghost want = profile_shown(state@, preset@, found@);
    state.overlay_path_text = lossy_path(&preset.overlay_path);
    state.packages_text = String::new();
    state.removed_packages_text = String::new();
    state.search_text = found.name.clone();
    state.selected_id = preset.profile_id.to_string();
    state.selected_model = found.model.clone();
    state.selected_target = found.target.to_string();
    assert(state@ =~= want);
}

/// Shows the profile of a preset that was read, or that it is not there.
pub fn preset_read(state: &mut AppState, core: &AppCore, preset: &Preset) -> (r: Result<
    FoundProfile,
    Vec<LogLine>,
>)
    ensures
        match preset_profile(profiles(core.profiles@), preset@, 0) {
            Some(p) => r matches Ok(f) && f@ == found_view(p) && final(state)@ == profile_shown(
                old(state)@,
                preset@,
                found_view(p),
            ),
            None => r matches Err(out) && console(out@) == failure_console(
                "Error loading preset: "@ + no_profile_text(preset@),
                no_profile_text(preset@),
            ) && final(state)@ == failed(old(state)@, no_profile_text(preset@)),
        },
{
    match find_preset_profile(core, preset) {
        Ok(found) => {
            preset_found(state, preset, &found);
            Ok(found)
        },
        Err(msg) => Err(preset_not_loaded(state, msg.as_str())),
    }
}

/// Shows all that a preset holds, once the packages of its profile are known,
/// and keeps those in mind with the ones that every image gets. Where they could
/// not be fetched there are none.
pub fn preset_compared(
    state: &mut AppState,
    core: &mut AppCore,
    preset: &Preset,
    original: Option<PackageList>,
    version: &Version,
) -> (r: Option<LogLine>)
    ensures
        final(core).packages@ == with_extras(original_packages(original)),
        final(core).packages@ == kept_in_mind(
            match original {
                Some(l) => Some(l@),
                None => None,
            },
        ),
        final(core).config == old(core).config,
        final(core).profiles == old(core).profiles,
        final(core).versions == old(core).versions,
        final(state)@ == preset_shown(
            old(state)@,
            preset@,
            removed(original_packages(original), preset@.packages),
            *version,
        ),
        match r {
            Some(line) => preset@.release_series != series(*version) && line.to_stderr
                && line.text@ == log_text(
                Notification::Warning,
                series_warning(preset@.release_series, series(*version)),
            ),
            None => preset@.release_series == series(*version),
        },
{
    let (packages, gone): (PackageList, PackageList) = compare_packages(original, &preset.packages);
    core.packages = packages;
    preset_loaded(state, preset, &gone, version)
}

/// The size as text; no size is no text.
pub open spec fn size_text(n: u32) -> Seq<char> {
    if n == 0 {
        seq![]
    } else {
        decimal(n as nat)
    }
}

/// The window with all that a preset holds.
pub open spec fn preset_shown(
    s: StateView,
    preset: PresetView,
    gone: Seq<PackageView>,
    version: Version,
) -> StateView {
    warned(
        switched(
            StateView {
                disabled_services_text: preset.disabled_services,
                extra_image_name_text: preset.extra_image_name,
                overlay_path_text: path_lossy(preset.overlay_path),
                packages_text: list_text(preset.packages),
                profiles: seq![],
                removed_packages_text: list_text(gone),
                rootfs_size_text: size_text(preset.rootfs_size),
                ..s
            },
            Task::Rest(seq![]),
        ),
        preset.release_series,
        series(version),
    )
}

/// Shows all that a preset holds. `gone` are the packages of the profile that
/// it does not name.
pub fn preset_loaded(
    state: &mut AppState,
    preset: &Preset,
    gone: &PackageList,
    version: &Version,
) -> (r: Option<LogLine>)
    ensures
        final(state)@ == preset_shown(old(state)@, preset@, gone@, *version),
        match r {
            Some(line) => preset@.release_series != series(*version) && line.to_stderr
                && line.text@ == log_text(
                Notification::Warning,
                series_warning(preset@.release_series, series(*version)),
            ),
            None => preset@.release_series == series(*version),
        },
{
    let ghost s0 = state@;
    state.disabled_services_text = preset.disabled_services.clone();
    state.extra_image_name_text = preset.extra_image_name.clone();
    state.overlay_path_text = lossy_path(&preset.overlay_path);
    state.packages_text = preset.packages.to_string();
    state.profiles = Vec::new();
    state.removed_packages_text = gone.to_string();
    state.rootfs_size_text = if preset.rootfs_size == 0 {
        String::new()
    } else {
        to_decimal(preset.rootfs_size)
    };
    assert(state@ =~= (StateView {
        disabled_services_text: preset@.disabled_services,
        extra_image_name_text: preset@.extra_image_name,
        overlay_path_text: path_lossy(preset@.overlay_path),
        packages_text: list_text(preset@.packages),
        profiles: seq![],
        removed_packages_text: list_text(gone@),
        rootfs_size_text: size_text(preset@.rootfs_size),
        ..s0
    }));
    state.switch_to(UIState::Idle(None));
    show_series_warning(state, &preset.release_series, &version.to_release_series())
}

/// Shows that a preset could not be loaded. Gives the lines for the console.
pub fn preset_not_loaded(state: &mut AppState, reason: &str) -> (r: Vec<LogLine>)
    ensures
        final(state)@ == failed(old(state)@, reason@),
        console(r@) == failure_console("Error loading preset: "@ + reason@, reason@),
{
    let _ = show_failure(state, reason);
    failure_lines(joined("Error loading preset: ", reason), reason)
}

/// The profile of a preset is found exactly where one with its identifier and
/// target is there.
pub proof fn law_preset_profile(s: Seq<ProfileView>, preset: PresetView, from: int)
    requires
        0 <= from,
    ensures
        preset_profile(s, preset, from) is Some <==> exists|i: int|
            from <= i < s.len() && meant(#[trigger] s[i], preset),
        preset_profile(s, preset, from) matches Some(p) ==> meant(p, preset) && s.contains(p),
    decreases s.len() - from,
{
    if from < s.len() {
        law_preset_profile(s, preset, from + 1);
        if meant(s[from], preset) {
            assert(s.contains(s[from]));
        }
    }
}

/// A preset is for a profile exactly where both the identifier and the target
/// are the same, and the first such profile counts.
pub proof fn law_preset_profile_first(s: Seq<ProfileView>, preset: PresetView, i: int)
    requires
        0 <= i < s.len(),
        s[i].id == preset.profile_id,
        s[i].target == preset.target,
        forall|k: int|
            0 <= k < i ==> (#[trigger] s[k]).id != preset.profile_id || s[k].target
                != preset.target,
    ensures
        preset_profile(s, preset, 0) == Some(s[i]),
{
    lemma_preset_profile_at(s, preset, 0, i);
}

proof fn lemma_preset_profile_at(s: Seq<ProfileView>, preset: PresetView, from: int, i: int)
    requires
        0 <= from <= i < s.len(),
        s[i].id == preset.profile_id,
        s[i].target == preset.target,
        forall|k: int|
            0 <= k < i ==> (#[trigger] s[k]).id != preset.profile_id || s[k].target
                != preset.target,
    ensures
        preset_profile(s, preset, from) == Some(s[i]),
    decreases i - from,
{
    if from < i {
        assert(s[from].id != preset.profile_id || s[from].target != preset.target);
        lemma_preset_profile_at(s, preset, from + 1, i);
    }
}

/// Without a profile of the preset's identifier and target none is found.
pub proof fn law_preset_profile_missing(s: Seq<ProfileView>, preset: PresetView)
    requires
        forall|k: int|
            0 <= k < s.len() ==> (#[trigger] s[k]).id != preset.profile_id || s[k].target
                != preset.target,
    ensures
        preset_profile(s, preset, 0) is None,
        no_profile_text(preset) == "Profile '"@ + preset.profile_id + "' for target '"@
            + target_text(preset.target) + "' not found in current version"@,
{
    law_preset_profile(s, preset, 0);
    if exists|i: int| 0 <= i < s.len() && meant(#[trigger] s[i], preset) {
        let i = choose|i: int| 0 <= i < s.len() && meant(#[trigger] s[i], preset);
        assert(s[i].id != preset.profile_id || s[i].target != preset.target);
    }
}

/// The profile of a preset is shown by the name of its first title, or by its
/// identifier where it has none, with its models and its target; the overlay of
/// the preset is shown, and the packages wait until they are known.
pub proof fn law_profile_shown(s: StateView, preset: PresetView, p: ProfileView)
    ensures
        ({
            let f = found_view(p);
            let w = profile_shown(s, preset, f);
            &&& p.titles.len() > 0 ==> w.search_text == title_text(p.titles[0]) + " ("@ + p.id
                + ")"@
            &&& p.titles.len() == 0 ==> w.search_text == p.id
            &&& w.selected_model == all_models(p)
            &&& w.selected_target == target_text(p.target)
            &&& w.selected_id == preset.profile_id
            &&& w.overlay_path_text == path_lossy(preset.overlay_path)
            &&& w.packages_text.len() == 0 && w.removed_packages_text.len() == 0
            &&& (StateView {
                overlay_path_text: s.overlay_path_text,
                packages_text: s.packages_text,
                removed_packages_text: s.removed_packages_text,
                search_text: s.search_text,
                selected_id: s.selected_id,
                selected_model: s.selected_model,
                selected_target: s.selected_target,
                ..w
            }) == s
        }),
{
    if p.titles.len() > 0 {
        law_display_names(p, 0);
    }
}

/// A preset that is loaded shows each of its parts in its own place, and keeps
/// the selected profile.
pub proof fn law_preset_shown(
    s: StateView,
    preset: PresetView,
    gone: Seq<PackageView>,
    version: Version,
)
    ensures
        ({
            let w = preset_shown(s, preset, gone, version);
            &&& w.disabled_services_text == preset.disabled_services
            &&& w.extra_image_name_text == preset.extra_image_name
            &&& w.overlay_path_text == path_lossy(preset.overlay_path)
            &&& w.packages_text == list_text(preset.packages)
            &&& w.removed_packages_text == list_text(gone)
            &&& preset.rootfs_size == 0 ==> w.rootfs_size_text.len() == 0
            &&& preset.rootfs_size > 0 ==> parsed(w.rootfs_size_text, u32::MAX as nat) == Some(
                preset.rootfs_size as nat,
            ) && w.rootfs_size_text == decimal(preset.rootfs_size as nat)
            &&& w.profiles.len() == 0
            &&& !w.busy
            &&& w.selected_id == s.selected_id && w.selected_target == s.selected_target
            &&& w.selected_model == s.selected_model && w.search_text == s.search_text
            &&& w.selected_version == s.selected_version && w.versions == s.versions
            &&& w.image_exists == s.image_exists
        }),
{
    lemma_parsed_decimal(preset.rootfs_size as nat, u32::MAX as nat);
}

/// A preset is saved under the identifier of its profile, and its own name where
/// it has one: presets of one profile with different names do not share a file.
pub proof fn law_preset_name(p: PresetView, other: Seq<char>)
    ensures
        p.extra_image_name.len() == 0 ==> preset_name(p) == "preset-"@ + p.profile_id + ".json"@,
        p.extra_image_name.len() > 0 ==> preset_name(p) == "preset-"@ + p.profile_id + "-"@
            + p.extra_image_name + ".json"@,
        p.extra_image_name.len() > 0 && other.len() > 0 && preset_name(p) == preset_name(
            PresetView { extra_image_name: other, ..p },
        ) ==> p.extra_image_name == other,
{
    let q = PresetView { extra_image_name: other, ..p };
    if p.extra_image_name.len() > 0 && other.len() > 0 && preset_name(p) == preset_name(q) {
        let front = "preset-"@ + p.profile_id + "-"@;
        let s = preset_name(p);
        let n = ".json"@.len() as int;
        assert(preset_name(p) =~= front + p.extra_image_name + ".json"@);
        assert(preset_name(q) =~= front + other + ".json"@);
        assert(s.subrange(front.len() as int, s.len() - n) =~= p.extra_image_name);
        assert(s.subrange(front.len() as int, s.len() - n) =~= other);
    }
}

/// The message for a preset that is not saved gives the reason, and the file
/// where there is one to name.
pub proof fn law_save_message(path: &PathBuf, reason: &str)
    ensures
        save_message(SaveFailure::Write(path, reason)) == "Error saving preset "@ + path_shown(*path)
            + ": "@ + reason@,
        save_message(SaveFailure::Serialize(reason)) == "Failed to serialize preset: "@ + reason@,
{
}

} // verus!
