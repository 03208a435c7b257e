use bouwer::config::{Config, Platform};
use bouwer::containers::{LogChunk, LogItem};
use bouwer::device::SystemInfo;
use bouwer::domain::{
    ImageTag, PackageList, Preset, Profile, ProfileId, ProfileTitle, ReleaseSeries, Target,
    Version,
};
use bouwer::progress::Progress;
use bouwer::requests::{BuildData, ProfileData, ProfileSearchKeyData, SearchKey, ShowRcsData};
use bouwer::session::{add_extras, AppCore};
use bouwer::state::AppState;
use bouwer::workflow::builders::{
    builders_listed, builders_not_listed, delete_refused, delete_started, deleted,
    deleted_message, list_builders, named_by, not_deleted,
};
use bouwer::workflow::building::{
    build_folder, build_refused, build_started, clean_image_name, format_command,
    get_build_command_preview, get_build_status, keep_chars, update_preview, BuildLog, BuildPlan,
    LogAction, BUILD_PARTS,
};
use bouwer::workflow::downloading::{
    download_broke_off, download_progressed, download_received, download_started, download_status,
    Download, ProgressDetail, PullAction, PullInfo, PullItem,
};
use bouwer::workflow::from_device::{
    check_device, compare_packages, device_fetched, device_reported, fetch_failed,
    fetch_interrupted, fetch_started, warn_of_series,
};
use bouwer::workflow::images::{
    come_to_rest, image_check_failed, look_done, packages_fetched, packages_not_fetched, waits,
    AfterLook, Purpose, NOT_FOUND_LOCALLY,
};
use bouwer::workflow::presets::{
    preset_compared, preset_file_name, preset_read, preset_saved, SaveFailure,
};
use bouwer::workflow::searching::{
    highlight, profile_search, profile_selected, search_key_pressed, KeyAction,
};
use bouwer::workflow::startup::{
    engine_missing, first_profiles_loaded, first_profiles_not_loaded, startup_done,
    versions_loaded, versions_not_loaded, wants_version, window_opened, NO_ENGINE, NO_VERSIONS,
};
use bouwer::workflow::versions::{
    filter_versions, profiles_loaded, profiles_not_loaded, show_rcs_toggled, version_changed,
};
use bouwer::workflow::window::{
    build_folder_selected, build_path_edited, close_requested, edited_packages_compared,
    folder_opened, folder_to_open, identities_listed, identities_not_listed, open_outcome, opener,
    overlay_folder_selected, packages_edited, OpenOutcome, NO_AGENT, STILL_BUSY,
};
use std::path::PathBuf;

fn sample_core() -> AppCore {
    let mut core = AppCore::new(Config {
        build_path: PathBuf::from("/b"),
        cache_path: PathBuf::from("/c"),
    });
    core.packages = PackageList::from("base-files dropbear");
    core.profiles = vec![Profile {
        id: "acme_one".into(),
        titles: vec![ProfileTitle {
            model: Some("One".into()),
            vendor: Some("Acme".into()),
            variant: None,
            title: None,
        }],
        target: Target::from("ath79/generic"),
    }];
    core.versions = ["24.10.0", "24.10.0-rc1", "19.07.10"]
        .iter()
        .map(|s| Version::from(*s))
        .collect();
    core
}

fn selection() -> BuildData {
    BuildData {
        version: "23.05.2".into(),
        target: "ath79/generic".into(),
        profile_id: "acme,one".into(),
        extra_image_name: "my name-1!".into(),
        rootfs_size: 256,
        packages: "luci base-files".into(),
        disabled_services: "dnsmasq".into(),
        overlay_path: "/o".into(),
    }
}

#[test]
fn a_selection_is_planned() {
    let plan = BuildPlan::new(&sample_core(), &selection());
    assert_eq!(plan.packages.to_string(), "base-files luci -dropbear");
    assert_eq!(plan.extra_image_name, "myname-1");
    assert_eq!(
        plan.log_file_name("2026-01-02-03-04-05"),
        "build-23.05.2-acme_one-2026-01-02-03-04-05.log"
    );
    assert_eq!(
        build_folder(&sample_core(), &plan.target),
        PathBuf::from("/b/ath79/generic")
    );
    let cmd: Vec<String> = plan.args().into();
    assert_eq!(
        cmd,
        vec![
            "make",
            "image",
            "PROFILE=acme_one",
            "PACKAGES=base-files luci -dropbear",
            "EXTRA_IMAGE_NAME=myname-1",
            "ROOTFS_PARTSIZE=256",
            "DISABLED_SERVICES=dnsmasq",
            "FILES=/overlay",
        ]
    );
}

#[test]
fn what_is_not_given_is_not_planned() {
    let mut d = selection();
    d.extra_image_name = "!?".into();
    d.rootfs_size = 0;
    d.disabled_services = "".into();
    d.overlay_path = "".into();
    let cmd: Vec<String> = BuildPlan::new(&sample_core(), &d).args().into();
    assert_eq!(cmd.len(), 4);
}

#[test]
fn the_preview_shows_the_command() {
    let core = sample_core();
    assert_eq!(
        get_build_command_preview(&core, &selection()),
        "make image\n\n    PROFILE=acme_one\n\n    PACKAGES=base-files luci -dropbear\
         \n\n    EXTRA_IMAGE_NAME=myname-1\n\n    ROOTFS_PARTSIZE=256\
         \n\n    DISABLED_SERVICES=dnsmasq\n\n    FILES=/overlay"
    );
    let mut none = selection();
    none.profile_id = "".into();
    assert_eq!(get_build_command_preview(&core, &none), "");
    let mut s = AppState::default();
    update_preview(&mut s, &core, &selection());
    assert!(s.build_command_preview.starts_with("make image\n\n    PROFILE="));
    assert_eq!(
        format_command(&vec!["make".to_string(), "info".to_string()]),
        "make info"
    );
}

#[test]
fn image_names_hold_letters_numbers_and_dashes() {
    assert_eq!(clean_image_name("a b_c-d.\u{e9}9"), "abc-d\u{e9}9");
    assert_eq!(clean_image_name(""), "");
    assert_eq!(keep_chars("a-b", &vec![false, false, true]), "-b");
}

#[test]
fn milestones_are_recognised() {
    assert_eq!(
        get_build_status("Building images for ath79"),
        Some((200_000, "Preparing build".to_string()))
    );
    assert_eq!(
        get_build_status("Building images..."),
        Some((800_000, "Building images".to_string()))
    );
    assert_eq!(get_build_status(" Installing packages"), None);
    let all = [
        ("Generate local signing", 0.1f32),
        ("Building images for", 0.2),
        ("Building package index", 0.2),
        ("Installing packages", 0.4),
        ("Finalizing root filesystem", 0.7),
        ("Building images...", 0.8),
        ("Calculating checksums", 0.9),
    ];
    for (line, progress) in all {
        let (p, _) = get_build_status(line).unwrap();
        assert_eq!(p as f32 / BUILD_PARTS as f32, progress);
    }
}

fn piece(s: &str) -> LogItem {
    LogItem::Piece(LogChunk::StdOut(s.as_bytes().to_vec()))
}

#[test]
fn a_build_is_followed_by_its_output() {
    let mut s = AppState::default();
    build_started(&mut s);
    assert_eq!(s.status_text, "Initializing");
    assert!(s.busy);

    let mut log = BuildLog::new();
    match log.receive(&mut s, &piece("one\ntwo\n")) {
        LogAction::Write(lines) => assert_eq!(lines, vec!["one", "two"]),
        _ => panic!("nothing to write"),
    }
    assert_eq!(s.progress_value.fraction(), (1_000, 1_000_000));
    assert_eq!(s.status_text, "Initializing");
    log.receive(&mut s, &piece("Installing packages...\n"));
    assert_eq!(s.progress_value.fraction(), (400_500, 1_000_000));
    assert_eq!(s.status_text, "Installing packages");
    // An earlier milestone does not take progress back
    log.receive(&mut s, &piece("Building package index\n"));
    assert_eq!(s.progress_value.fraction(), (401_000, 1_000_000));
    assert_eq!(s.status_text, "Building package index");
    assert!(matches!(
        log.receive(&mut s, &LogItem::Piece(LogChunk::Other)),
        LogAction::Skip
    ));
    assert!(matches!(
        log.receive(&mut s, &piece("")),
        LogAction::Write(v) if v.is_empty()
    ));
    assert_eq!(s.progress_value.fraction(), (401_000, 1_000_000));

    assert_eq!(
        log.finish(&mut s),
        Some("Building package index".to_string())
    );
    assert!(!s.busy);
    assert_eq!(s.status_text, "Build completed");
}

#[test]
fn a_build_that_breaks_off_fails() {
    let mut s = AppState::default();
    let mut log = BuildLog::new();
    match log.receive(&mut s, &LogItem::Failure("gone".into())) {
        LogAction::Stop(lines) => {
            assert!(lines.iter().all(|l| l.to_stderr));
            let texts: Vec<&str> = lines.iter().map(|l| l.text.as_str()).collect();
            assert_eq!(
                texts,
                vec![
                    "\nError receiving build logs: gone",
                    "Error: Error receiving build logs: gone"
                ]
            );
        }
        _ => panic!("read on"),
    }
    assert_eq!(s.notification, "Error receiving build logs: gone");
    assert_eq!(log.finish(&mut s), None);
    assert_eq!(s.status_text, "Build failed");

    let mut s = AppState::default();
    build_refused(&mut s);
    assert_eq!(s.notification, "Failed to build firmware");
    assert!(s.notification_is_error);
    assert_eq!(s.status_text, "Build failed");
}

fn pull(id: Option<&str>, detail: Option<(Option<i64>, Option<i64>)>) -> PullInfo {
    PullInfo {
        id: id.map(|s| s.to_string()),
        progress_detail: detail.map(|(current, total)| ProgressDetail { current, total }),
    }
}

#[test]
fn a_download_is_measured_by_its_layers() {
    let mut d = Download::new();
    assert_eq!(d.report(&pull(None, None)), (0, 0));
    assert_eq!(d.progress().fraction(), (1, 1_000));
    assert_eq!(d.report(&pull(Some("a"), Some((None, None)))), (0, 0));
    assert_eq!(d.progress().fraction(), (1, 1_000));
    assert_eq!(
        d.report(&pull(Some("a"), Some((Some(50), Some(100))))),
        (50, 100)
    );
    assert_eq!(d.progress().fraction(), (50, 100));
    // A second layer lowers the share, but not the progress
    assert_eq!(
        d.report(&pull(Some("b"), Some((Some(0), Some(100))))),
        (50, 200)
    );
    assert_eq!(d.progress().fraction(), (50, 100));
    assert_eq!(
        d.report(&pull(Some("a"), Some((Some(100), Some(100))))),
        (100, 200)
    );
    assert_eq!(
        d.report(&pull(Some("b"), Some((Some(33), Some(100))))),
        (133, 200)
    );
    assert_eq!(d.progress().fraction(), (133, 200));
    // Sizes that cannot be used change nothing
    assert_eq!(
        d.report(&pull(Some("c"), Some((Some(9), Some(0))))),
        (133, 200)
    );
    assert_eq!(
        d.report(&pull(None, Some((Some(9), Some(9))))),
        (133, 200)
    );
    assert_eq!(d.progress().fraction(), (133, 200));
}

#[test]
fn shares_are_kept_exactly() {
    for (c, t) in [(1i64, 3i64), (2, 7), (999_999, 1_000_000), (5, 4), (i64::MAX, 1)] {
        let mut d = Download::new();
        d.report(&pull(Some("x"), Some((Some(c), Some(t)))));
        let (part, whole) = d.progress().fraction();
        assert_eq!((part as i64, whole as i64), (c, t));
        assert_eq!(part as f32 / whole as f32, c as f32 / t as f32);
    }
    let mut d = Download::new();
    d.report(&pull(Some("x"), Some((Some(-5), Some(10)))));
    assert_eq!(d.progress().fraction().0, 0);
    // A smaller share than the reports without sizes came to changes nothing
    let mut d = Download::new();
    d.report(&pull(None, None));
    d.report(&pull(Some("x"), Some((Some(1), Some(1_001)))));
    assert_eq!(d.progress().fraction(), (1, 1_000));
    d.report(&pull(Some("x"), Some((Some(1), Some(999)))));
    assert_eq!(d.progress().fraction(), (1, 999));
}

#[test]
fn reports_without_sizes_stop_short_of_the_end() {
    let mut d = Download::new();
    for n in 0..2_000u128 {
        assert_eq!(d.progress().fraction(), (n.min(990), 1_000));
        d.report(&pull(None, None));
    }
}

#[test]
fn a_download_is_read_up_to_its_first_failure() {
    let mut d = Download::new();
    let mut s = AppState::default();
    s.notification = "before".into();
    assert!(matches!(
        download_received(&mut d, &mut s, &PullItem::Report(pull(None, None))),
        PullAction::Show(None)
    ));
    let report = pull(Some("a"), Some((Some(1), Some(3))));
    assert!(matches!(
        download_received(&mut d, &mut s, &PullItem::Report(report)),
        PullAction::Show(Some((1, 3)))
    ));
    assert_eq!(d.progress().fraction(), (1, 3));
    assert_eq!(s.notification, "before");
    match download_received(&mut d, &mut s, &PullItem::Failure("no route".into())) {
        PullAction::Stop(lines) => {
            assert!(lines.iter().all(|l| l.to_stderr));
            let texts: Vec<&str> = lines.iter().map(|l| l.text.as_str()).collect();
            assert_eq!(
                texts,
                vec!["Pull error: no route", "Error: Pull error: no route"]
            );
        }
        PullAction::Show(_) => panic!("read on"),
    }
    assert_eq!(d.progress().fraction(), (1, 3));
    assert_eq!(s.notification, "Pull error: no route");
    assert!(s.notification_is_error);
}

#[test]
fn a_download_is_shown() {
    let mut s = AppState::default();
    s.image_exists = true;
    s.status_text = "x".into();
    download_started(&mut s);
    assert!(!s.image_exists);
    assert!(s.busy);
    assert_eq!(s.status_text, "x");
    let text = download_status(Some(("1.50", "3.00")));
    assert_eq!(text, "Downloading image builder: 1.50 / 3.00 MB");
    assert_eq!(download_status(None), "Downloading image builder");
    download_progressed(&mut s, Progress::of(1, 2), text);
    assert_eq!(s.progress_value.fraction(), (1, 2));
    assert_eq!(s.status_text, "Downloading image builder: 1.50 / 3.00 MB");
    download_broke_off(&mut s, "no route");
    assert_eq!(s.notification, "Pull error: no route");
}

#[test]
fn a_look_for_the_image_decides_what_comes_next() {
    let cases = [
        (Purpose::Selection, true, AfterLook::FetchPackages),
        (Purpose::Selection, false, AfterLook::Stop),
        (Purpose::Download, true, AfterLook::FetchPackages),
        (Purpose::Download, false, AfterLook::Stop),
        (Purpose::Preset, true, AfterLook::ComparePreset),
        (Purpose::Preset, false, AfterLook::Stop),
        (Purpose::Deletion, true, AfterLook::Stop),
        (Purpose::Deletion, false, AfterLook::Stop),
    ];
    for (purpose, found, next) in cases {
        let mut s = AppState::default();
        s.busy = true;
        let (after, line) = look_done(&mut s, purpose, Ok(found));
        assert_eq!(after, next);
        assert_eq!(line.is_none(), found);
        assert_eq!(s.image_exists, found);
        assert_eq!(s.notification, if found { "" } else { NOT_FOUND_LOCALLY });
        assert_eq!(s.busy, next != AfterLook::Stop);
    }
    let mut s = AppState::default();
    let (after, _) = look_done(&mut s, Purpose::Selection, Err("no engine"));
    assert_eq!(after, AfterLook::Stop);
    assert_eq!(s.notification, "no engine");
    assert!(!s.image_exists);
    image_check_failed(&mut s, "again");
    assert_eq!(s.notification, "again");
}

#[test]
fn fetched_packages_are_shown_and_kept() {
    let mut core = sample_core();
    let mut s = AppState::default();
    s.removed_packages_text = "old".into();
    packages_fetched(&mut s, &mut core, PackageList::from("a -luci"));
    assert_eq!(s.packages_text, "a luci-app-attendedsysupgrade -luci");
    assert_eq!(s.removed_packages_text, "");
    assert_eq!(core.packages.to_string(), s.packages_text);
    packages_not_fetched(&mut s, "why");
    assert_eq!(s.packages_text, "");
    assert_eq!(
        s.notification,
        "Error fetching package list for profile: why"
    );
    assert_eq!(
        core.packages.to_string(),
        "a luci-app-attendedsysupgrade -luci"
    );
    let mut twice = core.packages.clone();
    add_extras(&mut twice);
    assert_eq!(twice, core.packages);
}

fn device(target: &str, id: &str) -> SystemInfo {
    SystemInfo {
        version: Version::from("23.05.2"),
        target: Target::from(target),
        profile_id: ProfileId::from(id),
    }
}

#[test]
fn only_devices_that_fit_are_taken_over() {
    let t = Target::from("ath79/generic");
    let id = ProfileId::from("acme,one");
    let generic = ProfileId::from("generic");
    assert!(check_device(&t, &id, &device("ath79/generic", "acme,one")).is_none());
    assert!(check_device(&t, &generic, &device("ath79/generic", "acme,one")).is_none());
    assert_eq!(
        check_device(&t, &id, &device("x86/64", "acme,one")).unwrap(),
        "Wrong profile: expected ath79/generic acme_one, got x86/64 acme_one"
    );
    let mut s = AppState::default();
    s.packages_text = "kept".into();
    let (fits, line) = device_reported(&mut s, &t, &id, &device("ath79/generic", "two"));
    assert!(!fits);
    assert!(line.is_some());
    assert_eq!(
        s.notification,
        "Wrong profile: expected ath79/generic acme_one, got ath79/generic two"
    );
    assert_eq!(s.status_text, "Failed to fetch package list");
    assert_eq!(s.packages_text, "kept");
    let (fits, line) = device_reported(&mut s, &t, &generic, &device("ath79/generic", "two"));
    assert!(fits);
    assert!(line.is_none());
}

#[test]
fn packages_of_a_device_are_compared() {
    let kept = PackageList::from("a luci");
    let (all, gone) = compare_packages(Some(PackageList::from("a b")), &kept);
    assert_eq!(all.to_string(), "a b luci luci-app-attendedsysupgrade");
    assert_eq!(gone.to_string(), "b luci-app-attendedsysupgrade");
    let (all, gone) = compare_packages(None, &kept);
    assert_eq!(all.to_string(), "luci luci-app-attendedsysupgrade");
    assert_eq!(gone.to_string(), "luci-app-attendedsysupgrade");

    let mut s = AppState::default();
    fetch_started(&mut s, "192.168.1.1");
    assert_eq!(s.status_text, "Connecting to 192.168.1.1");
    let line = device_fetched(
        &mut s,
        &kept,
        &gone,
        &Version::from("23.05.2"),
        &Version::from("24.10.0"),
    );
    assert_eq!(s.packages_text, "a luci");
    assert_eq!(s.removed_packages_text, "luci-app-attendedsysupgrade");
    assert_eq!(
        s.notification,
        "Package list from 23.05 might be incompatible with 24.10."
    );
    assert!(s.notification_is_warning);
    assert!(line.unwrap().text.starts_with("Warning: "));
    assert!(!s.busy);
    assert!(warn_of_series(&ReleaseSeries::from("23.05"), &ReleaseSeries::from("23.05")).is_none());
}

#[test]
fn devices_that_do_not_answer_are_reported() {
    let mut s = AppState::default();
    s.busy = true;
    fetch_failed(&mut s, "refused");
    assert_eq!(s.notification, "SSH Error: refused");
    assert!(!s.busy);
    fetch_interrupted(&mut s, "cancelled");
    assert_eq!(s.notification, "Task Error: cancelled");
}

fn preset() -> Preset {
    Preset {
        release_series: ReleaseSeries::from("23.05"),
        target: Target::from("ath79/generic"),
        profile_id: "acme,one".into(),
        extra_image_name: "x".into(),
        rootfs_size: 0,
        packages: PackageList::from("a"),
        disabled_services: "dnsmasq".into(),
        overlay_path: PathBuf::from("/o"),
    }
}

#[test]
fn presets_are_named_after_profile_and_image() {
    let mut p = preset();
    assert_eq!(preset_file_name(&p), "preset-acme_one-x.json");
    p.extra_image_name = "".into();
    assert_eq!(preset_file_name(&p), "preset-acme_one.json");
}

#[test]
fn saving_a_preset_may_fail() {
    let mut s = AppState::default();
    s.busy = true;
    let path = PathBuf::from("/p.json");
    preset_saved(&mut s, Some(SaveFailure::Write(&path, "full")));
    assert_eq!(s.notification, "Error saving preset /p.json: full");
    assert!(!s.busy);
    preset_saved(&mut s, Some(SaveFailure::Serialize("odd")));
    assert_eq!(s.notification, "Failed to serialize preset: odd");
    assert!(preset_saved(&mut s, None).is_none());
    assert_eq!(s.notification, "Failed to serialize preset: odd");
}

#[test]
fn a_preset_is_loaded() {
    let mut core = sample_core();
    let mut s = AppState::default();
    s.packages_text = "old".into();
    let p = preset();
    let found = match preset_read(&mut s, &core, &p) {
        Ok(f) => f,
        Err(_) => panic!("not found"),
    };
    assert_eq!(found.name, "Acme One (acme_one)");
    assert_eq!(s.search_text, "Acme One (acme_one)");
    assert_eq!(s.selected_id, "acme_one");
    assert_eq!(s.selected_model, "Acme One");
    assert_eq!(s.selected_target, "ath79/generic");
    assert_eq!(s.overlay_path_text, "/o");
    assert_eq!(s.packages_text, "");

    let line = preset_compared(
        &mut s,
        &mut core,
        &p,
        Some(PackageList::from("a b")),
        &Version::from("24.10.1"),
    );
    assert!(line.is_some());
    assert_eq!(s.packages_text, "a");
    assert_eq!(
        s.removed_packages_text,
        "b luci luci-app-attendedsysupgrade"
    );
    assert_eq!(s.disabled_services_text, "dnsmasq");
    assert_eq!(s.extra_image_name_text, "x");
    assert_eq!(s.rootfs_size_text, "");
    assert_eq!(
        s.notification,
        "Package list from 23.05 might be incompatible with 24.10."
    );
    assert_eq!(
        core.packages.to_string(),
        "a b luci luci-app-attendedsysupgrade"
    );

    let mut sized = preset();
    sized.rootfs_size = 512;
    let line = preset_compared(&mut s, &mut core, &sized, None, &Version::from("23.05.1"));
    assert!(line.is_none());
    assert_eq!(s.rootfs_size_text, "512");
}

#[test]
fn a_preset_without_its_profile_is_refused() {
    let core = sample_core();
    let mut s = AppState::default();
    let mut p = preset();
    p.target = Target::from("x86/64");
    let lines = match preset_read(&mut s, &core, &p) {
        Ok(_) => panic!("found"),
        Err(lines) => lines,
    };
    assert!(lines.iter().all(|l| l.to_stderr));
    let reason = "Profile 'acme_one' for target 'x86/64' not found in current version";
    assert_eq!(lines[0].text, format!("Error loading preset: {reason}"));
    assert_eq!(lines[1].text, format!("Error: {reason}"));
    assert_eq!(lines.len(), 2);
    assert_eq!(
        s.notification,
        "Profile 'acme_one' for target 'x86/64' not found in current version"
    );
}

#[test]
fn a_profile_without_titles_is_shown_by_its_id() {
    let mut core = sample_core();
    core.profiles[0].titles.clear();
    let mut s = AppState::default();
    let found = match preset_read(&mut s, &core, &preset()) {
        Ok(f) => f,
        Err(_) => panic!("not found"),
    };
    assert_eq!(found.name, "acme_one");
    assert_eq!(found.model, "");
}

#[test]
fn short_queries_find_nothing() {
    let core = sample_core();
    let mut s = AppState::default();
    s.selected_id = "old".into();
    profile_search(&mut s, &core, "acm");
    assert_eq!(s.profiles, vec!["Acme One (acme_one)"]);
    assert_eq!(s.selected_id, "");
    assert_eq!(s.current_highlighted_profile_index, -1);
    profile_search(&mut s, &core, "ac");
    assert!(s.profiles.is_empty());
    profile_search(&mut s, &core, "\u{e9}\u{e9}");
    assert!(s.profiles.is_empty());
}

fn key(key: SearchKey, index: i32, n: usize) -> ProfileSearchKeyData {
    ProfileSearchKeyData {
        profiles: (0..n).map(|i| format!("p{i}")).collect(),
        index,
        key,
        version: "23.05.2".into(),
    }
}

fn highlighted(data: ProfileSearchKeyData) -> Option<i32> {
    match search_key_pressed(&data) {
        KeyAction::Highlight(i) => Some(i),
        _ => None,
    }
}

#[test]
fn keys_move_the_highlight() {
    assert_eq!(highlighted(key(SearchKey::Down, -1, 3)), Some(0));
    assert_eq!(highlighted(key(SearchKey::Down, 2, 3)), Some(0));
    assert_eq!(highlighted(key(SearchKey::Down, 0, 3)), Some(1));
    assert_eq!(highlighted(key(SearchKey::Up, 0, 3)), Some(2));
    assert_eq!(highlighted(key(SearchKey::Up, -1, 3)), Some(2));
    assert_eq!(highlighted(key(SearchKey::Up, 2, 3)), Some(1));
    assert_eq!(highlighted(key(SearchKey::Down, 0, 0)), None);
    assert_eq!(highlighted(key(SearchKey::Other, 0, 3)), None);
    for index in -9..9 {
        assert_eq!(
            highlighted(key(SearchKey::Down, index, 4)),
            Some((index + 1) % 4)
        );
    }
    // Only a step down needs a position after the last one
    assert_eq!(
        highlighted(key(SearchKey::Up, i32::MAX, 3)),
        Some(i32::MAX - 1)
    );
    assert_eq!(highlighted(key(SearchKey::Down, i32::MAX, 0)), None);
    assert_eq!(highlighted(key(SearchKey::Return, i32::MAX, 3)), None);
    let mut s = AppState::default();
    highlight(&mut s, 2);
    assert_eq!(s.current_highlighted_profile_index, 2);
}

#[test]
fn return_picks_the_highlighted_name() {
    match search_key_pressed(&key(SearchKey::Return, 1, 3)) {
        KeyAction::Pick(p) => {
            assert_eq!(p.name, "p1");
            assert_eq!(p.version, "23.05.2");
        }
        _ => panic!("nothing picked"),
    }
    for (index, n) in [(-1, 3), (3, 3), (0, 0)] {
        assert!(matches!(
            search_key_pressed(&key(SearchKey::Return, index, n)),
            KeyAction::Ignore
        ));
    }
}

#[test]
fn a_picked_profile_is_shown() {
    let core = sample_core();
    let mut s = AppState::default();
    s.profiles = vec!["x".into()];
    let data = ProfileData {
        version: "23.05.2".into(),
        name: "ACME one (acme_one)".into(),
    };
    let p = profile_selected(&mut s, &core, &data).unwrap();
    assert_eq!(p.id.as_str(), "acme_one");
    assert!(s.profiles.is_empty());
    assert_eq!(s.search_text, "ACME one (acme_one)");
    assert_eq!(s.selected_id, "acme_one");
    assert_eq!(s.selected_target, "ath79/generic");
    assert_eq!(s.selected_model, "Acme One");
    assert_eq!(s.status_text, "Fetching package list");
    let none = ProfileData {
        version: "".into(),
        name: "nobody".into(),
    };
    let mut s = AppState::default();
    assert!(profile_selected(&mut s, &core, &none).is_none());
    assert_eq!(s.search_text, "");
}

#[test]
fn old_versions_and_candidates_are_not_listed() {
    let core = sample_core();
    assert_eq!(filter_versions(&core.versions, false), vec!["24.10.0"]);
    assert_eq!(
        filter_versions(&core.versions, true),
        vec!["24.10.0", "24.10.0-rc1"]
    );
}

#[test]
fn hiding_candidates_drops_a_selected_one() {
    let core = sample_core();
    let mut s = AppState::default();
    s.selected_version = "24.10.0-rc1".into();
    s.search_text = "x".into();
    s.packages_text = "a".into();
    show_rcs_toggled(
        &mut s,
        &core,
        &ShowRcsData {
            show_rcs: true,
            version: "24.10.0-rc1".into(),
        },
    );
    assert_eq!(s.versions.len(), 2);
    assert_eq!(s.selected_version, "24.10.0-rc1");
    show_rcs_toggled(
        &mut s,
        &core,
        &ShowRcsData {
            show_rcs: false,
            version: "24.10.0-rc1".into(),
        },
    );
    assert_eq!(s.versions, vec!["24.10.0"]);
    assert_eq!(s.selected_version, "");
    assert_eq!(s.search_text, "");
    assert_eq!(s.packages_text, "");
}

#[test]
fn a_version_is_changed() {
    let mut core = sample_core();
    let mut s = AppState::default();
    let v = version_changed(&mut s, "24.10.1");
    assert_eq!(s.selected_version, "24.10.1");
    assert!(s.busy);
    profiles_not_loaded(&mut s, &v);
    assert_eq!(
        s.notification,
        "Failed to fetch profiles for version 24.10.1"
    );
    assert!(s.profiles_fetch_failed);
    assert!(!s.busy);
    profiles_loaded(&mut s, &mut core, Vec::new());
    assert!(!s.profiles_fetch_failed);
    assert!(core.profiles.is_empty());
}

#[test]
fn the_application_starts() {
    let mut core = sample_core();
    let mut s = AppState::default();
    window_opened(&mut s, &PathBuf::from("/b"), "1.2.3");
    assert_eq!(s.build_path_text, "/b");
    assert_eq!(s.version, "1.2.3");
    assert_eq!(s.status_text, "Fetching versions");
    let loaded = core.versions.clone();
    let (first, line) = versions_loaded(&mut s, &mut core, loaded, true);
    assert_eq!(first, Some(Version::from("24.10.0")));
    assert!(line.is_none());
    assert_eq!(s.versions.len(), 2);
    assert_eq!(s.selected_version, "24.10.0");
    first_profiles_loaded(&mut core, Vec::new());
    assert!(core.profiles.is_empty());
    startup_done(&mut s);
    assert!(!s.busy);
    first_profiles_not_loaded(&mut s, "x");
    assert_eq!(s.notification, "Initial load error: x");
    assert!(s.profiles_fetch_failed);
}

#[test]
fn a_start_may_fail() {
    let mut core = sample_core();
    let mut s = AppState::default();
    engine_missing(&mut s);
    assert_eq!(s.notification, NO_ENGINE);
    assert_eq!(s.status_text, "No container engines found");
    versions_not_loaded(&mut s, "offline");
    assert_eq!(s.notification, "Initial load error: offline");
    let (first, line) = versions_loaded(&mut s, &mut core, vec![Version::from("19.07.1")], true);
    assert_eq!(first, None);
    assert!(line.is_some());
    assert_eq!(s.notification, NO_VERSIONS);
    assert_eq!(core.versions.len(), 1);
}

#[test]
fn the_command_line_may_ask_for_the_version() {
    let args = |v: &[&str]| v.iter().map(|s| s.to_string()).collect::<Vec<_>>();
    assert!(wants_version(&args(&["bouwer", "--version"])));
    assert!(wants_version(&args(&["bouwer", "x", "-v"])));
    assert!(!wants_version(&args(&["bouwer", "--verbose"])));
    assert!(!wants_version(&Vec::new()));
}

#[test]
fn image_builders_are_listed_newest_first() {
    let tags: Vec<(String, String)> = [
        ("i:zzz", "1 MB"),
        ("i:ath79-generic-23.05.2", "2 MB"),
        ("i:x86-64-24.10.0", "3 MB"),
        ("i:aaa", "4 MB"),
        ("i:ath79-generic-24.10.0", "5 MB"),
        ("i:ath79-generic-24.10.0-rc1", "6 MB"),
    ]
    .iter()
    .map(|(a, b)| (a.to_string(), b.to_string()))
    .collect();
    let list = list_builders(&tags);
    let shown: Vec<String> = list
        .iter()
        .map(|i| format!("{}|{}|{}", i.version, i.target, i.size))
        .collect();
    assert_eq!(
        shown,
        vec![
            "24.10.0|ath79/generic|5 MB",
            "24.10.0|x86/64|3 MB",
            "24.10.0-rc1|ath79/generic|6 MB",
            "23.05.2|ath79/generic|2 MB",
            "i:aaa||4 MB",
            "i:zzz||1 MB",
        ]
    );
    let mut s = AppState::default();
    builders_listed(&mut s, list);
    assert_eq!(s.downloaded_builders.len(), 6);
    builders_not_listed(&mut s, "x");
    assert_eq!(s.notification, "Failed to initialize container engine: x");
}

#[test]
fn deleted_image_builders_are_named() {
    assert_eq!(
        deleted_message("i:x86-64-24.10.0"),
        "Image builder for 24.10.0 x86/64 deleted."
    );
    assert_eq!(deleted_message("odd"), "Image builder odd deleted.");
    assert!(named_by(&ImageTag::from("odd")).is_none());
    let mut s = AppState::default();
    delete_started(&mut s);
    assert_eq!(s.status_text, "Deleting image builder");
    let (line, look) = deleted(&mut s, "odd", "");
    assert_eq!(line.unwrap().text, "Image builder odd deleted.");
    assert!(!look);
    assert!(deleted(&mut s, "odd", "id").1);
    come_to_rest(&mut s);
    assert_eq!(s.status_text, "");
    not_deleted(&mut s, "in use");
    assert_eq!(s.notification, "Failed to delete image: in use");
    delete_refused(&mut s, "down");
    assert_eq!(s.notification, "Failed to initialize container engine: down");
}

#[test]
fn a_busy_window_stays_open() {
    let mut s = AppState::default();
    let (close, line) = close_requested(&mut s);
    assert!(close);
    assert!(line.is_none());
    s.busy = true;
    let (close, line) = close_requested(&mut s);
    assert!(!close);
    assert_eq!(line.unwrap().text, format!("Warning: {STILL_BUSY}"));
    assert_eq!(s.notification, STILL_BUSY);
    assert!(s.notification_is_warning);
}

#[test]
fn folders_are_set_and_opened() {
    let mut core = sample_core();
    let mut s = AppState::default();
    build_path_edited(&mut core, "/x");
    assert_eq!(core.config.build_path, PathBuf::from("/x"));
    assert_eq!(
        folder_to_open(&core, "ath79/generic"),
        PathBuf::from("/x/ath79/generic")
    );
    build_folder_selected(&mut s, &mut core, &PathBuf::from("/y"));
    assert_eq!(core.config.build_path, PathBuf::from("/y"));
    assert_eq!(s.build_path_text, "/y");
    overlay_folder_selected(&mut s, &PathBuf::from("/z"));
    assert_eq!(s.overlay_path_text, "/z");

    let path = PathBuf::from("/y");
    assert!(folder_opened(&mut s, OpenOutcome::Opened, &path).is_none());
    folder_opened(&mut s, OpenOutcome::Missing, &path);
    assert_eq!(s.notification, "Folder does not exist: /y");
    folder_opened(&mut s, OpenOutcome::Failed, &path);
    assert_eq!(s.notification, "Failed to open folder: /y");
    folder_opened(&mut s, OpenOutcome::Unsupported, &path);
    assert_eq!(
        s.notification,
        "Opening file explorer is not supported on this OS."
    );
}

#[test]
fn edited_packages_are_compared() {
    let core = sample_core();
    let mut s = AppState::default();
    packages_edited(&mut s, " luci dropbear ");
    assert_eq!(s.packages_text, " luci dropbear ");
    edited_packages_compared(&mut s, &core, " luci dropbear ");
    assert_eq!(s.removed_packages_text, "base-files");
}

#[test]
fn keys_of_the_agent_are_offered() {
    let mut s = AppState::default();
    identities_listed(&mut s, vec!["k".into()]);
    assert_eq!(s.ssh_agent_identities, vec!["", "k"]);
    identities_not_listed(&mut s);
    assert_eq!(s.notification, NO_AGENT);
    assert!(s.notification_is_warning);
}

#[test]
fn only_a_download_waits_for_the_image() {
    assert!(waits(Purpose::Download));
    assert!(!waits(Purpose::Selection));
    assert!(!waits(Purpose::Preset));
    assert!(!waits(Purpose::Deletion));
}

#[test]
fn each_platform_opens_folders_in_its_way() {
    let cases = [
        (Platform::Linux, Some("xdg-open"), OpenOutcome::Failed),
        (Platform::MacOs, Some("open"), OpenOutcome::Failed),
        (Platform::Windows, Some("explorer"), OpenOutcome::Opened),
    ];
    for (platform, program, after_failure) in cases {
        assert_eq!(opener(platform), program);
        assert_eq!(open_outcome(platform, true, true), OpenOutcome::Opened);
        assert_eq!(open_outcome(platform, true, false), after_failure);
        assert_eq!(open_outcome(platform, false, false), OpenOutcome::Missing);
    }
    for platform in [Platform::OtherUnix, Platform::Other] {
        assert_eq!(opener(platform), None);
        assert_eq!(
            open_outcome(platform, true, false),
            OpenOutcome::Unsupported
        );
        assert_eq!(open_outcome(platform, false, false), OpenOutcome::Missing);
    }
}
