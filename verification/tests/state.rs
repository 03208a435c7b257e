use bouwer::domain::Version;
use bouwer::progress::Progress;
use bouwer::state::{AppState, Notification, UIState};

fn filled() -> AppState {
    let mut s = AppState::default();
    s.search_text = "query".into();
    s.selected_id = "id".into();
    s.selected_version = "23.05.2".into();
    s.packages_text = "a b".into();
    s.original_packages = vec!["a".into()];
    s.versions = vec!["23.05.2".into()];
    s.status_text = "before".into();
    s.progress_value = Progress::of(7, 10);
    s.progress_visible = true;
    s.image_exists = true;
    s
}

#[test]
fn at_rest_nothing_goes_on() {
    let mut s = filled();
    s.busy = true;
    s.switch_to(UIState::Idle(Some("done".into())));
    assert!(!s.busy);
    assert_eq!(s.progress_value.fraction(), (0, 1));
    assert!(!s.progress_visible);
    assert_eq!(s.status_text, "done");
    s.switch_to(UIState::Idle(None));
    assert_eq!(s.status_text, "");
    s.switch_to(UIState::Error("bad".into()));
    assert!(!s.busy);
    assert_eq!(s.status_text, "bad");
    assert_eq!(s.packages_text, "a b");
}

#[test]
fn measured_tasks_keep_the_status_unless_there_is_a_new_one() {
    let mut s = filled();
    s.switch_to(UIState::Building {
        progress: Some(Progress::of(1, 3)),
        status: None,
    });
    assert!(s.busy);
    assert!(s.progress_visible);
    assert_eq!(s.progress_value.fraction(), (1, 3));
    assert_eq!(s.status_text, "before");
    s.switch_to(UIState::DownloadingBuilder {
        progress: None,
        status: Some("now".into()),
    });
    assert_eq!(s.progress_value.fraction(), (0, 1));
    assert_eq!(s.status_text, "now");
    s.switch_to(UIState::FetchingFromDevice {
        progress: None,
        status: Some("host".into()),
    });
    assert!(s.busy);
    assert_eq!(s.status_text, "host");
}

#[test]
fn other_tasks_have_their_texts() {
    let cases = [
        (UIState::FetchingPackages, "Fetching package list", true),
        (UIState::LoadingPreset, "Loading preset", true),
        (UIState::SavingPreset, "Saving preset", true),
        (UIState::LoadingVersions, "Fetching versions", true),
        (UIState::SelectBuildFolder, "Select build folder", false),
        (UIState::SelectOverlayFolder, "Select overlay folder", false),
    ];
    for (task, text, bar) in cases {
        let mut s = filled();
        s.switch_to(task);
        assert!(s.busy);
        assert_eq!(s.status_text, text);
        assert_eq!(s.progress_visible, bar);
        assert_eq!(
            s.progress_value.fraction(),
            if bar { (0, 1) } else { (7, 10) }
        );
        assert_eq!(s.search_text, "query");
    }
}

#[test]
fn loading_profiles_drops_the_selection() {
    let mut s = filled();
    s.switch_to(UIState::LoadingProfiles(Version::from("24.10.0-rc1")));
    assert_eq!(s.search_text, "");
    assert_eq!(s.selected_id, "");
    assert_eq!(s.selected_version, "24.10.0-rc1");
    assert_eq!(s.status_text, "Fetching profiles");
    assert!(s.busy);
}

#[test]
fn notifications_are_shown_and_logged() {
    let mut s = filled();
    let line = s.set_notification(Notification::Error, Some("x")).unwrap();
    assert!(s.notification_is_error);
    assert!(!s.notification_is_warning);
    assert_eq!(s.notification, "x");
    assert!(line.to_stderr);
    assert_eq!(line.text, "Error: x");

    let line = s.set_notification(Notification::Warning, Some("y")).unwrap();
    assert!(s.notification_is_warning);
    assert!(!s.notification_is_error);
    assert_eq!(line.text, "Warning: y");

    let line = s.set_notification(Notification::Info, Some("z")).unwrap();
    assert!(!line.to_stderr);
    assert_eq!(line.text, "z");
    assert_eq!(s.notification, "z");

    assert!(s.set_notification(Notification::Error, None).is_none());
    assert_eq!(s.notification, "");
    assert!(!s.notification_is_error);
}

#[test]
fn a_reset_clears_the_profile_and_nothing_else() {
    let mut s = filled();
    s.set_notification(Notification::Error, Some("x"));
    s.reset_profile();
    assert_eq!(s.selected_id, "");
    assert_eq!(s.packages_text, "");
    assert!(s.original_packages.is_empty());
    assert!(!s.image_exists);
    assert!(!s.progress_visible);
    assert_eq!(s.notification, "");
    assert!(!s.notification_is_error);
    assert_eq!(s.search_text, "query");
    assert_eq!(s.selected_version, "23.05.2");
    assert_eq!(s.versions.len(), 1);
}

#[test]
fn the_further_of_two_is_found_exactly() {
    let cases: [((u128, u128), (u128, u128), bool); 8] = [
        ((1, 3), (333_333, 1_000_000), false),
        ((333_333, 1_000_000), (1, 3), true),
        ((1, 2), (2, 4), false),
        ((0, 5), (0, 1), false),
        ((0, 5), (1, u128::MAX), true),
        ((u128::MAX - 1, u128::MAX), (u128::MAX, u128::MAX), true),
        ((u128::MAX, u128::MAX - 1), (u128::MAX - 1, u128::MAX - 2), true),
        ((7, 2), (10, 3), false),
    ];
    for (a, b, second) in cases {
        let r = Progress::of(a.0, a.1).further(Progress::of(b.0, b.1));
        assert_eq!(r.fraction(), if second { b } else { a });
    }
}
