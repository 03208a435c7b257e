use bouwer::data::{OpenWrtOverview, OpenWrtVersions, Preset, Profile, ProfileTitle};
use bouwer::profiles::{
    filter_profiles, find_profile_by_display_name, format_model, format_profile,
    get_all_models_string, profile_matches,
};

fn records() -> Vec<Profile> {
    vec![
        Profile {
            id: "generic".into(),
            titles: vec![ProfileTitle {
                model: Some("x86/64".into()),
                vendor: Some("Generic".into()),
                variant: None,
                title: Some("Generic thing".into()),
            }],
            target: "x86/64".into(),
        },
        Profile {
            id: "acme,one".into(),
            titles: vec![
                ProfileTitle {
                    model: Some("One".into()),
                    vendor: Some("Acme".into()),
                    variant: Some("V2".into()),
                    title: None,
                },
                ProfileTitle {
                    model: None,
                    vendor: None,
                    variant: None,
                    title: None,
                },
            ],
            target: "ath79/generic".into(),
        },
    ]
}

#[test]
fn records_are_shown_by_title_and_id() {
    let all = records();
    assert_eq!(format_profile(&all[0]), vec!["Generic thing (generic)"]);
    assert_eq!(
        format_profile(&all[1]),
        vec!["Acme One V2 (acme,one)", " (acme,one)"]
    );
    assert_eq!(format_model(&all[0].titles[0]), "Generic x86/64");
    assert_eq!(get_all_models_string(&all[1]), "Acme One V2");
}

#[test]
fn records_are_searched_by_title_and_model() {
    let all = records();
    // The model is searched even where a title hides it
    assert!(profile_matches(&all[0], "x86"));
    assert!(profile_matches(&all[0], "thing"));
    assert!(!profile_matches(&all[0], "acme"));
    assert_eq!(
        filter_profiles(&all, " ACME "),
        vec!["Acme One V2 (acme,one)", " (acme,one)"]
    );
    assert_eq!(filter_profiles(&all, "").len(), 3);
    assert!(filter_profiles(&all, "nothing").is_empty());
    assert_eq!(filter_profiles(&all, "acme"), filter_profiles(&all, "ACME"));
    assert_eq!(filter_profiles(&all, "acm"), filter_profiles(&all, "\u{a0}Acm\t"));
    assert!(profile_matches(&all[1], "acme"));
    assert!(profile_matches(&all[1], "cm"));
    assert!(!profile_matches(&all[1], "Acme"));
}

#[test]
fn records_are_found_by_display_name() {
    let all = records();
    let found = find_profile_by_display_name(&all, "generic THING (generic)").unwrap();
    assert_eq!(found.id, "generic");
    assert_eq!(found.target, "x86/64");
    assert!(find_profile_by_display_name(&all, "generic thing").is_none());
}

#[test]
fn an_empty_preset_has_empty_texts() {
    let p = Preset::default();
    assert_eq!(p.release_series, "");
    assert_eq!(p.rootfs_size, "");
    assert_eq!(p.overlay_path, "");
}

#[test]
fn lists_of_records() {
    let overview = OpenWrtOverview { profiles: records() };
    assert_eq!(overview.profiles.len(), 2);
    let versions = OpenWrtVersions {
        versions_list: vec!["23.05.2".to_string()],
    };
    assert_eq!(versions.versions_list.len(), 1);
}
