use bouwer::data;
use bouwer::domain::overview::{
    load_profiles, load_versions, save_profiles, OpenWrtOverview, OpenWrtVersions,
};
use bouwer::domain::preset::{
    deserialize_u32_or_string, is_path_empty, is_zero, PresetRecord, U32OrString,
};
use bouwer::domain::target::{INVALID_TAG, UNPARSED_TAG};
use bouwer::domain::{
    ImageTag, Package, PackageList, Preset, Profile, ProfileId, ProfileSliceExt, ProfileTitle,
    ReleaseSeries, Target, Version,
};
use bouwer::requests::BuildData;
use bouwer::text::number::NumberError;
use serde_json::Value;
use std::path::PathBuf;

#[test]
fn test_profile_id_normalization() {
    let cases = [
        ("zyxel,ex5601-t0-ubootmod", "zyxel_ex5601-t0-ubootmod"),
        ("zyxel_ex5601-t0-ubootmod", "zyxel_ex5601-t0-ubootmod"),
    ];
    for (input, expected) in cases {
        assert_eq!(ProfileId::from(input).as_str(), expected);
    }
}

#[test]
fn test_version_parsing_and_display() {
    let cases = [
        ("23.05.2", 23, 5, 2, None),
        ("23.05.0-rc3", 23, 5, 0, Some(3)),
        ("21.02.0-rc1", 21, 2, 0, Some(1)),
        ("25.12.0-rc12", 25, 12, 0, Some(12)),
        ("19.07.10", 19, 7, 10, None),
        ("0.00.0", 0, 0, 0, None),
    ];

    for (input, major, minor, patch, rc) in cases {
        let v = Version::from(input);
        assert_eq!(v.major, major);
        assert_eq!(v.minor, minor);
        assert_eq!(v.patch, patch);
        assert_eq!(v.rc, rc);
        assert_eq!(v.to_string(), input);
    }
}

#[test]
fn test_version_ordering() {
    let v1 = Version::from("23.05.0-rc1");
    let v2 = Version::from("23.05.0-rc2");
    let v3 = Version::from("23.05.0");
    let v4 = Version::from("23.05.1");
    let v5 = Version::from("24.10.0");

    assert!(v1 < v2);
    assert!(v2 < v3);
    assert!(v3 < v4);
    assert!(v4 < v5);
}

#[test]
fn test_target_logic() {
    let t = Target::from("ath79/generic");
    assert_eq!(t.target, "ath79");
    assert_eq!(t.subtarget, "generic");
    assert_eq!(t.to_slug(), "ath79-generic");
    assert_eq!(t.to_path(), PathBuf::from("ath79").join("generic"));

    let t2 = Target::from("realtek/rtl931x_nand");
    assert_eq!(t2.to_slug(), "realtek-rtl931x_nand");
}

#[test]
fn test_image_tag_conversions() {
    let tag = ImageTag::from("openwrt/imagebuilder:ramips-mt7621-23.05.2".to_string());
    let t = Target::try_from(&tag).expect("Failed to parse target from tag");
    let v = Version::try_from(&tag).expect("Failed to parse version from tag");
    assert_eq!(t.to_string(), "ramips/mt7621");
    assert_eq!(v.to_string(), "23.05.2");

    let tag = ImageTag::from("base:x86-64-21.02.0-rc1".to_string());
    let t = Target::try_from(&tag).unwrap();
    let v = Version::try_from(&tag).unwrap();
    assert_eq!(t.to_string(), "x86/64");
    assert_eq!(v.to_string(), "21.02.0-rc1");
}

#[test]
fn test_profile_title_formatting() {
    let pt1 = ProfileTitle {
        model: Some("C200".into()),
        vendor: Some("Ctera".into()),
        variant: Some("V1".into()),
        title: None,
    };
    assert_eq!(pt1.to_string(), "Ctera C200 V1");

    let pt2 = ProfileTitle {
        model: Some("LoongArch64".into()),
        vendor: Some("Generic".into()),
        variant: None,
        title: None,
    };
    assert_eq!(pt2.to_string(), "Generic LoongArch64");

    let pt3 = ProfileTitle {
        model: None,
        vendor: None,
        variant: None,
        title: Some("Generic EFI Boot".into()),
    };
    assert_eq!(pt3.to_string(), "Generic EFI Boot");
}

const VERSIONS: &str = r#"{"versions_list": ["25.12.2", "25.12.1", "25.12.0-rc5"]}"#;

const OVERVIEW: &str = r#"{"profiles": [
    {"id": "zyxel_ex5601-t0-ubootmod", "target": "mediatek/filogic", "titles": [
        {"vendor": "Zyxel", "model": "EX5601-T0", "variant": "(OpenWrt U-Boot layout)"},
        {"vendor": "Zyxel", "model": "EX5601-T1"},
        {"vendor": "Zyxel", "model": "T-56"}
    ]},
    {"id": "generic", "target": "loongarch64/generic", "titles": [
        {"title": "Generic EFI Boot"}
    ]},
    {"id": "ctera_c200-v1", "target": "kirkwood/generic", "titles": [
        {"vendor": "Ctera", "model": "C200", "variant": "V1"}
    ]}
]}"#;

fn text_of(v: &Value, name: &str) -> Option<String> {
    v.get(name).and_then(Value::as_str).map(ToString::to_string)
}

fn list_of<'a>(v: &'a Value, name: &str) -> &'a Vec<Value> {
    v.get(name).and_then(Value::as_array).unwrap()
}

#[test]
fn test_version_deserialization() {
    let versions: Value =
        serde_json::from_str(VERSIONS).expect("Failed to deserialize versions fixture");
    let texts: Vec<String> = list_of(&versions, "versions_list")
        .iter()
        .map(|v| v.as_str().unwrap().to_string())
        .collect();
    let versions = OpenWrtVersions {
        versions_list: load_versions(&texts),
    };
    assert!(!versions.versions_list.is_empty());

    let first = &versions.versions_list[0];
    assert_eq!(first.to_string(), "25.12.2");

    let rc_version = &versions.versions_list[2];
    assert_eq!(rc_version.to_string(), "25.12.0-rc5");
    assert_eq!(rc_version.rc, Some(5));
}

#[test]
fn test_overview_deserialization() {
    let overview: Value =
        serde_json::from_str(OVERVIEW).expect("Failed to deserialize overview fixture");
    let records: Vec<data::Profile> = list_of(&overview, "profiles")
        .iter()
        .map(|p| data::Profile {
            id: text_of(p, "id").unwrap(),
            titles: list_of(p, "titles")
                .iter()
                .map(|t| ProfileTitle {
                    model: text_of(t, "model"),
                    vendor: text_of(t, "vendor"),
                    variant: text_of(t, "variant"),
                    title: text_of(t, "title"),
                })
                .collect(),
            target: text_of(p, "target").unwrap(),
        })
        .collect();
    let overview = OpenWrtOverview {
        profiles: load_profiles(&records),
    };
    assert_eq!(overview.profiles.len(), 3);

    let multitle_profile = overview
        .profiles
        .iter()
        .find(|p| p.id.as_str() == "zyxel_ex5601-t0-ubootmod")
        .unwrap();
    assert_eq!(multitle_profile.titles.len(), 3);
    assert_eq!(
        multitle_profile.format_all_models(),
        "Zyxel EX5601-T0 (OpenWrt U-Boot layout) / Zyxel EX5601-T1 / Zyxel T-56"
    );

    let multitle_profile = overview
        .profiles
        .iter()
        .find(|p| p.id.as_str() == "generic")
        .unwrap();
    assert_eq!(multitle_profile.titles.len(), 1);
    assert_eq!(multitle_profile.format_all_models(), "Generic EFI Boot");
}

#[test]
fn test_profile_filtering() {
    let profiles = [
        Profile {
            id: "zyxel,ex5601-t0-ubootmod".into(),
            titles: vec![ProfileTitle {
                model: Some("EX5601-T0".into()),
                vendor: Some("Zyxel".into()),
                variant: Some("(OpenWrt U-Boot layout)".into()),
                title: None,
            }],
            target: Target::from("mediatek/filogic"),
        },
        Profile {
            id: "generic".into(),
            titles: vec![ProfileTitle {
                model: Some("x86/64".into()),
                vendor: Some("Generic".into()),
                variant: None,
                title: Some("Generic thing".into()),
            }],
            target: Target::from("x86/64"),
        },
    ];

    // Match by ID
    assert_eq!(profiles.filter("ex5601-t0-ubootmod").len(), 1);
    // Match by title
    assert_eq!(profiles.filter("generic thing").len(), 1);
    // Normalized case matching
    assert_eq!(profiles.filter("EX5601-T0").len(), 1);
    assert_eq!(profiles.filter("nomatch").len(), 0);

    let display_name = "Zyxel EX5601-T0 (OpenWrt U-Boot layout) (zyxel_ex5601-t0-ubootmod)";
    let found = profiles.find_by_display_name(display_name);
    assert!(found.is_some());
    assert_eq!(found.unwrap().id.as_str(), "zyxel_ex5601-t0-ubootmod");
}

#[test]
fn test_release_series_parsing() {
    let rs = ReleaseSeries::from("23.05.2");
    assert_eq!(rs.major, 23);
    assert_eq!(rs.minor, 5);
    assert_eq!(rs.to_string(), "23.05");

    let rs_rc = ReleaseSeries::from("25.12.0-rc5");
    assert_eq!(rs_rc.major, 25);
    assert_eq!(rs_rc.minor, 12);
}

#[test]
fn test_package_display() {
    let p1 = Package {
        name: "luci".into(),
        enabled: true,
    };
    let p2 = Package {
        name: "dnsmasq".into(),
        enabled: false,
    };
    assert_eq!(p1.to_string(), "luci");
    assert_eq!(p2.to_string(), "-dnsmasq");
}

#[test]
fn test_package_list_display() {
    let list = PackageList::from(vec![
        Package {
            name: "pkg1".into(),
            enabled: true,
        },
        Package {
            name: "pkg2".into(),
            enabled: false,
        },
        Package {
            name: "pkg3".into(),
            enabled: true,
        },
    ]);
    assert_eq!(list.to_string(), "pkg1 pkg3 -pkg2");
}

#[test]
fn test_package_list_from_str() {
    let input = "  pkg1   -pkg2  pkg3  ";
    let list = PackageList::from(input);
    assert_eq!(list.len(), 3);

    assert_eq!(list[0].name, "pkg1");
    assert!(list[0].enabled);

    assert_eq!(list[1].name, "pkg3");
    assert!(list[1].enabled);

    assert_eq!(list[2].name, "pkg2");
    assert!(!list[2].enabled);

    assert_eq!(list.to_string(), "pkg1 pkg3 -pkg2");
}

#[test]
fn test_package_conversions() {
    let p1 = Package::from("abc");
    assert_eq!(p1.name, "abc");
    assert!(p1.enabled);

    let p2 = Package::from("def".to_string());
    assert_eq!(p2.name, "def");
    assert!(p2.enabled);
}

#[test]
fn test_package_list_default() {
    let list = PackageList::default();
    assert!(list.is_empty());
}

#[test]
fn test_package_list_diff() {
    let left = PackageList::from("pkg1 pkg2 pkg3");
    let right = PackageList::from("pkg2 pkg4");

    let diff = left.diff(&right);

    // pkg1 and pkg3 should remain from list1
    assert_eq!(diff.len(), 2);
    assert_eq!(diff.to_string(), "pkg1 pkg3");

    let empty = PackageList::default();
    assert_eq!(left.diff(&empty).to_string(), "pkg1 pkg2 pkg3");
    assert_eq!(empty.diff(&left).to_string(), "");

    // Test ignoring enabled state in both lists
    let left = PackageList::from("pkg1 -pkg2");
    let right = PackageList::from("pkg2 pkg5");
    let diff = left.diff(&right);

    // pkg2 is removed even if disabled in list3 or enabled in list4
    assert_eq!(diff.to_string(), "pkg1");
}

#[test]
fn test_package_list_extend_enabled() {
    let mut left = PackageList::from("pkg1 -pkg2");
    let right = PackageList::from("pkg2 pkg3");

    left.extend(&right, true);
    assert_eq!(left.len(), 3);

    let p1 = left.iter().find(|p| p.name == "pkg1").unwrap();
    let p2 = left.iter().find(|p| p.name == "pkg2").unwrap();
    let p3 = left.iter().find(|p| p.name == "pkg3").unwrap();

    assert!(p1.enabled);
    assert!(!p2.enabled);
    assert!(p3.enabled);

    let mut left: PackageList = "pkg1 pkg3".into();
    let right: PackageList = "pkg1 pkg2 pkg3".into();
    left.extend(&right, true);

    let p1 = left.iter().find(|p| p.name == "pkg1").unwrap();
    let p2 = left.iter().find(|p| p.name == "pkg2").unwrap();
    let p3 = left.iter().find(|p| p.name == "pkg3").unwrap();

    assert!(p1.enabled);
    assert!(p2.enabled);
    assert!(p3.enabled);
}

#[test]
fn test_package_list_extend_disabled() {
    let mut left = PackageList::from("pkg1 -pkg2");
    let right = PackageList::from("pkg2 pkg3");

    left.extend(&right, false);
    assert_eq!(left.len(), 3);

    let p1 = left.iter().find(|p| p.name == "pkg1").unwrap();
    let p2 = left.iter().find(|p| p.name == "pkg2").unwrap();
    let p3 = left.iter().find(|p| p.name == "pkg3").unwrap();

    assert!(p1.enabled);
    assert!(!p2.enabled);
    assert!(!p3.enabled);

    let mut left: PackageList = "pkg1 pkg3".into();
    let right: PackageList = "pkg1 pkg2 pkg3".into();
    left.extend(&right, false);

    let p1 = left.iter().find(|p| p.name == "pkg1").unwrap();
    let p2 = left.iter().find(|p| p.name == "pkg2").unwrap();
    let p3 = left.iter().find(|p| p.name == "pkg3").unwrap();

    assert!(p1.enabled);
    assert!(!p2.enabled);
    assert!(p3.enabled);
}

#[test]
fn test_package_list_conversions() {
    let s = "pkg1 -pkg2".to_string();
    let list = PackageList::from(s);
    assert_eq!(list.to_string(), "pkg1 -pkg2");

    let s2: String = list.into();
    assert_eq!(s2, "pkg1 -pkg2");
}

#[test]
fn test_deserialize_u32_or_string_logic() {
    let cases = [
        (r#"{"val": 5000}"#, 5000),
        (r#"{"val": "5000"}"#, 5000),
        (r#"{"val": ""}"#, 0),
    ];

    for (json, expected) in cases {
        let doc: serde_json::Value = serde_json::from_str(json).unwrap();
        let val = &doc["val"];
        let w = match val.as_str() {
            Some(s) => U32OrString::Text(s.to_string()),
            None => U32OrString::Number(val.as_u64().unwrap().try_into().unwrap()),
        };
        assert_eq!(deserialize_u32_or_string(&w), Ok(expected));
    }
}

fn preset_json(r: &PresetRecord) -> String {
    let mut m = serde_json::Map::new();
    let mut put = |k: &str, v: serde_json::Value| {
        m.insert(k.to_string(), v);
    };
    put("release_series", r.release_series.as_str().into());
    put("target", r.target.as_str().into());
    put("profile_id", r.profile_id.as_str().into());
    if let Some(s) = &r.extra_image_name {
        put("extra_image_name", s.as_str().into());
    }
    if let Some(n) = r.rootfs_size {
        put("rootfs_size", n.into());
    }
    put("packages", r.packages.as_str().into());
    if let Some(s) = &r.disabled_services {
        put("disabled_services", s.as_str().into());
    }
    if let Some(p) = &r.overlay_path {
        put("overlay_path", p.to_str().unwrap().into());
    }
    serde_json::Value::Object(m).to_string()
}

#[test]
fn test_preset_serialization() {
    let preset = Preset {
        release_series: ReleaseSeries {
            major: 23,
            minor: 5,
        },
        target: "ath79/generic".into(),
        profile_id: "id".into(),
        extra_image_name: "openssl".into(),
        rootfs_size: 5000,
        packages: "luci".into(),
        disabled_services: "dnsmasq".into(),
        overlay_path: "/path/to/overlay".into(),
    };

    let record = preset.to_record();
    let json = preset_json(&record);
    assert!(json.contains("\"release_series\":\"23.05\""));
    assert!(json.contains("\"extra_image_name\":\"openssl\""));
    assert!(json.contains("\"packages\":\"luci\""));
    assert!(json.contains("\"rootfs_size\":5000"));

    let deserialized: Preset = Preset::from_record(record);
    assert_eq!(preset, deserialized);
}

#[test]
fn test_preset_serialization_skips() {
    let preset = Preset {
        release_series: ReleaseSeries {
            major: 23,
            minor: 5,
        },
        target: "ath79/generic".into(),
        profile_id: "id".into(),
        extra_image_name: String::new(),
        rootfs_size: 0,
        packages: "luci".into(),
        disabled_services: String::new(),
        overlay_path: PathBuf::new(),
    };

    let record = preset.to_record();
    let json = preset_json(&record);
    assert!(json.contains("\"release_series\":\"23.05\""));
    assert!(json.contains("\"packages\":\"luci\""));

    assert!(!json.contains("extra_image_name"));
    assert!(!json.contains("disabled_services"));
    assert!(!json.contains("overlay_path"));
    assert!(!json.contains("rootfs_size"));

    let deserialized: Preset = Preset::from_record(record);
    assert_eq!(preset, deserialized);
}

#[test]
fn sizes_that_are_no_numbers_are_refused() {
    assert_eq!(
        deserialize_u32_or_string(&U32OrString::Text("12 MB".into())),
        Err(NumberError::InvalidDigit)
    );
    assert_eq!(
        deserialize_u32_or_string(&U32OrString::Text("4294967296".into())),
        Err(NumberError::TooLarge)
    );
}

#[test]
fn a_selection_becomes_a_preset() {
    let preset = Preset::from(BuildData {
        version: "23.05.2".into(),
        target: "ath79/generic".into(),
        profile_id: "a,b".into(),
        extra_image_name: "x y".into(),
        rootfs_size: -1,
        packages: "b -a".into(),
        disabled_services: "dnsmasq".into(),
        overlay_path: "".into(),
    });
    assert_eq!(preset.release_series.to_string(), "23.05");
    assert_eq!(preset.profile_id.as_str(), "a_b");
    assert_eq!(preset.extra_image_name, "x y");
    assert_eq!(preset.rootfs_size, u32::MAX);
    assert_eq!(preset.packages.to_string(), "b -a");
    assert!(is_path_empty(&preset.overlay_path));
    assert!(!is_path_empty(&PathBuf::from("x")));
    assert!(is_zero(&0));
    assert!(!is_zero(&1));
    let again = Preset::from_record(preset.clone().to_record());
    assert_eq!(preset, again);
}

#[test]
fn texts_without_a_version_are_refused() {
    let tag = ImageTag::from("no colon");
    assert_eq!(Target::try_from(&tag), Err(INVALID_TAG));
    assert_eq!(INVALID_TAG, "invalid tag format");
    let tag = ImageTag::from("base:latest");
    assert_eq!(Version::try_from(&tag), Err(UNPARSED_TAG));
    assert_eq!(UNPARSED_TAG, "could not parse target and version");
    let tag = ImageTag::from("base:x-1");
    assert_eq!(Target::try_from(&tag), Err(UNPARSED_TAG));
}

#[test]
fn tags_are_made_and_read() {
    let t = Target::from("ramips/mt7621");
    let v = Version::from("23.05.0-rc1");
    let tag = ImageTag::new(&t, &v, "openwrt/imagebuilder");
    assert_eq!(tag.as_ref(), "openwrt/imagebuilder:ramips-mt7621-23.05.0-rc1");
    assert_eq!(tag.len(), tag.as_str().len());
    assert_eq!(Target::try_from(&tag), Ok(t));
    assert_eq!(Version::try_from(&tag), Ok(v));
    assert_eq!(Option::<String>::from(&tag), Some(tag.to_string()));
}

#[test]
fn odd_texts_are_read_as_far_as_they_go() {
    assert_eq!(Version::from("").to_string(), "0.00.0");
    assert_eq!(Version::from("300.1").to_string(), "0.01.0");
    assert_eq!(Version::from("1.2.3.4").to_string(), "1.02.3");
    assert_eq!(Version::from("1.2.3-rcx").rc, None);
    assert_eq!(Version::from("1.2.x-rc4").rc, Some(4));
    assert_eq!(Version::from("SNAPSHOT").to_string(), "0.00.0");
    assert_eq!(Target::from("a/b/c").to_string(), "a/b");
    assert_eq!(Target::from("a").to_string(), "a");
    assert_eq!(Target::from("").to_string(), "");
    assert_eq!(Target::from("a").to_slug(), "a-");
    assert_eq!(String::from(Target::from("x/y")), "x/y");
    assert_eq!(String::from(ReleaseSeries::from("9.1")), "9.01");
}

#[test]
fn series_of_versions() {
    let v = Version::from("23.05.2");
    assert_eq!(v.to_release_series(), ReleaseSeries::from("23.05"));
    assert!(v.same_release_series(&ReleaseSeries::from("23.05.9")));
    assert!(!v.same_release_series(&ReleaseSeries::from("24.05")));
    assert_eq!(ReleaseSeries::from(v), ReleaseSeries::from(&v));
}

#[test]
fn packages_go_in_order_and_once() {
    let list = PackageList::from("b a -c b -a");
    assert_eq!(list.to_string(), "a b -a -c");
    assert!(list.has("c"));
    assert!(!list.has("d"));
    let names: Vec<String> = list
        .into_packages()
        .into_iter()
        .map(|p| p.name)
        .collect();
    assert_eq!(names, vec!["a", "b", "a", "c"]);
    assert_eq!(Package::from("-"), Package { name: "".into(), enabled: false });
    assert_eq!(PackageList::from("-x").to_string(), "-x");
}

#[test]
fn extending_twice_does_no_more() {
    let mut a = PackageList::from("x -y");
    let b = PackageList::from("y z");
    a.extend(&b, false);
    let once = a.clone();
    a.extend(&b, true);
    assert_eq!(a, once);
    assert!(b.diff(&a).is_empty());
}

#[test]
fn profiles_are_saved_and_loaded() {
    let profiles = vec![Profile {
        id: ProfileId::stored("a,b".to_string()),
        titles: vec![ProfileTitle {
            model: Some("M".into()),
            vendor: None,
            variant: None,
            title: None,
        }],
        target: Target::from("x86/64"),
    }];
    let records = save_profiles(&profiles);
    assert_eq!(records[0].id, "a,b");
    assert_eq!(records[0].target, "x86/64");
    assert_eq!(load_profiles(&records), profiles);
    let versions = load_versions(&vec!["25.12.2".to_string(), "25.12.0-rc5".to_string()]);
    assert_eq!(versions[0].to_string(), "25.12.2");
    assert_eq!(versions[1].rc, Some(5));
}

#[test]
fn profiles_show_all_their_titles() {
    let title = |s: &str| ProfileTitle {
        model: None,
        vendor: None,
        variant: None,
        title: Some(s.to_string()),
    };
    let p = Profile {
        id: "id".into(),
        titles: vec![title("A"), title(""), title("B")],
        target: Target::from("x/y"),
    };
    assert_eq!(p.format(), vec!["A (id)", " (id)", "B (id)"]);
    assert_eq!(p.format_all_models(), "A / B");
    assert!(p.matches("a"));
    assert!(!p.matches("A"));
    let all = [p];
    assert!(all.find_by_display_name("  a (ID) ").is_some());
    assert!(all.find_by_display_name("c (id)").is_none());
    assert_eq!(all.filter("").len(), 3);
    for name in all.filter("b") {
        if !name.starts_with(' ') {
            assert!(all.find_by_display_name(&name).is_some());
        }
    }
}

#[test]
fn titles_of_profiles_are_trimmed() {
    let t = ProfileTitle {
        model: Some("  M ".into()),
        vendor: Some(" ".into()),
        variant: Some(" v".into()),
        title: None,
    };
    assert_eq!(t.to_string(), "M  v");
    let empty = ProfileTitle {
        model: None,
        vendor: None,
        variant: Some("".into()),
        title: None,
    };
    assert_eq!(empty.to_string(), "");
}

#[test]
fn targets_and_ids_are_ordered() {
    assert!(Target::from("a/z") < Target::from("b/a"));
    assert!(Target::from("a/a") < Target::from("a/b"));
    assert!(Target::from("a") < Target::from("a/a"));
    assert!(ProfileId::from("B") < ProfileId::from("a"));
    assert!(ProfileId::from("a") >= ProfileId::from("a"));
    assert!(Package::from("z") < Package::from("-a"));
    assert!(Package::from("a") < Package::from("b"));
}

#[test]
fn case_and_outer_space_of_a_query_play_no_part() {
    let title = |model: &str, full: Option<&str>| ProfileTitle {
        model: Some(model.to_string()),
        vendor: Some("Hidden".to_string()),
        variant: None,
        title: full.map(|s| s.to_string()),
    };
    let all = [
        Profile {
            id: "acme_one".into(),
            titles: vec![title("m", Some("Acme One")), title("m", Some("Twin"))],
            target: Target::from("x/y"),
        },
        Profile {
            id: "other".into(),
            titles: vec![title("Model", None)],
            target: Target::from("x/y"),
        },
    ];
    let found = vec!["Acme One (acme_one)", "Twin (acme_one)"];
    assert_eq!(all.filter("acme o"), found);
    assert_eq!(all.filter("ACME O"), found);
    assert_eq!(all.filter(" \tacme o\u{3000}\n"), found);
    assert_eq!(all.filter(" \u{3000} ").len(), 3);
    assert_eq!(all.filter("").len(), 3);
    // Parts of a query that matches
    for part in ["acme o", "cme", "e o", "o", ""] {
        assert!(all[0].matches(part));
    }
    // A capital letter stands nowhere
    assert!(!all[0].matches("Acme"));
    // Behind a full title nothing is searched
    assert!(!all[0].matches("hidden"));
    assert!(all[1].matches("hidden model"));
}

#[test]
fn a_tag_names_its_version_whatever_the_target() {
    let v = Version::from("23.05.2-rc1");
    for t in ["ath79/my-sub", "a-b/c", "x"] {
        let tag = ImageTag::new(&Target::from(t), &v, "openwrt/imagebuilder");
        assert!(Version::try_from(&tag).unwrap() == v);
    }
}

#[test]
fn lists_of_packages_are_in_order_without_repeats() {
    let list = PackageList::from("b -z a b -c a");
    assert_eq!(list.clone().to_string(), "a b -c -z");
    let names: Vec<String> = list.iter().map(|p| p.to_string()).collect();
    assert_eq!(names, vec!["a", "b", "-c", "-z"]);
    assert_eq!(list.into_packages().len(), 4);
}
