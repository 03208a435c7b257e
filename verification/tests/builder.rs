use bouwer::builder::{parse_package_list, BuildArgs, ImageBuilder};
use bouwer::domain::{PackageList, ProfileId, Target, Version};
use std::path::PathBuf;

#[test]
fn test_build_args_minimal() {
    let original_packages: PackageList = "pkg1 pkg2 pkg3".into();
    let mut packages: PackageList = "pkg1 pkg3".into();
    packages.extend(&original_packages, false);

    let args = BuildArgs {
        profile_id: "test-profile".into(),
        packages,
        extra_image_name: None,
        rootfs_size: None,
        disabled_services: None,
        overlay_path: None,
    };

    let cmd: Vec<String> = args.into();
    assert_eq!(
        cmd,
        vec![
            "make".to_string(),
            "image".to_string(),
            "PROFILE=test-profile".to_string(),
            "PACKAGES=pkg1 pkg3 -pkg2".to_string(),
        ]
    );
}

#[test]
fn test_build_args_full() {
    let original_packages: PackageList = "pkg1 pkg2 pkg3".into();
    let mut packages: PackageList = "pkg1 pkg3".into();
    packages.extend(&original_packages, false);

    let args = BuildArgs {
        profile_id: "test-profile".into(),
        packages,
        extra_image_name: Some("custom-name"),
        rootfs_size: Some(256),
        disabled_services: Some("service1 service2"),
        overlay_path: Some("/path/to/overlay"),
    };

    let cmd: Vec<String> = args.into();
    assert_eq!(
        cmd,
        vec![
            "make".to_string(),
            "image".to_string(),
            "PROFILE=test-profile".to_string(),
            "PACKAGES=pkg1 pkg3 -pkg2".to_string(),
            "EXTRA_IMAGE_NAME=custom-name".to_string(),
            "ROOTFS_PARTSIZE=256".to_string(),
            "DISABLED_SERVICES=service1 service2".to_string(),
            "FILES=/overlay".to_string(),
        ]
    );
}

const INFO: &str = "Current Target: \"ath79/generic\"\n\
    Default Packages: base-files dropbear\n\
    Available Profiles:\n\
    \n\
    first:\n    First Device\n    Packages: kmod-first\n\
    second:\r\n    Second Device\n    Packages: kmod-second -dropbear\n\
    third:\n    Packages: kmod-third\n";

#[test]
fn package_list_of_a_profile() {
    let id = ProfileId::from("second");
    let list = parse_package_list(INFO, &id);
    assert_eq!(
        list.to_string(),
        "base-files dropbear kmod-second -dropbear"
    );
}

#[test]
fn package_list_of_an_unknown_profile_has_the_defaults() {
    let list = parse_package_list(INFO, &ProfileId::from("none"));
    assert_eq!(list.to_string(), "base-files dropbear");
}

#[test]
fn package_list_without_output_is_empty() {
    assert!(parse_package_list("", &ProfileId::from("first")).is_empty());
}

#[test]
fn package_list_takes_the_last_defaults_before_the_block_ends() {
    let info = "Default Packages: a\nDefault Packages: b\nx:\nPackages: c\nDefault Packages: d\n";
    let list = parse_package_list(info, &ProfileId::from("x"));
    assert_eq!(list.to_string(), "b c");
}

#[test]
fn packages_before_the_block_are_not_the_profiles() {
    let info = "Default Packages: a\nPackages: b\nx:\nfoo\n";
    let list = parse_package_list(info, &ProfileId::from("x"));
    assert_eq!(list.to_string(), "a");
}

#[test]
fn builder_has_the_tag_and_the_volumes() {
    let builder = ImageBuilder::new(
        "openwrt/imagebuilder",
        &PathBuf::from("/tmp/bouwer"),
        &Version::from("23.05.2"),
        &Target::from("ramips/mt7621"),
    );
    assert_eq!(
        builder.image_tag.as_str(),
        "openwrt/imagebuilder:ramips-mt7621-23.05.2"
    );
    let volumes = builder.get_build_volumes(None);
    assert_eq!(volumes.len(), 2);
    assert_eq!(volumes[0].src, PathBuf::from("/tmp/bouwer"));
    assert_eq!(volumes[0].dest, PathBuf::from("/builder/bin/targets"));
    assert_eq!(volumes[1].src, PathBuf::from("/tmp/bouwer").join("dl"));
    assert_eq!(volumes[1].dest, PathBuf::from("/builder/dl"));

    let volumes = builder.get_build_volumes(Some("/my/overlay"));
    assert_eq!(volumes.len(), 3);
    assert_eq!(volumes[2].src, PathBuf::from("/my/overlay"));
    assert_eq!(volumes[2].dest, PathBuf::from("/overlay"));
}

#[test]
fn info_is_asked_of_make() {
    assert_eq!(ImageBuilder::info_command(), vec!["make", "info"]);
}
