use bouwer::cache::{package_source, MetadataCache, PackageCacheRecord, PackageSource};
use bouwer::client::{arrange_profiles, OpenWrtClient, ProfileSource, USER_AGENT};
use bouwer::config::{home_variable, Config, Environment, Platform};
use bouwer::containers::{
    append_chunk, bind, choose_endpoint, container_request, get_vol_suffix, list_images,
    output_received, podman_candidate, read_chunk, wait_next, wait_start, Endpoint, ImageSummary,
    LogChunk, LogItem, ReadAction, Volume, WaitAction,
};
use bouwer::domain::{ImageTag, Profile, ProfileId, Target, Version};
use std::path::PathBuf;

fn environment(platform: Platform) -> Environment {
    Environment {
        platform,
        temp_dir: PathBuf::from("/tmp"),
        home: Some(PathBuf::from("/home/u")),
        xdg_cache_home: None,
        xdg_config_home: None,
        local_app_data: None,
        app_data: None,
    }
}

#[test]
fn folders_follow_the_platform() {
    let cases = [
        (Platform::Linux, "/home/u/.cache/bouwer", "/home/u/.config/bouwer/config.json"),
        (
            Platform::OtherUnix,
            "/home/u/.cache/bouwer",
            "/home/u/.config/bouwer/config.json",
        ),
        (
            Platform::MacOs,
            "/home/u/Library/Caches/bouwer",
            "/home/u/Library/Application Support/bouwer/config.json",
        ),
        (
            Platform::Windows,
            "/tmp/bouwer/bouwer/cache",
            "/home/u/bouwer/config.json",
        ),
    ];
    for (platform, cache, file) in cases {
        let e = environment(platform);
        let c = Config::default_for(&e);
        assert_eq!(c.build_path, PathBuf::from("/tmp/bouwer"));
        assert_eq!(c.cache_path, PathBuf::from(cache));
        assert_eq!(Config::config_file_path(&e), PathBuf::from(file));
    }
}

#[test]
fn the_environment_names_other_folders() {
    let mut e = environment(Platform::Linux);
    e.xdg_cache_home = Some(PathBuf::from("/c"));
    e.xdg_config_home = Some(PathBuf::from("/k"));
    assert_eq!(Config::default_for(&e).cache_path, PathBuf::from("/c/bouwer"));
    assert_eq!(
        Config::config_file_path(&e),
        PathBuf::from("/k/bouwer/config.json")
    );

    let mut e = environment(Platform::Windows);
    e.local_app_data = Some(PathBuf::from("/l"));
    e.app_data = Some(PathBuf::from("/a"));
    assert_eq!(
        Config::default_for(&e).cache_path,
        PathBuf::from("/l/bouwer/cache")
    );
    assert_eq!(
        Config::config_file_path(&e),
        PathBuf::from("/a/bouwer/config.json")
    );

    let mut e = environment(Platform::Linux);
    e.home = None;
    e.xdg_cache_home = Some(PathBuf::from("/c"));
    assert_eq!(
        Config::default_for(&e).cache_path,
        PathBuf::from("/tmp/bouwer/cache")
    );
    assert_eq!(
        Config::config_file_path(&e),
        PathBuf::from("/tmp/bouwer/config.json")
    );
    assert_eq!(home_variable(Platform::Windows), "USERPROFILE");
    assert_eq!(home_variable(Platform::MacOs), "HOME");
}

#[test]
fn saved_settings_go_before_the_defaults() {
    let e = environment(Platform::Linux);
    let saved = Config {
        build_path: PathBuf::from("/b"),
        cache_path: PathBuf::from("/c"),
    };
    let (c, save) = Config::chosen(Some(saved.clone()), &e);
    assert_eq!(c.build_path, saved.build_path);
    assert!(!save);
    let (c, save) = Config::chosen(None, &e);
    assert_eq!(c.cache_path, PathBuf::from("/home/u/.cache/bouwer"));
    assert!(save);
}

#[test]
fn cached_files_are_named_after_what_they_hold() {
    let cache = MetadataCache::new(&PathBuf::from("/c"));
    let v = Version::from("23.05.0-rc2");
    assert_eq!(
        cache.get_profile_path(&v),
        PathBuf::from("/c/profiles-23.05.0-rc2.json")
    );
    assert_eq!(
        cache.get_package_path(&v, &Target::from("a/b"), &ProfileId::from("x,y")),
        PathBuf::from("/c/packages-23.05.0-rc2-a-b-x_y.json")
    );
    assert_eq!(cache.clone().cache_path, PathBuf::from("/c"));
}

#[test]
fn packages_are_cached_unless_there_are_none() {
    assert!(PackageCacheRecord::of("").is_none());
    let rec = PackageCacheRecord::of("b a").unwrap();
    assert_eq!(rec.packages, "b a");
    match package_source(Some(rec)) {
        PackageSource::Cached(p) => assert_eq!(p.to_string(), "a b"),
        PackageSource::Builder => panic!("nothing cached"),
    }
    assert!(matches!(package_source(None), PackageSource::Builder));
}

#[test]
fn the_server_is_asked_at_its_addresses() {
    let cache = MetadataCache::new(&PathBuf::from("/c"));
    let client = OpenWrtClient::new("https://downloads.openwrt.org", cache).clone();
    assert_eq!(
        client.versions_url(),
        "https://downloads.openwrt.org/.versions.json"
    );
    let v = Version::from("23.05.2");
    match client.profile_source(&v, None) {
        ProfileSource::Fetch(url) => assert_eq!(
            url,
            "https://downloads.openwrt.org/releases/23.05.2/.overview.json"
        ),
        ProfileSource::Cached(_) => panic!("nothing cached"),
    }
    assert!(matches!(
        client.profile_source(&v, Some(Vec::new())),
        ProfileSource::Cached(_)
    ));
    assert_eq!(USER_AGENT, "BouwerOpenWrtFetcher/1.0");
}

#[test]
fn fetched_profiles_are_sorted_by_id() {
    let p = |id: &str, target: &str| Profile {
        id: id.into(),
        titles: Vec::new(),
        target: Target::from(target),
    };
    let sorted = arrange_profiles(vec![p("b", "1"), p("a", "2"), p("b", "0"), p("B", "3")]);
    let ids: Vec<String> = sorted
        .iter()
        .map(|p| format!("{} {}", p.id.as_str(), p.target.to_string()))
        .collect();
    assert_eq!(ids, vec!["B 3", "a 2", "b 1", "b 0"]);
}

#[test]
fn the_engine_is_looked_for() {
    assert_eq!(
        podman_candidate(Platform::Linux, Some("/run/user/1")).as_deref(),
        Some("/run/user/1/podman/podman.sock")
    );
    assert_eq!(
        podman_candidate(Platform::MacOs, None).as_deref(),
        Some("/run/podman/podman.sock")
    );
    assert_eq!(
        podman_candidate(Platform::Windows, Some("/x")).as_deref(),
        Some(r"\\.\pipe\podman-machine-default")
    );
    assert_eq!(podman_candidate(Platform::Other, None), None);

    let at = |platform, docker, container, found| {
        choose_endpoint(platform, docker, container, Some("/r"), found)
    };
    match at(Platform::Linux, Some("tcp://a"), Some("tcp://b"), true) {
        Endpoint::Host(h) => assert_eq!(h, "tcp://a"),
        e => panic!("{e:?}"),
    }
    match at(Platform::Linux, None, Some("tcp://b"), true) {
        Endpoint::Host(h) => assert_eq!(h, "tcp://b"),
        e => panic!("{e:?}"),
    }
    match at(Platform::Linux, None, None, true) {
        Endpoint::Socket(s) => assert_eq!(s, "/r/podman/podman.sock"),
        e => panic!("{e:?}"),
    }
    assert!(matches!(at(Platform::Windows, None, None, true), Endpoint::Pipe(_)));
    assert!(matches!(
        at(Platform::Linux, None, None, false),
        Endpoint::LocalDefaults
    ));
    assert!(matches!(
        at(Platform::Other, None, None, true),
        Endpoint::LocalDefaults
    ));
}

#[test]
fn binds_are_relabelled_with_selinux() {
    assert_eq!(get_vol_suffix(Platform::Linux, true), ":z");
    assert_eq!(get_vol_suffix(Platform::Linux, false), "");
    assert_eq!(get_vol_suffix(Platform::MacOs, true), "");
}

#[test]
fn containers_are_requested() {
    let tag = ImageTag::from("a:b");
    let cmd = vec!["make".to_string()];
    let r = container_request(&tag, cmd.clone(), &Vec::new(), ":z");
    assert_eq!(r.image, "a:b");
    assert_eq!(r.cmd, cmd);
    assert_eq!(r.binds, None);
    assert_eq!(r.userns_mode, "keep-id");
    let volumes = vec![Volume {
        src: PathBuf::from("/a"),
        dest: PathBuf::from("/b"),
    }];
    let r = container_request(&tag, cmd, &volumes, ":z");
    assert_eq!(r.binds, Some(vec!["/a:/b:z".to_string()]));
    assert_eq!(bind("/x", "/y", ""), "/x:/y");
}

#[test]
fn images_are_listed_by_part_of_their_tag() {
    let images = vec![
        ImageSummary {
            repo_tags: vec!["openwrt/imagebuilder:a".into(), "other".into()],
            size: 5,
        },
        ImageSummary {
            repo_tags: vec![],
            size: 6,
        },
        ImageSummary {
            repo_tags: vec!["docker.io/openwrt/imagebuilder:b".into()],
            size: 7,
        },
    ];
    assert_eq!(
        list_images(&images, "openwrt/imagebuilder"),
        vec![
            ("openwrt/imagebuilder:a".to_string(), 5),
            ("docker.io/openwrt/imagebuilder:b".to_string(), 7)
        ]
    );
}

#[test]
fn waiting_ends() {
    assert_eq!(wait_start(0), WaitAction::GiveUp);
    assert_eq!(wait_start(2), WaitAction::Check);
    assert_eq!(wait_next(2, 1, false), WaitAction::SleepThenCheck);
    assert_eq!(wait_next(2, 2, false), WaitAction::GiveUp);
    assert_eq!(wait_next(2, 2, true), WaitAction::Ready);
    assert_eq!(wait_next(2, 1, true), WaitAction::Ready);
}

#[test]
fn output_is_read_whatever_its_bytes() {
    let mut text = String::from("> ");
    append_chunk(&mut text, &LogChunk::StdOut(b"a\xc3\xa9".to_vec()));
    append_chunk(&mut text, &LogChunk::Other);
    append_chunk(&mut text, &LogChunk::StdErr(vec![0xff, b'b']));
    assert_eq!(text, "> a\u{e9}\u{fffd}b");
    assert_eq!(read_chunk(&LogChunk::Other), None);
    assert_eq!(read_chunk(&LogChunk::StdOut(vec![])), Some(String::new()));
}

#[test]
fn output_is_read_up_to_its_first_failure() {
    let mut text = String::new();
    let piece = |b: &[u8]| LogItem::Piece(LogChunk::StdOut(b.to_vec()));
    assert!(matches!(
        output_received(&mut text, &piece(b"one\n")),
        ReadAction::More
    ));
    assert!(matches!(
        output_received(&mut text, &LogItem::Piece(LogChunk::Other)),
        ReadAction::More
    ));
    assert!(matches!(
        output_received(&mut text, &piece(b"two")),
        ReadAction::More
    ));
    assert_eq!(text, "one\ntwo");
    match output_received(&mut text, &LogItem::Failure("gone".to_string())) {
        ReadAction::Refuse(reason) => assert_eq!(reason, "gone"),
        ReadAction::More => panic!("read on"),
    }
    assert_eq!(text, "one\ntwo");
}
