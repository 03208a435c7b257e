use bouwer::device::{
    is_apk, list_from_apk, list_from_opkg, package_query, parse_system_info, read_board,
    sanitize_apk_package_name, ApkPackage, BoardError, Device, APK_QUERY, OPKG_QUERY,
};
use bouwer::domain::Version;
use bouwer::ssh::{
    find_identity, identity_choices, sorted_identities, Login, Ssh, SshOptions,
    IDENTITY_NOT_FOUND,
};

const BOARD: &str = r#"
{
    "kernel": "5.15.150",
    "board_name": "zyxel,ex5601-t0-ubootmod",
    "release": { "version": "23.05.3", "target": "mediatek/filogic", "revision": 1 }
}
"#;

#[test]
fn a_board_report_is_read() {
    let info = parse_system_info(BOARD).unwrap();
    assert_eq!(info.version.to_string(), "23.05.3");
    assert_eq!(info.target.to_string(), "mediatek/filogic");
    assert_eq!(info.profile_id.as_str(), "zyxel_ex5601-t0-ubootmod");
}

#[test]
fn each_gap_in_a_board_report_has_its_error() {
    let cases = [
        ("not json", BoardError::InvalidJson),
        ("", BoardError::InvalidJson),
        ("[]", BoardError::MissingRelease),
        (r#"{"board_name": "x"}"#, BoardError::MissingRelease),
        (r#"{"release": {}}"#, BoardError::MissingBoardName),
        (
            r#"{"release": {}, "board_name": 7}"#,
            BoardError::MissingBoardName,
        ),
        (
            r#"{"release": {}, "board_name": "x"}"#,
            BoardError::MissingVersion,
        ),
        (
            r#"{"release": "r", "board_name": "x"}"#,
            BoardError::MissingVersion,
        ),
        (
            r#"{"release": {"version": "1.2.3"}, "board_name": "x"}"#,
            BoardError::MissingTarget,
        ),
        (
            r#"{"release": {"version": "1.2.3", "target": null}, "board_name": "x"}"#,
            BoardError::MissingTarget,
        ),
    ];
    for (text, error) in cases {
        match parse_system_info(text) {
            Ok(_) => panic!("{text} was read"),
            Err(e) => assert_eq!(e, error, "{text}"),
        }
    }
}

#[test]
fn board_errors_are_told() {
    let texts = [
        (BoardError::InvalidJson, "Invalid system board JSON"),
        (
            BoardError::MissingRelease,
            "Missing 'release' object in board info",
        ),
        (
            BoardError::MissingBoardName,
            "Missing 'board_name' in board info",
        ),
        (BoardError::MissingVersion, "Missing version in board info"),
        (BoardError::MissingTarget, "Missing target in board info"),
    ];
    for (e, text) in texts {
        assert_eq!(e.to_string(), text);
    }
}

#[test]
fn a_parsed_board_is_read() {
    let mut release = serde_json::Map::new();
    release.insert("version".to_string(), "25.12.0".into());
    release.insert("target".to_string(), "x86/64".into());
    let mut board = serde_json::Map::new();
    board.insert("release".to_string(), serde_json::Value::Object(release));
    board.insert("board_name".to_string(), "generic".into());
    let info = read_board(&serde_json::Value::Object(board)).unwrap();
    assert_eq!(info.version.major, 25);
    assert_eq!(info.target.subtarget, "64");
}

#[test]
fn package_names_lose_their_abi_version() {
    assert_eq!(sanitize_apk_package_name("libubox20240329", Some("20240329")), "libubox");
    assert_eq!(sanitize_apk_package_name("libnl-tiny1", Some("1")), "libnl-tiny");
    assert_eq!(sanitize_apk_package_name("foo-1", Some("1")), "foo");
    assert_eq!(sanitize_apk_package_name("foo--", None), "foo");
    assert_eq!(sanitize_apk_package_name("foo", Some("2")), "foo");
}

#[test]
fn packages_of_apk_are_listed() {
    let listed = vec![
        ApkPackage {
            name: "luci".into(),
            tags: None,
        },
        ApkPackage {
            name: "libubox20240329".into(),
            tags: Some(vec![
                "openwrt:section=libs".into(),
                "openwrt:abiversion=20240329".into(),
                "openwrt:abiversion=9".into(),
            ]),
        },
        ApkPackage {
            name: "base-files".into(),
            tags: Some(vec![]),
        },
    ];
    assert_eq!(list_from_apk(&listed).to_string(), "base-files libubox luci");
}

#[test]
fn packages_of_opkg_are_listed() {
    let out = "luci - git-24.1\nbase-files - 1 - 2\n\nbroken line\n  kmod-x  - 5\n";
    assert_eq!(list_from_opkg(out).to_string(), "base-files kmod-x luci");
    assert!(list_from_opkg("").is_empty());
}

#[test]
fn newer_devices_have_apk() {
    assert!(is_apk(&Version::from("25.12.0")));
    assert!(!is_apk(&Version::from("24.10.2")));
    assert_eq!(package_query(&Version::from("25.12.0")), APK_QUERY);
    assert_eq!(package_query(&Version::from("23.05.0")), OPKG_QUERY);
}

fn options<'a>(identity: Option<&'a str>, password: Option<&'a str>) -> SshOptions<'a> {
    SshOptions {
        host: "192.168.1.1",
        user: "root",
        identity,
        password,
    }
}

#[test]
fn a_password_goes_before_a_key() {
    let login = |i, p| Ssh::new(options(i, p)).login(false);
    assert!(matches!(login(Some("k"), Some("p")), Login::Password("p")));
    assert!(matches!(login(None, Some("p")), Login::Password("p")));
    assert!(matches!(login(Some("k"), None), Login::Identity("k")));
    assert!(matches!(login(None, None), Login::Agent));
    assert!(matches!(
        Ssh::new(options(None, Some("p"))).login(true),
        Login::Done
    ));
    assert_eq!(Device::new(options(None, None)).ssh.options.host, "192.168.1.1");
}

fn strings(v: &[&str]) -> Vec<String> {
    v.iter().map(|s| s.to_string()).collect()
}

#[test]
fn keys_are_found_by_their_comment() {
    let comments = strings(&["a", "b", "b"]);
    assert_eq!(find_identity(&comments, "b"), Ok(1));
    assert_eq!(find_identity(&comments, "c"), Err(IDENTITY_NOT_FOUND));
    assert_eq!(IDENTITY_NOT_FOUND, "Identity not found in SSH agent");
}

#[test]
fn keys_are_listed_in_order_with_none_first() {
    let sorted = sorted_identities(strings(&["b", "", "a", "b"]));
    assert_eq!(sorted, strings(&["a", "b", "b"]));
    assert_eq!(identity_choices(sorted), strings(&["", "a", "b", "b"]));
}
