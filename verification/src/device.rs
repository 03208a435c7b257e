//! What a device reports about itself and its packages.

use vstd::prelude::*;

use crate::domain::package::{law_ordered, ordered, package_of, packages, Package, PackageList,
    PackageView};
use crate::domain::profile::{normal_id, ProfileId};
use crate::domain::target::{target_of, Target};
use crate::domain::version::{version_of, Version};
use crate::ssh::{Ssh, SshOptions};
use crate::text::scan::{after_prefix, before_suffix, has_part, has_prefix, has_suffix, law_parts,
    occurs_at, opt_str, opt_text, strip_prefix, strip_suffix, texts, trim, trim_end_of, trimmed,
    trimmed_end_of};
use crate::text::split::{around_first, law_around_first, lines, lines_of, split_once};

verus! {

/// The query for the packages of a device with the `apk` package manager.
pub const APK_QUERY: &'static str =
    "apk query --installed --world --fields name,tags --format json";

/// The query for the packages of a device with the `opkg` package manager.
pub const OPKG_QUERY: &'static str = "opkg list-installed --strip-abi";

/// The query for the device itself.
pub const UBUS_CMD: &'static str = "ubus call system board";

/// What precedes a package's ABI version in its tags.
pub const ABI_TAG: &'static str = "openwrt:abiversion=";

/// `serde_json::Value`.
#[verifier::external_type_specification]
#[verifier::external_body]
pub struct ExJsonValue(serde_json::Value);

/// `serde_json::Error`.
#[verifier::external_type_specification]
#[verifier::external_body]
pub struct ExJsonError(serde_json::Error);

/// A JSON document, as far as it is looked into.
pub enum Json {
    Text(Seq<char>),
    Object(Map<Seq<char>, Json>),
    /// A number, a truth value, an array or null.
    Other,
}

/// What a JSON value holds.
pub uninterp spec fn json_tree(v: serde_json::Value) -> Json;

/// The JSON document that a text is, if it is one.
pub uninterp spec fn json_document(text: Seq<char>) -> Option<Json>;

/// `serde_json::from_str` into a `serde_json::Value`. Whether the text is a
/// document, and which, depends on the text alone.
#[verifier::external_body]
fn parse_json(text: &str) -> (r: Result<serde_json::Value, serde_json::Error>)
    ensures
        r is Ok <==> json_document(text@) is Some,
        r matches Ok(v) ==> json_document(text@) == Some(json_tree(v)),
{
    serde_json::from_str::<serde_json::Value>(text)
}

/// The member of an object.
pub open spec fn json_member(j: Json, key: Seq<char>) -> Option<Json> {
    match j {
        Json::Object(m) => if m.contains_key(key) {
            Some(m[key])
        } else {
            None
        },
        _ => None,
    }
}

/// The text in a value.
pub open spec fn json_text(j: Option<Json>) -> Option<Seq<char>> {
    match j {
        Some(Json::Text(s)) => Some(s),
        _ => None,
    }
}

/// `serde_json::Value::get` with a string: the member of that name, if the
/// value is an object that has one.
#[verifier::external_body]
fn get_member<'a>(v: &'a serde_json::Value, key: &str) -> (r: Option<&'a serde_json::Value>)
    ensures
        r is Some <==> json_member(json_tree(*v), key@) is Some,
        r matches Some(w) ==> json_member(json_tree(*v), key@) == Some(json_tree(*w)),
{
    v.get(key)
}

/// `serde_json::Value::as_str`: the text, if the value is one.
#[verifier::external_body]
fn get_text(v: &serde_json::Value) -> (r: Option<&str>)
    ensures
        opt_str(r) == json_text(Some(json_tree(*v))),
{
    v.as_str()
}

/// Why a device's report cannot be used.
#[derive(Clone, Copy, Debug, Eq, PartialEq, Structural)]
pub enum BoardError {
    InvalidJson,
    MissingRelease,
    MissingBoardName,
    MissingVersion,
    MissingTarget,
}

impl BoardError {
    /// What a user is told.
    pub fn to_string(&self) -> (r: String)
        ensures
            r@ == match *self {
                BoardError::InvalidJson => "Invalid system board JSON"@,
                BoardError::MissingRelease => "Missing 'release' object in board info"@,
                BoardError::MissingBoardName => "Missing 'board_name' in board info"@,
                BoardError::MissingVersion => "Missing version in board info"@,
                BoardError::MissingTarget => "Missing target in board info"@,
            },
    {
        match self {
            BoardError::InvalidJson => "Invalid system board JSON".to_string(),
            BoardError::MissingRelease => "Missing 'release' object in board info".to_string(),
            BoardError::MissingBoardName => "Missing 'board_name' in board info".to_string(),
            BoardError::MissingVersion => "Missing version in board info".to_string(),
            BoardError::MissingTarget => "Missing target in board info".to_string(),
        }
    }
}

/// What a device reports about itself.
pub struct BoardView {
    pub version: Seq<char>,
    pub target: Seq<char>,
    pub board_name: Seq<char>,
}

/// What a report says: the first thing that it lacks, or all that is wanted.
pub open spec fn board_report(j: Json) -> Result<BoardView, BoardError> {
    match json_member(j, "release"@) {
        None => Err(BoardError::MissingRelease),
        Some(release) => match json_text(json_member(j, "board_name"@)) {
            None => Err(BoardError::MissingBoardName),
            Some(board_name) => match json_text(json_member(release, "version"@)) {
                None => Err(BoardError::MissingVersion),
                Some(version) => match json_text(json_member(release, "target"@)) {
                    None => Err(BoardError::MissingTarget),
                    Some(target) => Ok(BoardView { version, target, board_name }),
                },
            },
        },
    }
}

/// A device's version, target and profile.
#[derive(Debug)]
pub struct SystemInfo {
    pub version: Version,
    pub target: Target,
    pub profile_id: ProfileId,
}

/// The reply says what the report says.
pub open spec fn reports(
    r: Result<SystemInfo, BoardError>,
    report: Result<BoardView, BoardError>,
) -> bool {
    match report {
        Ok(b) => r matches Ok(info) && info.version == version_of(b.version) && info.target@
            == target_of(b.target) && info.profile_id@ == normal_id(b.board_name),
        Err(e) => r matches Err(f) && f == e,
    }
}

/// The text of a member of an object.
fn member_text(v: &serde_json::Value, key: &str) -> (r: Option<String>)
    ensures
        opt_text(r) == json_text(json_member(json_tree(*v), key@)),
{
    match get_member(v, key) {
        Some(w) => match get_text(w) {
            Some(s) => Some(s.to_string()),
            None => None,
        },
        None => None,
    }
}

/// Reads a device's report about itself.
pub fn read_board(board: &serde_json::Value) -> (r: Result<SystemInfo, BoardError>)
    ensures
        reports(r, board_report(json_tree(*board))),
{
    let release: &serde_json::Value = match get_member(board, "release") {
        Some(v) => v,
        None => {
            return Err(BoardError::MissingRelease);
        },
    };
    let board_name: String = match member_text(board, "board_name") {
        Some(s) => s,
        None => {
            return Err(BoardError::MissingBoardName);
        },
    };
    let version: String = match member_text(release, "version") {
        Some(s) => s,
        None => {
            return Err(BoardError::MissingVersion);
        },
    };
    let target: String = match member_text(release, "target") {
        Some(s) => s,
        None => {
            return Err(BoardError::MissingTarget);
        },
    };
    Ok(
        SystemInfo {
            version: Version::from(version.as_str()),
            target: Target::from(target.as_str()),
            profile_id: ProfileId::from(board_name.as_str()),
        },
    )
}

/// Reads the reply to [`UBUS_CMD`].
pub fn parse_system_info(reply: &str) -> (r: Result<SystemInfo, BoardError>)
    ensures
        match json_document(trimmed(reply@)) {
            Some(j) => reports(r, board_report(j)),
            None => r matches Err(e) && e == BoardError::InvalidJson,
        },
{
    match parse_json(trim(reply).as_str()) {
        Ok(board) => read_board(&board),
        Err(_) => Err(BoardError::InvalidJson),
    }
}

/// A package as `apk` lists it.
#[derive(Debug)]
pub struct ApkPackage {
    pub name: String,
    pub tags: Option<Vec<String>>,
}

/// What an [`ApkPackage`] holds.
pub struct ApkView {
    pub name: Seq<char>,
    pub tags: Option<Seq<Seq<char>>>,
}

impl View for ApkPackage {
    type V = ApkView;

    open spec fn view(&self) -> ApkView {
        ApkView {
            name: self.name@,
            tags: match self.tags {
                Some(t) => Some(texts(t@)),
                None => None,
            },
        }
    }
}

/// What a sequence of packages holds.
pub open spec fn apk_views(v: Seq<ApkPackage>) -> Seq<ApkView> {
    v.map_values(|p: ApkPackage| p@)
}

/// The ABI version in the first tag that gives one.
pub open spec fn abi_in(tags: Seq<Seq<char>>) -> Option<Seq<char>>
    decreases tags.len(),
{
    if tags.len() == 0 {
        None
    } else {
        match after_prefix(tags[0], ABI_TAG@) {
            Some(abi) => Some(abi),
            None => abi_in(tags.skip(1)),
        }
    }
}

/// The ABI version of a package.
pub open spec fn abi_of(p: ApkView) -> Option<Seq<char>> {
    match p.tags {
        Some(tags) => abi_in(tags),
        None => None,
    }
}

/// A package's name without its ABI version and the dashes before it.
pub open spec fn bare_name(name: Seq<char>, abi: Option<Seq<char>>) -> Seq<char> {
    trimmed_end_of(
        match abi {
            Some(a) => match before_suffix(name, a) {
                Some(s) => s,
                None => name,
            },
            None => name,
        },
        '-',
    )
}

/// The packages that `apk` lists.
pub open spec fn apk_packages(v: Seq<ApkView>) -> Seq<PackageView> {
    v.map_values(|p: ApkView| package_of(bare_name(p.name, abi_of(p))))
}

/// The packages that lines of `opkg`'s output name: what precedes the first
/// dash between spaces.
pub open spec fn opkg_packages(s: Seq<Seq<char>>) -> Seq<PackageView>
    decreases s.len(),
{
    if s.len() == 0 {
        seq![]
    } else {
        opkg_packages(s.drop_last()) + match around_first(s.last(), " - "@) {
            Some((name, _)) => seq![package_of(trimmed(name))],
            None => seq![],
        }
    }
}

/// A package's name without its ABI version and the dashes before it.
pub fn sanitize_apk_package_name(name: &str, abi: Option<&str>) -> (r: String)
    ensures
        r@ == bare_name(name@, opt_str(abi)),
{
    match abi {
        Some(a) => match strip_suffix(name, a) {
            Some(s) => trim_end_of(s.as_str(), '-'),
            None => trim_end_of(name, '-'),
        },
        None => trim_end_of(name, '-'),
    }
}

/// The ABI version of a package.
fn find_abi(p: &ApkPackage) -> (r: Option<String>)
    ensures
        opt_text(r) == abi_of(p@),
{
    match &p.tags {
        None => None,
        Some(tags) => {
            let ghost s = texts(tags@);
            let mut i: usize = 0;
            assert(s.skip(0) == s);
            while i < tags.len()
                invariant
                    i <= tags.len(),
                    s == texts(tags@),
                    p@.tags == Some(s),
                    abi_in(s) == abi_in(s.skip(i as int)),
                decreases tags.len() - i,
            {
                assert(s.skip(i as int)[0] == tags@[i as int]@);
                assert(s.skip(i as int).skip(1) == s.skip(i + 1));
                let found: Option<String> = strip_prefix(tags[i].as_str(), ABI_TAG);
                if found.is_some() {
                    return found;
                }
                i += 1;
            }
            None
        },
    }
}

/// The package list that `apk` reports.
pub fn list_from_apk(listed: &Vec<ApkPackage>) -> (r: PackageList)
    ensures
        r@ == ordered(apk_packages(apk_views(listed@))),
{
    let ghost want = apk_packages(apk_views(listed@));
    let mut v: Vec<Package> = Vec::new();
    let mut i: usize = 0;
    while i < listed.len()
        invariant
            i <= listed.len(),
            want == apk_packages(apk_views(listed@)),
            packages(v@) == want.take(i as int),
        decreases listed.len() - i,
    {
        let ghost v0 = packages(v@);
        let p: &ApkPackage = &listed[i];
        let name: String = match find_abi(p) {
            Some(abi) => sanitize_apk_package_name(p.name.as_str(), Some(abi.as_str())),
            None => sanitize_apk_package_name(p.name.as_str(), None),
        };
        v.push(Package::from(name.as_str()));
        i += 1;
        assert(apk_views(listed@)[i - 1] == p@);
        assert(want[i - 1] == package_of(bare_name(p@.name, abi_of(p@))));
        assert(packages(v@) =~= v0.push(want[i - 1]));
        assert(packages(v@) =~= want.take(i as int));
    }
    assert(packages(v@) =~= want);
    PackageList::from(v)
}

/// The package list that `opkg` reports.
pub fn list_from_opkg(output: &str) -> (r: PackageList)
    ensures
        r@ == ordered(opkg_packages(lines_of(output@))),
{
    let all: Vec<String> = lines(output);
    let ghost s = texts(all@);
    let mut v: Vec<Package> = Vec::new();
    let mut i: usize = 0;
    assert(packages(v@) =~= opkg_packages(s.take(0)));
    while i < all.len()
        invariant
            i <= all.len(),
            s == texts(all@),
            packages(v@) == opkg_packages(s.take(i as int)),
        decreases all.len() - i,
    {
        let ghost v0 = packages(v@);
        assert(s[i as int] == all@[i as int]@);
        if let Some((name, _)) = split_once(all[i].as_str(), " - ") {
            let p: Package = Package::from(trim(name.as_str()).as_str());
            v.push(p);
            assert(packages(v@) =~= v0 + seq![p@]);
        }
        i += 1;
        assert(s.take(i as int).drop_last() == s.take(i - 1));
        assert(packages(v@) =~= opkg_packages(s.take(i as int)));
    }
    assert(s.take(s.len() as int) == s);
    PackageList::from(v)
}

/// A device.
pub struct Device<'device> {
    pub ssh: Ssh<'device>,
}

impl<'device> Device<'device> {
    /// The device that the options lead to.
    pub fn new(options: SshOptions<'device>) -> (r: Device<'device>)
        ensures
            r.ssh.options == options,
    {
        Device { ssh: Ssh::new(options) }
    }
}

/// A device of that version has `apk`.
pub open spec fn has_apk(v: Version) -> bool {
    v.major >= 25
}

/// The query for the packages of a device of that version.
pub open spec fn query_of(v: Version) -> Seq<char> {
    if has_apk(v) {
        APK_QUERY@
    } else {
        OPKG_QUERY@
    }
}

/// Whether a device of that version has `apk`.
pub fn is_apk(version: &Version) -> (r: bool)
    ensures
        r == (version.major >= 25),
        r == has_apk(*version),
{
    version.major >= 25
}

/// The query for the packages of a device of that version.
pub fn package_query(version: &Version) -> (r: &'static str)
    ensures
        r@ == if version.major >= 25 {
            APK_QUERY@
        } else {
            OPKG_QUERY@
        },
        r@ == query_of(*version),
{
    if is_apk(version) {
        APK_QUERY
    } else {
        OPKG_QUERY
    }
}

/// An ABI version at the end of a name goes, with the dashes before it; a name
/// that ends in no dash and not in its ABI version stays.
pub proof fn law_bare_name(base: Seq<char>, abi: Seq<char>)
    requires
        base.len() == 0 || base.last() != '-',
    ensures
        bare_name(base + abi, Some(abi)) == base,
        bare_name(base + seq!['-'] + abi, Some(abi)) == base,
        bare_name(base, None) == base,
{
    let a = base + abi;
    assert(a.subrange(a.len() - abi.len(), a.len() as int) =~= abi);
    assert(a.take(a.len() - abi.len()) =~= base);
    let d = base + seq!['-'];
    let b = d + abi;
    assert(b.subrange(b.len() - abi.len(), b.len() as int) =~= abi);
    assert(b.take(b.len() - abi.len()) =~= d);
    assert(d.drop_last() =~= base);
    assert(trimmed_end_of(base, '-') == base);
}

/// The ABI version of a package is what follows the mark in the first of its
/// tags that begins with it, at whichever position that tag is, the first one
/// included.
pub proof fn law_abi(name: Seq<char>, tags: Seq<Seq<char>>, i: int, abi: Seq<char>)
    requires
        0 <= i < tags.len(),
        tags[i] == "openwrt:abiversion="@ + abi,
        forall|k: int|
            0 <= k < i ==> !has_prefix(#[trigger] tags[k], "openwrt:abiversion="@),
    ensures
        abi_of(ApkView { name, tags: Some(tags) }) == Some(abi),
{
    lemma_abi_at(tags, i, abi);
}

proof fn lemma_abi_at(tags: Seq<Seq<char>>, i: int, abi: Seq<char>)
    requires
        0 <= i < tags.len(),
        tags[i] == "openwrt:abiversion="@ + abi,
        forall|k: int|
            0 <= k < i ==> !has_prefix(#[trigger] tags[k], "openwrt:abiversion="@),
    ensures
        abi_in(tags) == Some(abi),
    decreases i,
{
    law_parts(Seq::empty(), "openwrt:abiversion="@, abi);
    if i > 0 {
        assert(!has_prefix(tags[0], "openwrt:abiversion="@));
        let rest = tags.skip(1);
        assert forall|k: int| 0 <= k < i - 1 implies !has_prefix(
            #[trigger] rest[k],
            "openwrt:abiversion="@,
        ) by {
            assert(rest[k] == tags[k + 1]);
        }
        lemma_abi_at(rest, i - 1, abi);
    }
}

/// A package has no ABI version exactly where it has no tag that begins with
/// the mark.
pub proof fn law_no_abi(name: Seq<char>, tags: Seq<Seq<char>>)
    ensures
        abi_of(ApkView { name, tags: Some(tags) }) is None <==> forall|k: int|
            0 <= k < tags.len() ==> !has_prefix(#[trigger] tags[k], "openwrt:abiversion="@),
        abi_of(ApkView { name, tags: None }) is None,
{
    lemma_abi_none(tags);
}

proof fn lemma_abi_none(tags: Seq<Seq<char>>)
    ensures
        abi_in(tags) is None <==> forall|k: int|
            0 <= k < tags.len() ==> !has_prefix(#[trigger] tags[k], "openwrt:abiversion="@),
    decreases tags.len(),
{
    if tags.len() > 0 {
        let rest = tags.skip(1);
        lemma_abi_none(rest);
        if forall|k: int|
            0 <= k < tags.len() ==> !has_prefix(#[trigger] tags[k], "openwrt:abiversion="@) {
            assert(!has_prefix(tags[0], "openwrt:abiversion="@));
            assert forall|k: int| 0 <= k < rest.len() implies !has_prefix(
                #[trigger] rest[k],
                "openwrt:abiversion="@,
            ) by {
                assert(rest[k] == tags[k + 1]);
            }
        } else {
            let k = choose|k: int|
                0 <= k < tags.len() && has_prefix(#[trigger] tags[k], "openwrt:abiversion="@);
            if k > 0 {
                assert(rest[k - 1] == tags[k]);
            }
        }
    }
}

/// A package that `apk` lists with its ABI version behind its name, with or
/// without a dash between them, is taken over under its name; one without an
/// ABI version keeps the name it has. Each place of the list gives its package.
pub proof fn law_apk_taken(
    v: Seq<ApkView>,
    i: int,
    base: Seq<char>,
    abi: Seq<char>,
)
    requires
        0 <= i < v.len(),
        base.len() == 0 || base.last() != '-',
        (abi_of(v[i]) == Some(abi) && (v[i].name == base + abi || v[i].name == base + seq!['-']
            + abi)) || (abi_of(v[i]) is None && v[i].name == base),
    ensures
        ordered(apk_packages(v)).contains(package_of(base)),
{
    law_bare_name(base, abi);
    law_ordered(apk_packages(v));
    assert(apk_packages(v)[i] == package_of(base));
}

/// A name that does not end in its ABI version keeps all but the dashes at its
/// end.
pub proof fn law_bare_name_kept(name: Seq<char>, abi: Seq<char>)
    requires
        !has_suffix(name, abi),
    ensures
        bare_name(name, Some(abi)) == bare_name(name, None),
        name.len() > 0 && name.last() != '-' ==> bare_name(name, Some(abi)) == name,
{
}

/// The list taken over from `apk` holds the packages of the places of its list,
/// and no others.
pub proof fn law_apk_only(v: Seq<ApkView>, p: PackageView)
    ensures
        ordered(apk_packages(v)).contains(p) <==> exists|i: int|
            0 <= i < v.len() && p == package_of(
                bare_name((#[trigger] v[i]).name, abi_of(v[i])),
            ),
{
    let s = apk_packages(v);
    law_ordered(s);
    if s.contains(p) {
        let i = choose|i: int| 0 <= i < s.len() && s[i] == p;
        assert(p == package_of(bare_name(v[i].name, abi_of(v[i]))));
    }
    if exists|i: int|
        0 <= i < v.len() && p == package_of(bare_name((#[trigger] v[i]).name, abi_of(v[i]))) {
        let i = choose|i: int|
            0 <= i < v.len() && p == package_of(bare_name((#[trigger] v[i]).name, abi_of(v[i])));
        assert(s[i] == p);
    }
}

/// A line of `opkg` names the package before its first dash between spaces; a
/// line without one names none. Lines before it keep theirs.
pub proof fn law_opkg_line(s: Seq<Seq<char>>, line: Seq<char>)
    ensures
        opkg_packages(Seq::empty()) == Seq::<PackageView>::empty(),
        !has_part(line, " - "@) ==> opkg_packages(s.push(line)) == opkg_packages(s),
        has_part(line, " - "@) ==> exists|name: Seq<char>, rest: Seq<char>|
            {
                &&& line == #[trigger] (name + " - "@ + rest)
                &&& forall|k: int| 0 <= k < name.len() ==> !occurs_at(line, " - "@, k)
                &&& opkg_packages(s.push(line)) == opkg_packages(s).push(
                    package_of(trimmed(name)),
                )
            },
{
    assert(s.push(line).drop_last() =~= s);
    law_around_first(line, " - "@);
    assert(opkg_packages(s) + Seq::<PackageView>::empty() =~= opkg_packages(s));
    if has_part(line, " - "@) {
        let (name, rest) = around_first(line, " - "@)->0;
        assert(opkg_packages(s.push(line)) =~= opkg_packages(s).push(package_of(trimmed(name))));
        assert(line == name + " - "@ + rest);
    }
}

/// A report with all that is wanted is read from its own members: version and
/// target from the release, the profile from the name of the board.
pub proof fn law_board(
    board: Map<Seq<char>, Json>,
    release: Map<Seq<char>, Json>,
    version: Seq<char>,
    target: Seq<char>,
    name: Seq<char>,
)
    requires
        board.contains_key("release"@) && board["release"@] == Json::Object(release),
        board.contains_key("board_name"@) && board["board_name"@] == Json::Text(name),
        release.contains_key("version"@) && release["version"@] == Json::Text(version),
        release.contains_key("target"@) && release["target"@] == Json::Text(target),
    ensures
        board_report(Json::Object(board)) == Ok::<BoardView, BoardError>(
            BoardView { version, target, board_name: name },
        ),
        forall|r: Result<SystemInfo, BoardError>| #[trigger]
            reports(r, board_report(Json::Object(board))) <==> r is Ok && r->Ok_0.version
                == version_of(version) && r->Ok_0.target@ == target_of(target)
                && r->Ok_0.profile_id@ == normal_id(name),
{
}

/// What is missing in a report is named: the release first, then the name of
/// the board, the version and the target.
pub proof fn law_board_missing(j: Json)
    ensures
        json_member(j, "release"@) is None <==> board_report(j) == Err::<BoardView, BoardError>(
            BoardError::MissingRelease,
        ),
        json_member(j, "release"@) is Some ==> {
            let release = json_member(j, "release"@)->0;
            let has_name = json_text(json_member(j, "board_name"@)) is Some;
            let has_version = json_text(json_member(release, "version"@)) is Some;
            let has_target = json_text(json_member(release, "target"@)) is Some;
            &&& !has_name <==> board_report(j) == Err::<BoardView, BoardError>(
                BoardError::MissingBoardName,
            )
            &&& has_name && !has_version <==> board_report(j) == Err::<BoardView, BoardError>(
                BoardError::MissingVersion,
            )
            &&& has_name && has_version && !has_target <==> board_report(j) == Err::<
                BoardView,
                BoardError,
            >(BoardError::MissingTarget)
            &&& board_report(j) is Ok <==> has_name && has_version && has_target
        },
{
}

/// Devices are asked with `apk` from the series 25 on, whatever the rest of
/// their version, and with `opkg` before it.
pub proof fn law_query(v: Version)
    ensures
        v.major >= 25 ==> has_apk(v) && query_of(v)
            == "apk query --installed --world --fields name,tags --format json"@,
        v.major < 25 ==> !has_apk(v) && query_of(v) == "opkg list-installed --strip-abi"@,
{
}

/// The view of a listed package holds its name and all of its tags.
pub proof fn law_apk_view(p: ApkPackage, i: int)
    ensures
        p@.name == p.name@,
        p.tags is None ==> p@.tags is None,
        p.tags matches Some(t) ==> p@.tags is Some && p@.tags->0.len() == t@.len(),
        p.tags matches Some(t) ==> (0 <= i < t@.len() ==> p@.tags->0[i] == t@[i]@),
{
}

} // verus!
