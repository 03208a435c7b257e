//! Image builders: the commands they run and what they print.

use std::path::PathBuf;
use vstd::prelude::*;
use vstd::std_specs::convert::FromSpecImpl;

use crate::containers::Volume;
use crate::domain::package::{list_of, list_text, PackageList, PackageView};
use crate::domain::profile::ProfileId;
use crate::domain::target::{tag_text, ImageTag, Target};
use crate::domain::version::Version;
use crate::paths::{below, copy_path, join_text, path_from, path_of};
use crate::text::number::{decimal, to_decimal};
use crate::text::scan::{blank_text, has_prefix, joined, law_parts, law_trimmed, law_trimmed_is,
    lemma_trimmed_around, opt_str, starts_with, strip_prefix, texts, trim, trimmed, white};
use crate::text::split::{lines, lines_of};

verus! {

/// What an image is built from.
pub struct BuildArgs<'args> {
    pub profile_id: ProfileId,
    pub packages: PackageList,
    pub extra_image_name: Option<&'args str>,
    pub rootfs_size: Option<u32>,
    pub disabled_services: Option<&'args str>,
    pub overlay_path: Option<&'args str>,
}

/// What a [`BuildArgs`] holds.
pub struct ArgsView {
    pub profile_id: Seq<char>,
    pub packages: Seq<PackageView>,
    pub extra_image_name: Option<Seq<char>>,
    pub rootfs_size: Option<u32>,
    pub disabled_services: Option<Seq<char>>,
    pub overlay_path: Option<Seq<char>>,
}

impl<'args> View for BuildArgs<'args> {
    type V = ArgsView;

    open spec fn view(&self) -> ArgsView {
        ArgsView {
            profile_id: self.profile_id@,
            packages: self.packages@,
            extra_image_name: opt_str(self.extra_image_name),
            rootfs_size: self.rootfs_size,
            disabled_services: opt_str(self.disabled_services),
            overlay_path: opt_str(self.overlay_path),
        }
    }
}

/// A variable of the command line, where it has a value.
pub open spec fn variable(name: Seq<char>, value: Option<Seq<char>>) -> Seq<Seq<char>> {
    match value {
        Some(v) => seq![name + v],
        None => seq![],
    }
}

/// The command that builds an image.
pub open spec fn build_command(a: ArgsView) -> Seq<Seq<char>> {
    seq!["make"@, "image"@, "PROFILE="@ + a.profile_id, "PACKAGES="@ + list_text(a.packages)]
        + variable("EXTRA_IMAGE_NAME="@, a.extra_image_name) + variable(
        "ROOTFS_PARTSIZE="@,
        match a.rootfs_size {
            Some(n) => Some(decimal(n as nat)),
            None => None,
        },
    ) + variable("DISABLED_SERVICES="@, a.disabled_services) + match a.overlay_path {
        Some(p) => seq!["FILES=/overlay"@],
        None => seq![],
    }
}

impl<'args> From<BuildArgs<'args>> for Vec<String> {
    fn from(args: BuildArgs<'args>) -> (r: Vec<String>)
        ensures
            texts(r@) == build_command(args@),
    {
        let mut cmd: Vec<String> = Vec::new();
        cmd.push("make".to_string());
        cmd.push("image".to_string());
        cmd.push(joined("PROFILE=", args.profile_id.as_str()));
        cmd.push(joined("PACKAGES=", args.packages.to_string().as_str()));
        assert(texts(cmd@) =~= seq![
            "make"@,
            "image"@,
            "PROFILE="@ + args@.profile_id,
            "PACKAGES="@ + list_text(args@.packages),
        ]);
        let ghost c0 = texts(cmd@);
        if let Some(v) = args.extra_image_name {
            cmd.push(joined("EXTRA_IMAGE_NAME=", v));
        }
        assert(texts(cmd@) =~= c0 + variable("EXTRA_IMAGE_NAME="@, args@.extra_image_name));
        let ghost c1 = texts(cmd@);
        if let Some(v) = args.rootfs_size {
            cmd.push(joined("ROOTFS_PARTSIZE=", to_decimal(v).as_str()));
        }
        let ghost size = match args@.rootfs_size {
            Some(n) => Some(decimal(n as nat)),
            None => None,
        };
        assert(texts(cmd@) =~= c1 + variable("ROOTFS_PARTSIZE="@, size));
        let ghost c2 = texts(cmd@);
        if let Some(v) = args.disabled_services {
            cmd.push(joined("DISABLED_SERVICES=", v));
        }
        assert(texts(cmd@) =~= c2 + variable("DISABLED_SERVICES="@, args@.disabled_services));
        let ghost c3 = texts(cmd@);
        if let Some(_) = args.overlay_path {
            cmd.push("FILES=/overlay".to_string());
            assert(texts(cmd@) =~= c3 + seq!["FILES=/overlay"@]);
        } else {
            assert(texts(cmd@) =~= c3 + Seq::<Seq<char>>::empty());
        }
        cmd
    }
}

impl<'args> FromSpecImpl<BuildArgs<'args>> for Vec<String> {
    open spec fn obeys_from_spec() -> bool {
        false
    }

    open spec fn from_spec(v: BuildArgs<'args>) -> Vec<String> {
        arbitrary()
    }
}

/// What a line of the builder's description is.
pub enum InfoLine {
    /// The packages that every image has.
    Defaults(Seq<char>),
    /// The head of the wanted profile's block.
    Profile,
    /// The packages of a profile.
    Packages(Seq<char>),
    Other,
}

/// Reads a line of the description. The wanted profile has the identifier `id`.
pub open spec fn info_line(line: Seq<char>, id: Seq<char>) -> InfoLine {
    let t = trimmed(line);
    if has_prefix(t, "Default Packages:"@) {
        InfoLine::Defaults(trimmed(t.skip("Default Packages:"@.len() as int)))
    } else if has_prefix(t, id + ":"@) {
        InfoLine::Profile
    } else if has_prefix(t, "Packages:"@) {
        InfoLine::Packages(trimmed(t.skip("Packages:"@.len() as int)))
    } else {
        InfoLine::Other
    }
}

/// The first line at `from` or later with the head of the profile's block.
pub open spec fn profile_at(s: Seq<Seq<char>>, id: Seq<char>, from: int) -> Option<int>
    decreases s.len() - from,
{
    if from < 0 || from >= s.len() {
        None
    } else if info_line(s[from], id) is Profile {
        Some(from)
    } else {
        profile_at(s, id, from + 1)
    }
}

/// The first line at `from` or later with the packages of a profile.
pub open spec fn packages_at(s: Seq<Seq<char>>, id: Seq<char>, from: int) -> Option<int>
    decreases s.len() - from,
{
    if from < 0 || from >= s.len() {
        None
    } else if info_line(s[from], id) is Packages {
        Some(from)
    } else {
        packages_at(s, id, from + 1)
    }
}

/// The packages that every image has, by the last line before `end` that lists
/// them.
pub open spec fn defaults_before(s: Seq<Seq<char>>, id: Seq<char>, end: int) -> Seq<char>
    decreases end,
{
    if end <= 0 {
        seq![]
    } else {
        match info_line(s[end - 1], id) {
            InfoLine::Defaults(p) => p,
            _ => defaults_before(s, id, end - 1),
        }
    }
}

/// The line with the packages of the profile: the first such line after the
/// head of the profile's block.
pub open spec fn device_line(s: Seq<Seq<char>>, id: Seq<char>) -> Option<int> {
    match profile_at(s, id, 0) {
        Some(i) => packages_at(s, id, i + 1),
        None => None,
    }
}

/// The packages of every image and those of the profile, as the description
/// lists them.
pub open spec fn described_packages(info: Seq<char>, id: Seq<char>) -> Seq<char> {
    let s = lines_of(info);
    match device_line(s, id) {
        Some(i) => defaults_before(s, id, i) + seq![' '] + info_line(s[i], id)->Packages_0,
        None => defaults_before(s, id, s.len() as int) + seq![' '],
    }
}

/// The packages that an image of the profile has before anything is changed, by
/// what `make info` prints.
pub fn parse_package_list(info: &str, profile_id: &ProfileId) -> (r: PackageList)
    ensures
        r@ == list_of(described_packages(info@, profile_id@)),
{
    let all: Vec<String> = lines(info);
    let ghost s = texts(all@);
    let ghost id = profile_id@;
    let prefix: String = joined(profile_id.as_str(), ":");
    let mut default_pkgs: String = String::new();
    let mut device_pkgs: String = String::new();
    let mut in_profile_block: bool = false;
    let mut done: bool = false;
    let ghost mut head: int = 0;
    let mut i: usize = 0;
    assert(default_pkgs@ =~= defaults_before(s, id, 0));
    while i < all.len() && !done
        invariant
            i <= all.len(),
            s == texts(all@),
            s == lines_of(info@),
            id == profile_id@,
            prefix@ == id + ":"@,
            !done ==> default_pkgs@ == defaults_before(s, id, i as int),
            !done ==> device_pkgs@ == Seq::<char>::empty(),
            !done && !in_profile_block ==> profile_at(s, id, 0) == profile_at(s, id, i as int),
            !done && in_profile_block ==> profile_at(s, id, 0) == Some(head) && packages_at(
                s,
                id,
                head + 1,
            ) == packages_at(s, id, i as int),
            done ==> (device_line(s, id) matches Some(k) && default_pkgs@ == defaults_before(
                s,
                id,
                k,
            ) && info_line(s[k], id) == InfoLine::Packages(device_pkgs@)),
        decreases all.len() - i + if done { 0int } else { 1int },
    {
        assert(s[i as int] == all@[i as int]@);
        let trimmed_line: String = trim(all[i].as_str());
        if let Some(pkgs) = strip_prefix(trimmed_line.as_str(), "Default Packages:") {
            default_pkgs = trim(pkgs.as_str());
            i += 1;
        } else if starts_with(trimmed_line.as_str(), prefix.as_str()) {
            proof {
                if !in_profile_block {
                    head = i as int;
                }
            }
            in_profile_block = true;
            i += 1;
        } else {
            if in_profile_block {
                if let Some(pkgs) = strip_prefix(trimmed_line.as_str(), "Packages:") {
                    device_pkgs = trim(pkgs.as_str());
                    done = true;
                }
            }
            if !done {
                i += 1;
            }
        }
    }
    let mut both: String = default_pkgs;
    both.push(' ');
    both.append(device_pkgs.as_str());
    assert(both@ =~= described_packages(info@, id));
    PackageList::from(both.as_str())
}

/// The image builder for one version and target.
pub struct ImageBuilder {
    pub build_path: PathBuf,
    pub image_tag: ImageTag,
}

/// The volumes of a build: the folder for the images, the one for downloads
/// below it, and the overlay where there is one.
pub open spec fn build_volumes(build_path: PathBuf, overlay: Option<Seq<char>>) -> Seq<Volume> {
    seq![
        Volume { src: build_path, dest: path_of("/builder/bin/targets"@) },
        Volume { src: below(build_path, "dl"@), dest: path_of("/builder/dl"@) },
    ] + match overlay {
        Some(p) => seq![Volume { src: path_of(p), dest: path_of("/overlay"@) }],
        None => seq![],
    }
}

impl ImageBuilder {
    /// The image builder whose tag is made from `image_base`.
    pub fn new(
        image_base: &str,
        build_path: &PathBuf,
        version: &Version,
        target: &Target,
    ) -> (r: ImageBuilder)
        ensures
            r.build_path == *build_path,
            r.image_tag@ == tag_text(target@, *version, image_base@),
    {
        ImageBuilder {
            build_path: copy_path(build_path),
            image_tag: ImageTag::new(target, version, image_base),
        }
    }

    /// The command that prints the builder's description.
    pub fn info_command() -> (r: Vec<String>)
        ensures
            texts(r@) == seq!["make"@, "info"@],
    {
        let mut r: Vec<String> = Vec::new();
        r.push("make".to_string());
        r.push("info".to_string());
        assert(texts(r@) =~= seq!["make"@, "info"@]);
        r
    }

    /// The volumes of a build.
    pub fn get_build_volumes(&self, overlay_path: Option<&str>) -> (r: Vec<Volume>)
        ensures
            r@ == build_volumes(self.build_path, opt_str(overlay_path)),
    {
        let mut volumes: Vec<Volume> = Vec::new();
        volumes.push(
            Volume { src: copy_path(&self.build_path), dest: path_from("/builder/bin/targets") },
        );
        volumes.push(
            Volume { src: join_text(&self.build_path, "dl"), dest: path_from("/builder/dl") },
        );
        if let Some(path) = overlay_path {
            volumes.push(Volume { src: path_from(path), dest: path_from("/overlay") });
        }
        assert(volumes@ =~= build_volumes(self.build_path, opt_str(overlay_path)));
        volumes
    }
}

/// A build with nothing left open names the profile and the packages, and every
/// value that was given stands on the command line.
pub proof fn law_build_command(a: ArgsView)
    ensures
        4 <= build_command(a).len() <= 8,
        build_command(a)[2] == "PROFILE="@ + a.profile_id,
        build_command(a)[3] == "PACKAGES="@ + list_text(a.packages),
        a.extra_image_name matches Some(v) ==> build_command(a).contains("EXTRA_IMAGE_NAME="@ + v),
        a.rootfs_size matches Some(n) ==> build_command(a).contains(
            "ROOTFS_PARTSIZE="@ + decimal(n as nat),
        ),
        a.disabled_services matches Some(v) ==> build_command(a).contains(
            "DISABLED_SERVICES="@ + v,
        ),
        a.overlay_path is Some ==> build_command(a).contains("FILES=/overlay"@),
{
    let c = build_command(a);
    let n1: int = if a.extra_image_name is Some { 1 } else { 0 };
    let n2: int = if a.rootfs_size is Some { 1 } else { 0 };
    let n3: int = if a.disabled_services is Some { 1 } else { 0 };
    if let Some(v) = a.extra_image_name {
        assert(c[4] == "EXTRA_IMAGE_NAME="@ + v);
    }
    if let Some(n) = a.rootfs_size {
        assert(c[4 + n1] == "ROOTFS_PARTSIZE="@ + decimal(n as nat));
    }
    if let Some(v) = a.disabled_services {
        assert(c[4 + n1 + n2] == "DISABLED_SERVICES="@ + v);
    }
    if a.overlay_path is Some {
        assert(c[4 + n1 + n2 + n3] == "FILES=/overlay"@);
    }
}

/// The command is `make image` with the profile and the packages, and then a
/// variable for each value that is given and for no other: each depends on its
/// own value alone.
pub proof fn law_command_variables(a: ArgsView)
    ensures
        ({
            let c = build_command(a);
            &&& c[0] == "make"@ && c[1] == "image"@
            &&& c.len() == 4 + (if a.extra_image_name is Some { 1int } else { 0 }) + (
            if a.rootfs_size is Some { 1int } else { 0 }) + (if a.disabled_services is Some {
                1int
            } else {
                0
            }) + (if a.overlay_path is Some { 1int } else { 0 })
            &&& c.contains("FILES=/overlay"@) <==> a.overlay_path is Some
            &&& (exists|i: int| 0 <= i < c.len() && has_prefix(#[trigger] c[i], "EXTRA_IMAGE_NAME="@))
                <==> a.extra_image_name is Some
            &&& (exists|i: int| 0 <= i < c.len() && has_prefix(#[trigger] c[i], "ROOTFS_PARTSIZE="@))
                <==> a.rootfs_size is Some
            &&& (exists|i: int|
                0 <= i < c.len() && has_prefix(#[trigger] c[i], "DISABLED_SERVICES="@))
                <==> a.disabled_services is Some
        }),
{
    let c = build_command(a);
    law_build_command(a);
    lemma_command_letters(a);
    lemma_variable_letters();
    let n1: int = if a.extra_image_name is Some { 1 } else { 0 };
    let n2: int = if a.rootfs_size is Some { 1 } else { 0 };
    if let Some(v) = a.extra_image_name {
        law_parts(Seq::empty(), "EXTRA_IMAGE_NAME="@, v);
        assert(has_prefix(c[4], "EXTRA_IMAGE_NAME="@));
    }
    if let Some(n) = a.rootfs_size {
        law_parts(Seq::empty(), "ROOTFS_PARTSIZE="@, decimal(n as nat));
        assert(has_prefix(c[4 + n1], "ROOTFS_PARTSIZE="@));
    }
    if let Some(v) = a.disabled_services {
        law_parts(Seq::empty(), "DISABLED_SERVICES="@, v);
        assert(has_prefix(c[4 + n1 + n2], "DISABLED_SERVICES="@));
    }
    assert forall|i: int| 0 <= i < c.len() && has_prefix(#[trigger] c[i], "EXTRA_IMAGE_NAME="@)
        implies a.extra_image_name is Some by {
        lemma_first_letter(c[i], "EXTRA_IMAGE_NAME="@);
    }
    assert forall|i: int| 0 <= i < c.len() && has_prefix(#[trigger] c[i], "ROOTFS_PARTSIZE="@)
        implies a.rootfs_size is Some by {
        lemma_first_letter(c[i], "ROOTFS_PARTSIZE="@);
    }
    assert forall|i: int| 0 <= i < c.len() && has_prefix(#[trigger] c[i], "DISABLED_SERVICES="@)
        implies a.disabled_services is Some by {
        lemma_first_letter(c[i], "DISABLED_SERVICES="@);
    }
    if c.contains("FILES=/overlay"@) {
        let i = choose|i: int| 0 <= i < c.len() && c[i] == "FILES=/overlay"@;
        assert(c[i][0] == 'F');
    }
}

proof fn lemma_first_letter(s: Seq<char>, pre: Seq<char>)
    requires
        has_prefix(s, pre),
        pre.len() > 0,
    ensures
        s.len() > 0,
        s[0] == pre[0],
{
    assert(s.subrange(0, pre.len() as int)[0] == s[0]);
}

/// The variables of the command line differ in their first letters.
proof fn lemma_variable_letters()
    ensures
        "make"@.len() > 0 && "make"@[0] == 'm',
        "image"@.len() > 0 && "image"@[0] == 'i',
        "PROFILE="@.len() > 0 && "PROFILE="@[0] == 'P',
        "PACKAGES="@.len() > 0 && "PACKAGES="@[0] == 'P',
        "EXTRA_IMAGE_NAME="@.len() > 0 && "EXTRA_IMAGE_NAME="@[0] == 'E',
        "ROOTFS_PARTSIZE="@.len() > 0 && "ROOTFS_PARTSIZE="@[0] == 'R',
        "DISABLED_SERVICES="@.len() > 0 && "DISABLED_SERVICES="@[0] == 'D',
        "FILES=/overlay"@.len() > 0 && "FILES=/overlay"@[0] == 'F',
{
    reveal_strlit("make");
    reveal_strlit("image");
    reveal_strlit("PROFILE=");
    reveal_strlit("PACKAGES=");
    reveal_strlit("EXTRA_IMAGE_NAME=");
    reveal_strlit("ROOTFS_PARTSIZE=");
    reveal_strlit("DISABLED_SERVICES=");
    reveal_strlit("FILES=/overlay");
}

/// The words of the command, place by place, with their first letters.
proof fn lemma_command_letters(a: ArgsView)
    ensures
        ({
            let c = build_command(a);
            let n1: int = if a.extra_image_name is Some { 1 } else { 0 };
            let n2: int = if a.rootfs_size is Some { 1 } else { 0 };
            let n3: int = if a.disabled_services is Some { 1 } else { 0 };
            let n4: int = if a.overlay_path is Some { 1 } else { 0 };
            &&& c.len() == 4 + n1 + n2 + n3 + n4
            &&& c[0] == "make"@ && c[1] == "image"@
            &&& c[0][0] == 'm' && c[1][0] == 'i' && c[2][0] == 'P' && c[3][0] == 'P'
            &&& a.extra_image_name matches Some(v) ==> c[4] == "EXTRA_IMAGE_NAME="@ + v && c[4][0]
                == 'E'
            &&& a.rootfs_size matches Some(n) ==> c[4 + n1] == "ROOTFS_PARTSIZE="@ + decimal(
                n as nat,
            ) && c[4 + n1][0] == 'R'
            &&& a.disabled_services matches Some(v) ==> c[4 + n1 + n2] == "DISABLED_SERVICES="@ + v
                && c[4 + n1 + n2][0] == 'D'
            &&& a.overlay_path is Some ==> c[4 + n1 + n2 + n3] == "FILES=/overlay"@
        }),
{
    lemma_variable_letters();
}

/// The container sees the folder for images, the one for downloads below it,
/// and the overlay exactly where one is given; nothing else.
pub proof fn law_volumes(build_path: PathBuf, overlay: Option<Seq<char>>, v: Volume)
    ensures
        build_volumes(build_path, overlay).contains(v) <==> (v.src == build_path && v.dest
            == path_of("/builder/bin/targets"@)) || (v.src == below(build_path, "dl"@) && v.dest
            == path_of("/builder/dl"@)) || (overlay is Some && v.src == path_of(overlay->0)
            && v.dest == path_of("/overlay"@)),
        build_volumes(build_path, overlay).len() == if overlay is Some { 3int } else { 2 },
{
    let s = build_volumes(build_path, overlay);
    assert(s[0] == (Volume { src: build_path, dest: path_of("/builder/bin/targets"@) }));
    assert(s[1] == (Volume { src: below(build_path, "dl"@), dest: path_of("/builder/dl"@) }));
    if let Some(p) = overlay {
        assert(s[2] == (Volume { src: path_of(p), dest: path_of("/overlay"@) }));
    }
    if s.contains(v) {
        let i = choose|i: int| 0 <= i < s.len() && s[i] == v;
        assert(i == 0 || i == 1 || i == 2);
    }
    if v.src == build_path && v.dest == path_of("/builder/bin/targets"@) {
        assert(s[0] == v);
    }
    if v.src == below(build_path, "dl"@) && v.dest == path_of("/builder/dl"@) {
        assert(s[1] == v);
    }
    if overlay is Some && v.src == path_of(overlay->0) && v.dest == path_of("/overlay"@) {
        assert(s[2] == v);
    }
}

/// What the lines of a description say: white space around a line plays no
/// part, what follows `Default Packages:` or `Packages:` is listed, and the
/// identifier with a colon begins the block of the profile.
pub proof fn law_info_line(a: Seq<char>, rest: Seq<char>, id: Seq<char>)
    requires
        blank_text(a),
        id.len() > 0,
        !white(id[0]),
    ensures
        info_line(a + ("Default Packages:"@ + rest), id) == InfoLine::Defaults(trimmed(rest)),
        !has_prefix(trimmed("Packages:"@ + rest), id + ":"@) ==> info_line(
            a + ("Packages:"@ + rest),
            id,
        ) == InfoLine::Packages(trimmed(rest)),
        !has_prefix(trimmed(id + ":"@ + rest), "Default Packages:"@) ==> info_line(
            a + (id + ":"@ + rest),
            id,
        ) is Profile,
{
    reveal_strlit("Default Packages:");
    reveal_strlit("Packages:");
    reveal_strlit(":");
    lemma_headed(a, "Default Packages:"@, rest);
    lemma_headed(a, "Packages:"@, rest);
    lemma_headed(a, id + ":"@, rest);
    let t = trimmed("Packages:"@ + rest);
    if has_prefix(t, "Default Packages:"@) {
        assert(t.subrange(0, "Default Packages:"@.len() as int)[0] == t[0]);
        assert(t.subrange(0, "Packages:"@.len() as int)[0] == t[0]);
    }
}

/// A line that begins with a head, set off by nothing but white space, begins
/// with it when it is trimmed, and what follows the head is what followed it.
proof fn lemma_headed(a: Seq<char>, head: Seq<char>, rest: Seq<char>)
    requires
        blank_text(a),
        head.len() > 0,
        !white(head[0]),
        !white(head.last()),
    ensures
        trimmed(a + (head + rest)) == trimmed(head + rest),
        has_prefix(trimmed(head + rest), head),
        trimmed(trimmed(head + rest).skip(head.len() as int)) == trimmed(rest),
{
    let none = Seq::<char>::empty();
    let s = head + rest;
    lemma_trimmed_around(a, s, none);
    assert(a + s + none =~= a + s);
    law_trimmed(rest);
    let (x, y) = choose|x: Seq<char>, y: Seq<char>|
        blank_text(x) && blank_text(y) && rest == #[trigger] (x + trimmed(rest) + y);
    let r = trimmed(rest);
    if r.len() == 0 {
        law_trimmed_is(none, head, x + y);
        assert(s =~= none + head + (x + y));
        assert(head.subrange(0, head.len() as int) =~= head);
        assert(head.skip(head.len() as int) =~= none);
        law_trimmed_is(none, none, none);
        assert(none + none + none =~= none);
        assert(r =~= none);
    } else {
        let t = head + x + r;
        law_trimmed_is(none, t, y);
        assert(s =~= none + t + y);
        assert(t.subrange(0, head.len() as int) =~= head);
        assert(t.skip(head.len() as int) =~= x + r);
        law_trimmed_is(x, r, none);
        assert(x + r + none =~= x + r);
    }
}

/// The packages of a profile are those of the first `Packages:` line below the
/// first head of its block; the packages of every image are those of the last
/// `Default Packages:` line above it. Without such a block, or such a line in
/// it, the last line of default packages counts.
pub proof fn law_described(info: Seq<char>, id: Seq<char>, head: int, at: int, d: int)
    requires
        0 <= head < at < lines_of(info).len(),
        info_line(lines_of(info)[head], id) is Profile,
        forall|k: int| 0 <= k < head ==> !(info_line(#[trigger] lines_of(info)[k], id) is Profile),
        info_line(lines_of(info)[at], id) is Packages,
        forall|k: int|
            head < k < at ==> !(info_line(#[trigger] lines_of(info)[k], id) is Packages),
        -1 <= d < at,
        d >= 0 ==> info_line(lines_of(info)[d], id) is Defaults,
        forall|k: int| d < k < at ==> !(info_line(#[trigger] lines_of(info)[k], id) is Defaults),
    ensures
        d >= 0 ==> described_packages(info, id) == info_line(lines_of(info)[d], id)->Defaults_0
            + " "@ + info_line(lines_of(info)[at], id)->Packages_0,
        d < 0 ==> described_packages(info, id) == " "@ + info_line(
            lines_of(info)[at],
            id,
        )->Packages_0,
{
    reveal_strlit(" ");
    assert(" "@ =~= seq![' ']);
    let s = lines_of(info);
    lemma_profile_at(s, id, 0, head);
    lemma_packages_at(s, id, head + 1, at);
    lemma_defaults_before(s, id, at, d);
    assert(Seq::<char>::empty() + seq![' '] =~= seq![' ']);
}

/// A description in which the profile has no block lists the packages of every
/// image alone.
pub proof fn law_described_without(info: Seq<char>, id: Seq<char>, d: int)
    requires
        forall|k: int|
            0 <= k < lines_of(info).len() ==> !(info_line(
                #[trigger] lines_of(info)[k],
                id,
            ) is Profile),
        0 <= d < lines_of(info).len(),
        info_line(lines_of(info)[d], id) is Defaults,
        forall|k: int|
            d < k < lines_of(info).len() ==> !(info_line(
                #[trigger] lines_of(info)[k],
                id,
            ) is Defaults),
    ensures
        described_packages(info, id) == info_line(lines_of(info)[d], id)->Defaults_0 + " "@,
{
    reveal_strlit(" ");
    assert(" "@ =~= seq![' ']);
    let s = lines_of(info);
    lemma_no_profile_at(s, id, 0);
    lemma_defaults_before(s, id, s.len() as int, d);
}

proof fn lemma_profile_at(s: Seq<Seq<char>>, id: Seq<char>, from: int, at: int)
    requires
        0 <= from <= at < s.len(),
        info_line(s[at], id) is Profile,
        forall|k: int| from <= k < at ==> !(info_line(#[trigger] s[k], id) is Profile),
    ensures
        profile_at(s, id, from) == Some(at),
    decreases at - from,
{
    if from < at {
        assert(!(info_line(s[from], id) is Profile));
        lemma_profile_at(s, id, from + 1, at);
    }
}

proof fn lemma_no_profile_at(s: Seq<Seq<char>>, id: Seq<char>, from: int)
    requires
        0 <= from,
        forall|k: int| from <= k < s.len() ==> !(info_line(#[trigger] s[k], id) is Profile),
    ensures
        profile_at(s, id, from) is None,
    decreases s.len() - from,
{
    if from < s.len() {
        assert(!(info_line(s[from], id) is Profile));
        lemma_no_profile_at(s, id, from + 1);
    }
}

proof fn lemma_packages_at(s: Seq<Seq<char>>, id: Seq<char>, from: int, at: int)
    requires
        0 <= from <= at < s.len(),
        info_line(s[at], id) is Packages,
        forall|k: int| from <= k < at ==> !(info_line(#[trigger] s[k], id) is Packages),
    ensures
        packages_at(s, id, from) == Some(at),
    decreases at - from,
{
    if from < at {
        assert(!(info_line(s[from], id) is Packages));
        lemma_packages_at(s, id, from + 1, at);
    }
}

proof fn lemma_defaults_before(s: Seq<Seq<char>>, id: Seq<char>, end: int, d: int)
    requires
        -1 <= d < end <= s.len(),
        d >= 0 ==> info_line(s[d], id) is Defaults,
        forall|k: int| d < k < end ==> !(info_line(#[trigger] s[k], id) is Defaults),
    ensures
        d >= 0 ==> defaults_before(s, id, end) == info_line(s[d], id)->Defaults_0,
        d < 0 ==> defaults_before(s, id, end) == Seq::<char>::empty(),
    decreases end,
{
    if end - 1 > d {
        assert(!(info_line(s[end - 1], id) is Defaults));
        if end - 1 > 0 {
            if d < end - 1 {
                lemma_defaults_before(s, id, end - 1, d);
            }
        } else {
            assert(defaults_before(s, id, 0) =~= Seq::<char>::empty());
        }
    }
}

/// A line that begins with neither of the heads nor with the identifier says
/// nothing.
pub proof fn law_info_other(line: Seq<char>, id: Seq<char>)
    ensures
        !has_prefix(trimmed(line), "Default Packages:"@) && !has_prefix(
            trimmed(line),
            "Packages:"@,
        ) && !has_prefix(trimmed(line), id + ":"@) ==> info_line(line, id) is Other,
        info_line(line, id) is Profile ==> has_prefix(trimmed(line), id + ":"@),
        info_line(line, id) is Defaults ==> has_prefix(trimmed(line), "Default Packages:"@),
        info_line(line, id) is Packages ==> has_prefix(trimmed(line), "Packages:"@),
{
}

/// A description in which no packages follow the head of the profile's block
/// lists the packages of every image alone.
pub proof fn law_described_open(info: Seq<char>, id: Seq<char>, head: int, d: int)
    requires
        0 <= head < lines_of(info).len(),
        info_line(lines_of(info)[head], id) is Profile,
        forall|k: int| 0 <= k < head ==> !(info_line(#[trigger] lines_of(info)[k], id) is Profile),
        forall|k: int|
            head < k < lines_of(info).len() ==> !(info_line(
                #[trigger] lines_of(info)[k],
                id,
            ) is Packages),
        -1 <= d < lines_of(info).len(),
        d >= 0 ==> info_line(lines_of(info)[d], id) is Defaults,
        forall|k: int|
            d < k < lines_of(info).len() ==> !(info_line(
                #[trigger] lines_of(info)[k],
                id,
            ) is Defaults),
    ensures
        d >= 0 ==> described_packages(info, id) == info_line(lines_of(info)[d], id)->Defaults_0
            + " "@,
        d < 0 ==> described_packages(info, id) == " "@,
{
    reveal_strlit(" ");
    assert(" "@ =~= seq![' ']);
    let s = lines_of(info);
    lemma_profile_at(s, id, 0, head);
    lemma_no_packages_at(s, id, head + 1);
    lemma_defaults_before(s, id, s.len() as int, d);
    assert(Seq::<char>::empty() + seq![' '] =~= seq![' ']);
}

proof fn lemma_no_packages_at(s: Seq<Seq<char>>, id: Seq<char>, from: int)
    requires
        0 <= from,
        forall|k: int| from <= k < s.len() ==> !(info_line(#[trigger] s[k], id) is Packages),
    ensures
        packages_at(s, id, from) is None,
    decreases s.len() - from,
{
    if from < s.len() {
        assert(!(info_line(s[from], id) is Packages));
        lemma_no_packages_at(s, id, from + 1);
    }
}

/// The view of a build's arguments holds each of them as it is.
pub proof fn law_args_view(a: BuildArgs)
    ensures
        a@.profile_id == a.profile_id@ && a@.packages == a.packages@,
        a@.rootfs_size == a.rootfs_size,
        a.extra_image_name matches Some(s) ==> a@.extra_image_name == Some(s@),
        a.extra_image_name is None ==> a@.extra_image_name is None,
        a.disabled_services matches Some(s) ==> a@.disabled_services == Some(s@),
        a.disabled_services is None ==> a@.disabled_services is None,
        a.overlay_path matches Some(s) ==> a@.overlay_path == Some(s@),
        a.overlay_path is None ==> a@.overlay_path is None,
{
}

} // verus!
