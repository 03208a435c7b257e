//! What the application keeps in mind while it runs.

use vstd::prelude::*;

use crate::config::Config;
use crate::domain::package::{extended, has_name, law_extend_exact, law_extend_idempotent,
    law_list_members, law_package_named, lemma_extended, list_of, package_of, PackageList, PackageView};
use crate::domain::profile::Profile;
use crate::domain::version::Version;
use crate::text::split::{is_word, law_word, law_words, words};

verus! {

/// The download server.
pub const BASE_URL: &'static str = "https://downloads.openwrt.org";

/// The repository of the image builders.
pub const IMAGE_NAME: &'static str = "openwrt/imagebuilder";

/// The packages that every image gets on top of its own.
pub const EXTRA_PACKAGES: &'static str = "luci luci-app-attendedsysupgrade";

/// What the application keeps in mind while it runs.
pub struct AppCore {
    pub config: Config,
    /// The packages of the selected profile.
    pub packages: PackageList,
    pub profiles: Vec<Profile>,
    pub versions: Vec<Version>,
}

impl AppCore {
    /// The application with its settings, and nothing loaded yet.
    pub fn new(config: Config) -> (r: AppCore)
        ensures
            r.config == config,
            r.packages@ == Seq::<PackageView>::empty(),
            r.profiles@ == Seq::<Profile>::empty(),
            r.versions@ == Seq::<Version>::empty(),
    {
        AppCore {
            config,
            packages: PackageList::default(),
            profiles: Vec::new(),
            versions: Vec::new(),
        }
    }
}

/// The packages of a profile with those that every image gets.
pub open spec fn with_extras(s: Seq<PackageView>) -> Seq<PackageView> {
    extended(s, list_of(EXTRA_PACKAGES@), true)
}

/// The packages that are kept in mind for a profile, by those that were fetched
/// for it, if any were.
pub open spec fn kept_in_mind(fetched: Option<Seq<PackageView>>) -> Seq<PackageView> {
    match fetched {
        Some(s) => with_extras(s),
        None => with_extras(Seq::empty()),
    }
}

/// Adds the packages that every image gets.
pub fn add_extras(packages: &mut PackageList)
    ensures
        final(packages)@ == with_extras(old(packages)@),
{
    packages.extend(&PackageList::from(EXTRA_PACKAGES), true);
}

/// The packages of a profile stay as they are when those that every image gets
/// are added, and what is added is taken in.
pub proof fn law_extras(s: Seq<PackageView>, p: PackageView)
    ensures
        with_extras(s).contains(p) <==> s.contains(p) || (p.enabled && has_name(
            list_of(EXTRA_PACKAGES@),
            p.name,
        ) && !has_name(s, p.name)),
        with_extras(with_extras(s)) == with_extras(s),
{
    lemma_extended(s, list_of(EXTRA_PACKAGES@), true);
    law_extend_idempotent(s, list_of(EXTRA_PACKAGES@), true, true);
}

/// Every image gets the two extra packages, unless the profile leaves one out or
/// has it already.
pub proof fn law_extra_names(s: Seq<PackageView>, p: PackageView)
    ensures
        (p.name == "luci"@ || p.name == "luci-app-attendedsysupgrade"@) && !has_name(s, p.name)
            ==> (with_extras(s).contains(p) <==> p.enabled),
        p.name != "luci"@ && p.name != "luci-app-attendedsysupgrade"@ ==> (with_extras(s).contains(p)
            <==> s.contains(p)),
        has_name(s, p.name) ==> (with_extras(s).contains(p) <==> s.contains(p)),
{
    let l = list_of(EXTRA_PACKAGES@);
    reveal_strlit("luci luci-app-attendedsysupgrade");
    reveal_strlit("luci");
    reveal_strlit("luci-app-attendedsysupgrade");
    let a = "luci"@;
    let b = "luci-app-attendedsysupgrade"@;
    let gap = seq![' '];
    assert(EXTRA_PACKAGES@ =~= a + gap + b);
    assert(is_word(a));
    assert(is_word(b));
    law_words(a, gap, b);
    law_word(a);
    law_word(b);
    assert(words(EXTRA_PACKAGES@) =~= seq![a, b]);
    let pa = PackageView { name: a, enabled: true };
    let pb = PackageView { name: b, enabled: true };
    law_package_named(a);
    law_package_named(b);
    law_list_members(EXTRA_PACKAGES@, pa);
    law_list_members(EXTRA_PACKAGES@, pb);
    assert(package_of(words(EXTRA_PACKAGES@)[0]) == pa);
    assert(package_of(words(EXTRA_PACKAGES@)[1]) == pb);
    let i = choose|i: int| 0 <= i < l.len() && l[i] == pa;
    let j = choose|j: int| 0 <= j < l.len() && l[j] == pb;
    assert(l[i].name == a);
    assert(l[j].name == b);
    assert(has_name(l, a) && has_name(l, b));
    if has_name(l, p.name) {
        let k = choose|k: int| 0 <= k < l.len() && (#[trigger] l[k]).name == p.name;
        assert(l.contains(l[k]));
        law_list_members(EXTRA_PACKAGES@, l[k]);
        let m = choose|m: int|
            0 <= m < words(EXTRA_PACKAGES@).len() && package_of(
                #[trigger] words(EXTRA_PACKAGES@)[m],
            ) == l[k];
        assert(m == 0 || m == 1);
    }
    law_extend_exact(s, l, true, p);
}

/// What is kept in mind for a profile are its packages as they were fetched,
/// and the extra ones that it does not have.
pub proof fn law_kept_in_mind(s: Seq<PackageView>, p: PackageView)
    ensures
        s.contains(p) ==> kept_in_mind(Some(s)).contains(p),
        kept_in_mind(Some(s)).contains(p) && !s.contains(p) ==> p.enabled && (p.name == "luci"@
            || p.name == "luci-app-attendedsysupgrade"@) && !has_name(s, p.name),
        p.enabled && (p.name == "luci"@ || p.name == "luci-app-attendedsysupgrade"@) ==> has_name(
            kept_in_mind(Some(s)),
            p.name,
        ) && kept_in_mind(None).contains(p),
{
    law_extras(s, p);
    law_extra_names(s, p);
    law_extra_names(Seq::empty(), p);
    if p.enabled && (p.name == "luci"@ || p.name == "luci-app-attendedsysupgrade"@) {
        let k = kept_in_mind(Some(s));
        if has_name(s, p.name) {
            let i = choose|i: int| 0 <= i < s.len() && (#[trigger] s[i]).name == p.name;
            assert(s.contains(s[i]));
            law_extras(s, s[i]);
            let j = choose|j: int| 0 <= j < k.len() && k[j] == s[i];
            assert(k[j].name == p.name);
        } else {
            let j = choose|j: int| 0 <= j < k.len() && k[j] == p;
            assert(k[j].name == p.name);
        }
    }
}

} // verus!
