//! What is asked of the download server, and what is made of the replies.

use vstd::prelude::*;

use crate::cache::MetadataCache;
use crate::domain::profile::Profile;
use crate::domain::version::{law_version_round_trip, version_text, Version};
use crate::text::order::{before, law_text_order, text_lt};
use crate::text::sort::{law_sorted_holds, sorts, stable_sort, stably_sorted, Ranked};

verus! {

/// What the server is told about the client.
pub const USER_AGENT: &'static str = "BouwerOpenWrtFetcher/1.0";

/// The download server, and the cache in front of it.
pub struct OpenWrtClient {
    pub base_url: String,
    pub cache: MetadataCache,
}

/// The address of the list of versions.
pub open spec fn versions_address(base: Seq<char>) -> Seq<char> {
    base + "/.versions.json"@
}

/// The address of the list of a version's profiles.
pub open spec fn profiles_address(base: Seq<char>, v: Version) -> Seq<char> {
    base + "/releases/"@ + version_text(v) + "/.overview.json"@
}

/// Where profiles come from.
pub enum ProfileSource {
    /// The cache had them.
    Cached(Vec<Profile>),
    /// They are to be fetched from this address.
    Fetch(String),
}

impl Clone for OpenWrtClient {
    fn clone(&self) -> (r: OpenWrtClient)
        ensures
            r.base_url@ == self.base_url@,
            r.cache == self.cache,
    {
        OpenWrtClient { base_url: self.base_url.clone(), cache: self.cache.clone() }
    }
}

impl OpenWrtClient {
    /// The server at `base_url`.
    pub fn new(base_url: &str, cache: MetadataCache) -> (r: OpenWrtClient)
        ensures
            r.base_url@ == base_url@,
            r.cache == cache,
    {
        OpenWrtClient { base_url: base_url.to_string(), cache }
    }

    /// The address of the list of versions.
    pub fn versions_url(&self) -> (r: String)
        ensures
            r@ == versions_address(self.base_url@),
    {
        let mut url: String = self.base_url.clone();
        url.append("/.versions.json");
        url
    }

    /// The address of the list of a version's profiles.
    pub fn profiles_url(&self, version: &Version) -> (r: String)
        ensures
            r@ == profiles_address(self.base_url@, *version),
    {
        let mut url: String = self.base_url.clone();
        url.append("/releases/");
        url.append(version.to_string().as_str());
        url.append("/.overview.json");
        url
    }

    /// Where the profiles of a version come from, given what the cache holds.
    pub fn profile_source(&self, version: &Version, cached: Option<Vec<Profile>>) -> (r:
        ProfileSource)
        ensures
            match cached {
                Some(v) => r == ProfileSource::Cached(v),
                None => r matches ProfileSource::Fetch(url) && url@ == profiles_address(
                    self.base_url@,
                    *version,
                ),
            },
    {
        match cached {
            Some(v) => ProfileSource::Cached(v),
            None => ProfileSource::Fetch(self.profiles_url(version)),
        }
    }
}

impl Ranked for Profile {
    open spec fn precedes(&self, other: &Self) -> bool {
        text_lt(self.id@, other.id@)
    }

    proof fn asymmetric(a: &Self, b: &Self) {
        law_text_order(a.id@, b.id@, a.id@);
    }

    proof fn weak(a: &Self, b: &Self, c: &Self) {
        law_text_order(a.id@, b.id@, c.id@);
        law_text_order(b.id@, c.id@, a.id@);
        law_text_order(a.id@, c.id@, b.id@);
        law_text_order(b.id@, a.id@, c.id@);
        law_text_order(c.id@, b.id@, a.id@);
    }

    fn is_before(&self, other: &Self) -> (r: bool) {
        before(self.id.as_str(), other.id.as_str())
    }
}

/// Profiles that were fetched, in the order of their identifiers. Profiles with
/// the same identifier keep their order.
pub fn arrange_profiles(fetched: Vec<Profile>) -> (r: Vec<Profile>)
    ensures
        stably_sorted(fetched@, r@),
{
    stable_sort(fetched)
}

/// Arranged profiles ascend by identifier, and none is lost or made up.
pub proof fn law_arranged(fetched: Seq<Profile>, r: Seq<Profile>)
    requires
        stably_sorted(fetched, r),
    ensures
        r.len() == fetched.len(),
        forall|i: int, j: int|
            #![trigger r[i], r[j]]
            0 <= i < j < r.len() ==> r[i].id@ == r[j].id@ || text_lt(r[i].id@, r[j].id@),
        forall|p: Profile| #[trigger] r.contains(p) <==> fetched.contains(p),
{
    let order = choose|order: Seq<int>| sorts(fetched, r, order);
    law_sorted_holds(fetched, r);
    assert forall|i: int, j: int|
        #![trigger r[i], r[j]]
        0 <= i < j < r.len() implies r[i].id@ == r[j].id@ || text_lt(r[i].id@, r[j].id@) by {
        assert(!r[j].precedes(&r[i]));
        law_text_order(r[i].id@, r[j].id@, r[i].id@);
    }
}

/// The lists are asked for below the server's address, that of the profiles in
/// the folder of their version: versions do not share an address.
pub proof fn law_addresses(base: Seq<char>, a: Version, b: Version)
    ensures
        versions_address(base) == base + "/.versions.json"@,
        profiles_address(base, a) == base + "/releases/"@ + version_text(a) + "/.overview.json"@,
        profiles_address(base, a) == profiles_address(base, b) ==> a == b,
{
    let front = base + "/releases/"@;
    if profiles_address(base, a) == profiles_address(base, b) {
        let s = profiles_address(base, a);
        let n = "/.overview.json"@.len() as int;
        assert(profiles_address(base, a) =~= front + version_text(a) + "/.overview.json"@);
        assert(profiles_address(base, b) =~= front + version_text(b) + "/.overview.json"@);
        assert(s.subrange(front.len() as int, s.len() - n) =~= version_text(a));
        assert(s.subrange(front.len() as int, s.len() - n) =~= version_text(b));
        law_version_round_trip(a);
        law_version_round_trip(b);
    }
}

} // verus!
