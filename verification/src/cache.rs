//! Where downloaded data is kept, and in which form.

use std::path::PathBuf;
use vstd::prelude::*;

use crate::domain::package::{law_list_read, list_of, list_text, PackageList, PackageView};
use crate::domain::profile::ProfileId;
use crate::domain::target::{target_slug, Target, TargetView};
use crate::domain::version::{law_version_round_trip, version_text, Version};
use crate::paths::{below, copy_path, join_text};

verus! {

/// The packages of a profile, as a cached file holds them.
#[derive(Debug)]
pub struct PackageCacheRecord {
    pub packages: String,
}

/// The folder for cached data.
pub struct MetadataCache {
    pub cache_path: PathBuf,
}

/// The name of the file with the profiles of a version.
pub open spec fn profiles_file(v: Version) -> Seq<char> {
    "profiles-"@ + version_text(v) + ".json"@
}

/// The name of the file with the packages of a profile.
pub open spec fn packages_file(v: Version, t: TargetView, id: Seq<char>) -> Seq<char> {
    "packages-"@ + version_text(v) + "-"@ + target_slug(t) + "-"@ + id + ".json"@
}

impl Clone for MetadataCache {
    fn clone(&self) -> (r: MetadataCache)
        ensures
            r == *self,
    {
        MetadataCache { cache_path: copy_path(&self.cache_path) }
    }
}

impl MetadataCache {
    /// The cache in a folder.
    pub fn new(cache_path: &PathBuf) -> (r: MetadataCache)
        ensures
            r.cache_path == *cache_path,
    {
        MetadataCache { cache_path: copy_path(cache_path) }
    }

    /// The file with the profiles of a version.
    pub fn get_profile_path(&self, version: &Version) -> (r: PathBuf)
        ensures
            r == below(self.cache_path, profiles_file(*version)),
    {
        let mut name: String = "profiles-".to_string();
        name.append(version.to_string().as_str());
        name.append(".json");
        join_text(&self.cache_path, name.as_str())
    }

    /// The file with the packages of a profile.
    pub fn get_package_path(
        &self,
        version: &Version,
        target: &Target,
        profile_id: &ProfileId,
    ) -> (r: PathBuf)
        ensures
            r == below(self.cache_path, packages_file(*version, target@, profile_id@)),
    {
        let mut name: String = "packages-".to_string();
        name.append(version.to_string().as_str());
        name.append("-");
        name.append(target.to_slug().as_str());
        name.append("-");
        name.append(profile_id.as_str());
        name.append(".json");
        join_text(&self.cache_path, name.as_str())
    }
}

impl PackageCacheRecord {
    /// The record to keep, unless there is nothing to keep.
    pub fn of(packages: &str) -> (r: Option<PackageCacheRecord>)
        ensures
            match r {
                Some(rec) => packages@.len() > 0 && rec.packages@ == packages@,
                None => packages@.len() == 0,
            },
    {
        if packages.is_empty() {
            None
        } else {
            Some(PackageCacheRecord { packages: packages.to_string() })
        }
    }

    /// The packages that a record holds.
    pub fn to_packages(&self) -> (r: PackageList)
        ensures
            r@ == list_of(self.packages@),
    {
        PackageList::from(self.packages.as_str())
    }
}

/// Where the packages of a profile come from.
pub enum PackageSource {
    /// The cache had them.
    Cached(PackageList),
    /// The image builder is to be asked.
    Builder,
}

/// The packages that the cache holds, if it holds them.
pub open spec fn cached_list(cached: Option<PackageCacheRecord>) -> Option<Seq<PackageView>> {
    match cached {
        Some(rec) => Some(list_of(rec.packages@)),
        None => None,
    }
}

/// Where the packages of a profile come from, given what the cache holds.
pub fn package_source(cached: Option<PackageCacheRecord>) -> (r: PackageSource)
    ensures
        match cached {
            Some(rec) => r matches PackageSource::Cached(p) && p@ == list_of(rec.packages@),
            None => r is Builder,
        },
        match cached_list(cached) {
            Some(l) => r matches PackageSource::Cached(p) && p@ == l,
            None => r is Builder,
        },
{
    match cached {
        Some(rec) => PackageSource::Cached(rec.to_packages()),
        None => PackageSource::Builder,
    }
}

/// Packages that were read come back from the cache as they were.
pub proof fn law_cached_packages(s: Seq<char>)
    ensures
        list_of(list_text(list_of(s))) == list_of(s),
{
    law_list_read(s);
}

/// Versions do not share a file of profiles.
pub proof fn law_profiles_file(a: Version, b: Version)
    requires
        profiles_file(a) == profiles_file(b),
    ensures
        a == b,
{
    let pre = "profiles-"@;
    let post = ".json"@;
    let x = version_text(a);
    let y = version_text(b);
    let n = pre.len() as int;
    assert(profiles_file(a).subrange(n, profiles_file(a).len() - post.len()) =~= x);
    assert(profiles_file(b).subrange(n, profiles_file(b).len() - post.len()) =~= y);
    law_version_round_trip(a);
    law_version_round_trip(b);
}

/// The packages of a profile are kept under its version, its target and its
/// identifier, so that profiles of one version and target do not share a file.
pub proof fn law_packages_file(v: Version, t: TargetView, a: Seq<char>, b: Seq<char>)
    ensures
        packages_file(v, t, a) == "packages-"@ + version_text(v) + "-"@ + target_slug(t) + "-"@ + a
            + ".json"@,
        profiles_file(v) == "profiles-"@ + version_text(v) + ".json"@,
        packages_file(v, t, a) == packages_file(v, t, b) ==> a == b,
{
    let front = "packages-"@ + version_text(v) + "-"@ + target_slug(t) + "-"@;
    if packages_file(v, t, a) == packages_file(v, t, b) {
        let s = packages_file(v, t, a);
        let n = ".json"@.len() as int;
        assert(packages_file(v, t, a) =~= front + a + ".json"@);
        assert(packages_file(v, t, b) =~= front + b + ".json"@);
        assert(s.subrange(front.len() as int, s.len() - n) =~= a);
        assert(s.subrange(front.len() as int, s.len() - n) =~= b);
    }
}

/// A record in the cache gives the packages that were stored in it; without one
/// the image builder is asked.
pub proof fn law_cached_list(rec: PackageCacheRecord, packages: Seq<char>)
    requires
        rec.packages@ == list_text(list_of(packages)),
    ensures
        cached_list(Some(rec)) == Some(list_of(packages)),
        cached_list(None) is None,
{
    law_list_read(packages);
}

} // verus!
