//! What the download server lists.

use vstd::prelude::*;

use super::profile::{copy_titles, profiles, Profile, ProfileId, ProfileView};
use super::target::{law_target_round_trip, target_of, target_text, Target};
use super::version::{law_version_round_trip, version_of, version_text, Version};
use crate::data;
use crate::data::{records, RecordView};
use crate::text::scan::texts;

verus! {

/// The profiles of one release.
pub struct OpenWrtOverview {
    pub profiles: Vec<Profile>,
}

/// The versions that the server lists.
pub struct OpenWrtVersions {
    pub versions_list: Vec<Version>,
}

/// The profile that a record stands for.
pub open spec fn profile_loaded(r: RecordView) -> ProfileView {
    ProfileView { id: r.id, titles: r.titles, target: target_of(r.target) }
}

/// The record that a profile is saved as.
pub open spec fn profile_saved(p: ProfileView) -> RecordView {
    RecordView { id: p.id, titles: p.titles, target: target_text(p.target) }
}

/// The versions that texts name.
pub open spec fn versions_of(v: Seq<Seq<char>>) -> Seq<Version> {
    v.map_values(|s: Seq<char>| version_of(s))
}

impl Profile {
    /// The profile that a record stands for.
    pub fn from_record(r: data::Profile) -> (p: Profile)
        ensures
            p@ == profile_loaded(r@),
    {
        Profile {
            id: ProfileId::stored(r.id),
            titles: r.titles,
            target: Target::from(r.target.as_str()),
        }
    }

    /// The record to save.
    pub fn to_record(&self) -> (r: data::Profile)
        ensures
            r@ == profile_saved(self@),
    {
        data::Profile {
            id: self.id.to_string(),
            titles: copy_titles(&self.titles),
            target: self.target.to_string(),
        }
    }
}

/// The profiles that records stand for.
pub fn load_profiles(v: &Vec<data::Profile>) -> (r: Vec<Profile>)
    ensures
        profiles(r@) == records(v@).map_values(|p: RecordView| profile_loaded(p)),
{
    let ghost want = records(v@).map_values(|p: RecordView| profile_loaded(p));
    let mut r: Vec<Profile> = Vec::new();
    let mut i: usize = 0;
    while i < v.len()
        invariant
            i <= v.len(),
            want == records(v@).map_values(|p: RecordView| profile_loaded(p)),
            profiles(r@) == want.take(i as int),
        decreases v.len() - i,
    {
        let ghost r0 = profiles(r@);
        r.push(Profile::from_record(v[i].clone()));
        i += 1;
        assert(want[i - 1] == profile_loaded(v@[i - 1]@));
        assert(profiles(r@) =~= r0.push(want[i - 1]));
        assert(profiles(r@) =~= want.take(i as int));
    }
    assert(profiles(r@) =~= want);
    r
}

/// The records to save profiles as.
pub fn save_profiles(v: &Vec<Profile>) -> (r: Vec<data::Profile>)
    ensures
        records(r@) == profiles(v@).map_values(|p: ProfileView| profile_saved(p)),
{
    let ghost want = profiles(v@).map_values(|p: ProfileView| profile_saved(p));
    let mut r: Vec<data::Profile> = Vec::new();
    let mut i: usize = 0;
    while i < v.len()
        invariant
            i <= v.len(),
            want == profiles(v@).map_values(|p: ProfileView| profile_saved(p)),
            records(r@) == want.take(i as int),
        decreases v.len() - i,
    {
        let ghost r0 = records(r@);
        r.push(v[i].to_record());
        i += 1;
        assert(want[i - 1] == profile_saved(v@[i - 1]@));
        assert(records(r@) =~= r0.push(want[i - 1]));
        assert(records(r@) =~= want.take(i as int));
    }
    assert(records(r@) =~= want);
    r
}

/// The versions that texts name.
pub fn load_versions(v: &Vec<String>) -> (r: Vec<Version>)
    ensures
        r@ == versions_of(texts(v@)),
{
    let ghost want = versions_of(texts(v@));
    let mut r: Vec<Version> = Vec::new();
    let mut i: usize = 0;
    while i < v.len()
        invariant
            i <= v.len(),
            want == versions_of(texts(v@)),
            r@ == want.take(i as int),
        decreases v.len() - i,
    {
        r.push(Version::from(v[i].as_str()));
        i += 1;
        assert(r@ =~= want.take(i as int));
    }
    assert(r@ =~= want);
    r
}

/// A saved profile loads as it was, as long as no slash stands in the parts of
/// its target.
pub proof fn law_profile_round_trip(p: ProfileView)
    requires
        !p.target.target.contains('/'),
        !p.target.subtarget.contains('/'),
    ensures
        profile_loaded(profile_saved(p)) == p,
{
    law_target_round_trip(p.target);
}

/// The texts of versions name those versions.
pub proof fn law_versions_round_trip(v: Seq<Version>)
    ensures
        versions_of(v.map_values(|x: Version| version_text(x))) == v,
{
    let t = v.map_values(|x: Version| version_text(x));
    assert forall|i: int| 0 <= i < v.len() implies versions_of(t)[i] == v[i] by {
        law_version_round_trip(v[i]);
    }
    assert(versions_of(t) =~= v);
}

/// A profile keeps its identifier and all of its titles when it is loaded or
/// saved; its target is read from the record's text and written as text.
pub proof fn law_profile_kept(r: RecordView, p: ProfileView)
    ensures
        profile_loaded(r).id == r.id,
        profile_loaded(r).titles == r.titles,
        profile_loaded(r).target == target_of(r.target),
        profile_saved(p).id == p.id,
        profile_saved(p).titles == p.titles,
        profile_saved(p).target == target_text(p.target),
{
}

/// Each text of a list of versions is read as the version at its place.
pub proof fn law_versions_listed(v: Seq<Seq<char>>, i: int)
    requires
        0 <= i < v.len(),
    ensures
        versions_of(v).len() == v.len(),
        versions_of(v)[i] == version_of(v[i]),
{
}

} // verus!
