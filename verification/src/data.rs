//! Records as the download server and saved files hold them, with every value
//! as text.

use vstd::prelude::*;

use crate::domain::profile::{copy_titles, titles, TitleView};
pub use crate::domain::ProfileTitle;

verus! {

/// The versions that the server lists.
pub struct OpenWrtVersions {
    pub versions_list: Vec<String>,
}

/// The profiles of one release.
pub struct OpenWrtOverview {
    pub profiles: Vec<Profile>,
}

/// A saved selection.
pub struct Preset {
    pub release_series: String,
    pub target: String,
    pub profile_id: String,
    pub extra_image_name: String,
    pub rootfs_size: String,
    pub packages: String,
    pub disabled_services: String,
    pub overlay_path: String,
}

impl Default for Preset {
    fn default() -> (r: Preset)
        ensures
            r.release_series@ == Seq::<char>::empty(),
            r.target@ == Seq::<char>::empty(),
            r.profile_id@ == Seq::<char>::empty(),
            r.extra_image_name@ == Seq::<char>::empty(),
            r.rootfs_size@ == Seq::<char>::empty(),
            r.packages@ == Seq::<char>::empty(),
            r.disabled_services@ == Seq::<char>::empty(),
            r.overlay_path@ == Seq::<char>::empty(),
    {
        Preset {
            release_series: String::new(),
            target: String::new(),
            profile_id: String::new(),
            extra_image_name: String::new(),
            rootfs_size: String::new(),
            packages: String::new(),
            disabled_services: String::new(),
            overlay_path: String::new(),
        }
    }
}

/// A device profile.
pub struct Profile {
    pub id: String,
    pub titles: Vec<ProfileTitle>,
    pub target: String,
}

/// What a [`Profile`] holds.
pub struct RecordView {
    pub id: Seq<char>,
    pub titles: Seq<TitleView>,
    pub target: Seq<char>,
}

impl View for Profile {
    type V = RecordView;

    open spec fn view(&self) -> RecordView {
        RecordView { id: self.id@, titles: titles(self.titles@), target: self.target@ }
    }
}

/// What a sequence of profiles holds.
pub open spec fn records(v: Seq<Profile>) -> Seq<RecordView> {
    v.map_values(|p: Profile| p@)
}

impl Clone for Profile {
    fn clone(&self) -> (r: Profile)
        ensures
            r@ == self@,
    {
        Profile {
            id: self.id.clone(),
            titles: copy_titles(&self.titles),
            target: self.target.clone(),
        }
    }
}

} // verus!
