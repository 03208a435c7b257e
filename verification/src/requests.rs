//! What the window hands over with a request.

use vstd::prelude::*;

use crate::text::scan::texts;

verus! {

/// The selection that an image is to be built from.
#[derive(Debug)]
pub struct BuildData {
    pub version: String,
    pub target: String,
    pub profile_id: String,
    pub extra_image_name: String,
    pub rootfs_size: i32,
    pub packages: String,
    pub disabled_services: String,
    pub overlay_path: String,
}

/// What a [`BuildData`] holds.
pub struct BuildView {
    pub version: Seq<char>,
    pub target: Seq<char>,
    pub profile_id: Seq<char>,
    pub extra_image_name: Seq<char>,
    pub rootfs_size: i32,
    pub packages: Seq<char>,
    pub disabled_services: Seq<char>,
    pub overlay_path: Seq<char>,
}

impl View for BuildData {
    type V = BuildView;

    open spec fn view(&self) -> BuildView {
        BuildView {
            version: self.version@,
            target: self.target@,
            profile_id: self.profile_id@,
            extra_image_name: self.extra_image_name@,
            rootfs_size: self.rootfs_size,
            packages: self.packages@,
            disabled_services: self.disabled_services@,
            overlay_path: self.overlay_path@,
        }
    }
}

/// The image builder to delete, and the selection at that time.
#[derive(Debug)]
pub struct DeleteBuilderData {
    pub tag: String,
    pub version: String,
    pub target: String,
    pub profile_id: String,
}

/// The image builder to download.
#[derive(Debug)]
pub struct DownloadBuilderData {
    pub version: String,
    pub target: String,
    pub profile_id: String,
}

/// The device to ask for its packages, and the selection at that time.
#[derive(Debug)]
pub struct FetchFromDeviceData {
    pub host: String,
    pub user: String,
    pub identity: String,
    pub password: String,
    pub version: String,
    pub target: String,
    pub profile_id: String,
}

/// The profile that was picked.
#[derive(Debug)]
pub struct ProfileData {
    pub version: String,
    pub name: String,
}

/// What a [`ProfileData`] holds.
pub struct PickView {
    pub version: Seq<char>,
    pub name: Seq<char>,
}

impl View for ProfileData {
    type V = PickView;

    open spec fn view(&self) -> PickView {
        PickView { version: self.version@, name: self.name@ }
    }
}

/// The keys that the profile search looks for.
#[derive(Clone, Copy, Debug, Eq, PartialEq, Structural)]
pub enum SearchKey {
    Down,
    Up,
    Return,
    Other,
}

/// A key pressed in the profile search, with the names listed and the position
/// of the highlighted one.
#[derive(Debug)]
pub struct ProfileSearchKeyData {
    pub profiles: Vec<String>,
    pub index: i32,
    pub key: SearchKey,
    pub version: String,
}

/// What a [`ProfileSearchKeyData`] holds.
pub struct KeyView {
    pub profiles: Seq<Seq<char>>,
    pub index: i32,
    pub key: SearchKey,
    pub version: Seq<char>,
}

impl View for ProfileSearchKeyData {
    type V = KeyView;

    open spec fn view(&self) -> KeyView {
        KeyView {
            profiles: texts(self.profiles@),
            index: self.index,
            key: self.key,
            version: self.version@,
        }
    }
}

/// Whether release candidates are to be listed, and the selected version.
#[derive(Debug)]
pub struct ShowRcsData {
    pub show_rcs: bool,
    pub version: String,
}

} // verus!
