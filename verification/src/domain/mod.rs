//! The values that the application works with.

use vstd::prelude::*;

pub mod overview;
pub mod package;
pub mod preset;
pub mod profile;
pub mod target;
pub mod version;

pub use overview::{OpenWrtOverview, OpenWrtVersions};
pub use package::{Package, PackageList};
pub use preset::Preset;
pub use profile::{Profile, ProfileId, ProfileSliceExt, ProfileTitle};
pub use target::{ImageTag, Target};
pub use version::{ReleaseSeries, Version};
