//! Presets: selections that are saved and loaded again.

use std::path::PathBuf;
use vstd::prelude::*;
use vstd::std_specs::convert::FromSpecImpl;

use super::package::{in_order, law_list_read, law_list_round_trip, list_of, list_text, readable, wordlike,
    PackageList, PackageView};
use super::profile::{normal_id, ProfileId};
use super::target::{law_target_read, law_target_round_trip, target_of, target_text, Target, TargetView};
use super::version::{law_series_round_trip, series_of, series_text, ReleaseSeries};
use crate::paths::{copy_path, path_empty, path_from, path_is_empty, path_lossy, path_of};
use crate::requests::{BuildData, BuildView};
use crate::text::number::{decimal, lemma_decimal_digits, lemma_parsed_decimal, parse_failure, parse_u32,
    parsed, too_large, NumberError};
use crate::text::scan::{nonempty, opt_text, unless_empty};

verus! {

/// A saved selection.
#[derive(Debug, Eq, PartialEq)]
pub struct Preset {
    pub release_series: ReleaseSeries,
    pub target: Target,
    pub profile_id: ProfileId,
    pub extra_image_name: String,
    pub rootfs_size: u32,
    pub packages: PackageList,
    pub disabled_services: String,
    pub overlay_path: PathBuf,
}

/// What a [`Preset`] holds.
pub struct PresetView {
    pub release_series: ReleaseSeries,
    pub target: TargetView,
    pub profile_id: Seq<char>,
    pub extra_image_name: Seq<char>,
    pub rootfs_size: u32,
    pub packages: Seq<PackageView>,
    pub disabled_services: Seq<char>,
    pub overlay_path: PathBuf,
}

impl View for Preset {
    type V = PresetView;

    open spec fn view(&self) -> PresetView {
        PresetView {
            release_series: self.release_series,
            target: self.target@,
            profile_id: self.profile_id@,
            extra_image_name: self.extra_image_name@,
            rootfs_size: self.rootfs_size,
            packages: self.packages@,
            disabled_services: self.disabled_services@,
            overlay_path: self.overlay_path,
        }
    }
}

impl Clone for Preset {
    fn clone(&self) -> (r: Preset)
        ensures
            r@ == self@,
    {
        Preset {
            release_series: self.release_series,
            target: self.target.clone(),
            profile_id: self.profile_id.clone(),
            extra_image_name: self.extra_image_name.clone(),
            rootfs_size: self.rootfs_size,
            packages: self.packages.clone(),
            disabled_services: self.disabled_services.clone(),
            overlay_path: copy_path(&self.overlay_path),
        }
    }
}

/// The bits of `x`, read without a sign.
pub open spec fn unsigned(x: i32) -> u32 {
    if x >= 0 {
        x as u32
    } else {
        (x + 0x1_0000_0000) as u32
    }
}

/// Reads the bits of `x` without a sign.
pub fn cast_unsigned(x: i32) -> (r: u32)
    ensures
        r == unsigned(x),
{
    let r: u32 = x as u32;
    assert(x >= 0 ==> x as u32 == x) by (bit_vector);
    assert(x < 0 ==> x as u32 == x + 0x1_0000_0000) by (bit_vector);
    r
}

/// The preset of a selection.
pub open spec fn preset_of(d: BuildView) -> PresetView {
    PresetView {
        release_series: series_of(d.version),
        target: target_of(d.target),
        profile_id: normal_id(d.profile_id),
        extra_image_name: d.extra_image_name,
        rootfs_size: unsigned(d.rootfs_size),
        packages: list_of(d.packages),
        disabled_services: d.disabled_services,
        overlay_path: path_of(d.overlay_path),
    }
}

impl From<BuildData> for Preset {
    fn from(data: BuildData) -> (r: Preset)
        ensures
            r@ == preset_of(data@),
            path_lossy(r.overlay_path) == data.overlay_path@,
            path_empty(r.overlay_path) == (data.overlay_path@.len() == 0),
    {
        Preset {
            release_series: ReleaseSeries::from(data.version.as_str()),
            target: Target::from(data.target.as_str()),
            profile_id: ProfileId::from(data.profile_id.as_str()),
            rootfs_size: cast_unsigned(data.rootfs_size),
            packages: PackageList::from(data.packages.as_str()),
            overlay_path: path_from(data.overlay_path.as_str()),
            extra_image_name: data.extra_image_name,
            disabled_services: data.disabled_services,
        }
    }
}

impl FromSpecImpl<BuildData> for Preset {
    open spec fn obeys_from_spec() -> bool {
        false
    }

    open spec fn from_spec(v: BuildData) -> Preset {
        arbitrary()
    }
}

/// A size that a saved file gives as a number or as text.
#[derive(Debug)]
pub enum U32OrString {
    Text(String),
    Number(u32),
}

/// The size that a saved file gives, if it gives one that can be read.
pub open spec fn size_read(value: U32OrString) -> Option<u32> {
    match value {
        U32OrString::Number(v) => Some(v),
        U32OrString::Text(s) => if s@.len() == 0 {
            Some(0)
        } else {
            match parsed(s@, u32::MAX as nat) {
                Some(n) => Some(n as u32),
                None => None,
            }
        },
    }
}

/// Reads a size. Empty text stands for none.
pub fn deserialize_u32_or_string(value: &U32OrString) -> (r: Result<u32, NumberError>)
    ensures
        match *value {
            U32OrString::Number(v) => r == Ok::<u32, NumberError>(v),
            U32OrString::Text(s) => match r {
                Ok(v) => (s@.len() == 0 && v == 0) || parsed(s@, u32::MAX as nat) == Some(v as nat),
                Err(e) => s@.len() > 0 && parsed(s@, u32::MAX as nat) is None && (e
                    == NumberError::TooLarge <==> too_large(s@, u32::MAX as nat)),
            },
        },
        match r {
            Ok(v) => size_read(*value) == Some(v),
            Err(_) => size_read(*value) is None,
        },
{
    match value {
        U32OrString::Number(v) => Ok(*v),
        U32OrString::Text(s) => {
            if s.as_str().is_empty() {
                return Ok(0);
            }
            match parse_u32(s.as_str()) {
                Some(v) => Ok(v),
                None => Err(parse_failure(s.as_str())),
            }
        },
    }
}

/// Whether there is no size.
pub fn is_zero(v: &u32) -> (r: bool)
    ensures
        r == (*v == 0),
{
    *v == 0
}

/// Whether there is no path.
pub fn is_path_empty(p: &PathBuf) -> (r: bool)
    ensures
        r == path_empty(*p),
        r ==> *p == path_of(Seq::empty()),
{
    path_is_empty(p)
}

/// A preset as a saved file holds it. What is missing stands for an empty text,
/// no size or an empty path.
#[derive(Debug)]
pub struct PresetRecord {
    pub release_series: String,
    pub target: String,
    pub profile_id: String,
    pub extra_image_name: Option<String>,
    pub rootfs_size: Option<u32>,
    pub packages: String,
    pub disabled_services: Option<String>,
    pub overlay_path: Option<PathBuf>,
}

/// What a [`PresetRecord`] holds.
pub struct PresetRecordView {
    pub release_series: Seq<char>,
    pub target: Seq<char>,
    pub profile_id: Seq<char>,
    pub extra_image_name: Option<Seq<char>>,
    pub rootfs_size: Option<u32>,
    pub packages: Seq<char>,
    pub disabled_services: Option<Seq<char>>,
    pub overlay_path: Option<PathBuf>,
}

impl View for PresetRecord {
    type V = PresetRecordView;

    open spec fn view(&self) -> PresetRecordView {
        PresetRecordView {
            release_series: self.release_series@,
            target: self.target@,
            profile_id: self.profile_id@,
            extra_image_name: opt_text(self.extra_image_name),
            rootfs_size: self.rootfs_size,
            packages: self.packages@,
            disabled_services: opt_text(self.disabled_services),
            overlay_path: self.overlay_path,
        }
    }
}

/// The record that a preset is saved as.
pub open spec fn preset_saved(p: PresetView) -> PresetRecordView {
    PresetRecordView {
        release_series: series_text(p.release_series),
        target: target_text(p.target),
        profile_id: p.profile_id,
        extra_image_name: unless_empty(p.extra_image_name),
        rootfs_size: if p.rootfs_size == 0 {
            None
        } else {
            Some(p.rootfs_size)
        },
        packages: list_text(p.packages),
        disabled_services: unless_empty(p.disabled_services),
        overlay_path: if path_empty(p.overlay_path) {
            None
        } else {
            Some(p.overlay_path)
        },
    }
}

/// The preset that a record stands for.
pub open spec fn preset_loaded(r: PresetRecordView) -> PresetView {
    PresetView {
        release_series: series_of(r.release_series),
        target: target_of(r.target),
        profile_id: r.profile_id,
        extra_image_name: super::profile::or_blank(r.extra_image_name),
        rootfs_size: match r.rootfs_size {
            Some(n) => n,
            None => 0,
        },
        packages: list_of(r.packages),
        disabled_services: super::profile::or_blank(r.disabled_services),
        overlay_path: match r.overlay_path {
            Some(p) => p,
            None => path_of(Seq::empty()),
        },
    }
}

impl Preset {
    /// The record to save. It stands for the same overlay path, whatever that
    /// is.
    pub fn to_record(&self) -> (r: PresetRecord)
        ensures
            r@ == preset_saved(self@),
            preset_loaded(r@).overlay_path == self@.overlay_path,
    {
        PresetRecord {
            release_series: self.release_series.to_string(),
            target: self.target.to_string(),
            profile_id: self.profile_id.to_string(),
            extra_image_name: nonempty(self.extra_image_name.as_str()),
            rootfs_size: if is_zero(&self.rootfs_size) {
                None
            } else {
                Some(self.rootfs_size)
            },
            packages: self.packages.to_string(),
            disabled_services: nonempty(self.disabled_services.as_str()),
            overlay_path: if is_path_empty(&self.overlay_path) {
                None
            } else {
                Some(copy_path(&self.overlay_path))
            },
        }
    }

    /// The preset that a record stands for.
    pub fn from_record(r: PresetRecord) -> (p: Preset)
        ensures
            p@ == preset_loaded(r@),
            r.overlay_path is None ==> path_empty(p.overlay_path),
    {
        let empty: String = String::new();
        assert(empty@ =~= Seq::<char>::empty());
        let p = Preset {
            release_series: ReleaseSeries::from(r.release_series.as_str()),
            target: Target::from(r.target.as_str()),
            profile_id: ProfileId::stored(r.profile_id),
            extra_image_name: match r.extra_image_name {
                Some(s) => s,
                None => String::new(),
            },
            rootfs_size: match r.rootfs_size {
                Some(n) => n,
                None => 0,
            },
            packages: PackageList::from(r.packages.as_str()),
            disabled_services: match r.disabled_services {
                Some(s) => s,
                None => String::new(),
            },
            overlay_path: match r.overlay_path {
                Some(p) => p,
                None => path_from(empty.as_str()),
            },
        };
        assert(p@.extra_image_name =~= preset_loaded(r@).extra_image_name);
        assert(p@.disabled_services =~= preset_loaded(r@).disabled_services);
        p
    }
}

/// A saved preset loads as it was, as long as the target's parts hold no slash
/// and the packages can be told apart in the text of their list. An empty
/// overlay path loads as the path of the empty text, which it was.
pub proof fn law_preset_round_trip(p: PresetView)
    requires
        !p.target.target.contains('/'),
        !p.target.subtarget.contains('/'),
        in_order(p.packages),
        forall|i: int|
            0 <= i < p.packages.len() ==> readable(#[trigger] p.packages[i]) && wordlike(
                p.packages[i],
            ),
    ensures
        ({
            let q = preset_loaded(preset_saved(p));
            &&& q.release_series == p.release_series
            &&& q.target == p.target
            &&& q.profile_id == p.profile_id
            &&& q.extra_image_name == p.extra_image_name
            &&& q.rootfs_size == p.rootfs_size
            &&& q.packages == p.packages
            &&& q.disabled_services == p.disabled_services
            &&& (p.overlay_path == path_of(Seq::empty()) || !path_empty(p.overlay_path))
                ==> q.overlay_path == p.overlay_path
        }),
{
    law_series_round_trip(p.release_series);
    law_target_round_trip(p.target);
    law_list_round_trip(p.packages);
    let q = preset_loaded(preset_saved(p));
    assert(q.extra_image_name =~= p.extra_image_name);
    assert(q.disabled_services =~= p.disabled_services);
}

/// The preset of any selection loads as it was saved, also without an overlay.
pub proof fn law_selection_saved(d: BuildView)
    ensures
        ({
            let p = preset_of(d);
            let q = preset_loaded(preset_saved(p));
            &&& q.release_series == p.release_series
            &&& q.target == p.target
            &&& q.profile_id == p.profile_id
            &&& q.extra_image_name == p.extra_image_name
            &&& q.rootfs_size == p.rootfs_size
            &&& q.packages == p.packages
            &&& q.disabled_services == p.disabled_services
            &&& (p.overlay_path == path_of(Seq::empty()) || !path_empty(p.overlay_path))
                ==> q.overlay_path == p.overlay_path
            &&& d.overlay_path.len() == 0 ==> q.overlay_path == p.overlay_path
        }),
{
    if d.overlay_path.len() == 0 {
        assert(d.overlay_path =~= Seq::empty());
    }
    law_target_read(d.target);
    law_list_read(d.packages);
    law_preset_round_trip(preset_of(d));
}

/// The preset of a selection holds what the selection holds, each in its own
/// place, and so does the preset that is loaded from what was saved.
pub proof fn law_selection_kept(d: BuildView)
    ensures
        ({
            let p = preset_of(d);
            let q = preset_loaded(preset_saved(p));
            &&& p.disabled_services == d.disabled_services
            &&& q.disabled_services == d.disabled_services
            &&& p.extra_image_name == d.extra_image_name
            &&& q.extra_image_name == d.extra_image_name
            &&& d.rootfs_size >= 0 ==> p.rootfs_size == d.rootfs_size && q.rootfs_size
                == d.rootfs_size
            &&& d.rootfs_size < 0 ==> p.rootfs_size == d.rootfs_size + 0x1_0000_0000
                && q.rootfs_size == p.rootfs_size
            &&& p.overlay_path == path_of(d.overlay_path)
            &&& p.target == target_of(d.target)
            &&& q.target == target_of(d.target)
            &&& p.release_series == series_of(d.version)
            &&& q.release_series == series_of(d.version)
            &&& p.profile_id == normal_id(d.profile_id)
            &&& q.profile_id == normal_id(d.profile_id)
            &&& p.packages == list_of(d.packages)
            &&& q.packages == list_of(d.packages)
        }),
{
    law_selection_saved(d);
}

/// A saved file holds the texts of a preset, each under its own name; what is
/// empty or zero is left out, and nothing else is.
pub proof fn law_preset_file(p: PresetView)
    ensures
        ({
            let r = preset_saved(p);
            &&& r.release_series == series_text(p.release_series)
            &&& r.target == target_text(p.target)
            &&& r.profile_id == p.profile_id
            &&& r.packages == list_text(p.packages)
            &&& r.extra_image_name is Some <==> p.extra_image_name.len() > 0
            &&& r.extra_image_name matches Some(s) ==> s == p.extra_image_name
            &&& r.disabled_services is Some <==> p.disabled_services.len() > 0
            &&& r.disabled_services matches Some(s) ==> s == p.disabled_services
            &&& r.rootfs_size is Some <==> p.rootfs_size > 0
            &&& r.rootfs_size matches Some(n) ==> n == p.rootfs_size
            &&& r.overlay_path is Some <==> !path_empty(p.overlay_path)
            &&& r.overlay_path matches Some(o) ==> o == p.overlay_path
        }),
{
}

/// A preset that is loaded holds what the file holds, each in its own place;
/// what the file leaves out is empty or zero.
pub proof fn law_file_loaded(r: PresetRecordView)
    ensures
        ({
            let p = preset_loaded(r);
            &&& p.release_series == series_of(r.release_series)
            &&& p.target == target_of(r.target)
            &&& p.profile_id == r.profile_id
            &&& p.packages == list_of(r.packages)
            &&& r.extra_image_name matches Some(s) ==> p.extra_image_name == s
            &&& r.extra_image_name is None ==> p.extra_image_name.len() == 0
            &&& r.disabled_services matches Some(s) ==> p.disabled_services == s
            &&& r.disabled_services is None ==> p.disabled_services.len() == 0
            &&& r.rootfs_size matches Some(n) ==> p.rootfs_size == n
            &&& r.rootfs_size is None ==> p.rootfs_size == 0
            &&& r.overlay_path matches Some(o) ==> p.overlay_path == o
            &&& r.overlay_path is None ==> p.overlay_path == path_of(Seq::empty())
        }),
{
}

/// A size is read as the number it is, or as the number that its digits stand
/// for; empty text is no size.
pub proof fn law_size_read(n: u32, s: String)
    ensures
        size_read(U32OrString::Number(n)) == Some(n),
        s@.len() == 0 ==> size_read(U32OrString::Text(s)) == Some(0u32),
        s@ == decimal(n as nat) ==> size_read(U32OrString::Text(s)) == Some(n),
        s@.len() > 0 && parsed(s@, 0xffff_ffff) is None ==> size_read(U32OrString::Text(s)) is None,
{
    lemma_parsed_decimal(n as nat, u32::MAX as nat);
    lemma_decimal_digits(n as nat);
}

/// The view of a selection and of a preset holds each of their parts as it is.
pub proof fn law_preset_views(d: BuildData, p: Preset, r: PresetRecord)
    ensures
        d@.version == d.version@ && d@.target == d.target@ && d@.profile_id == d.profile_id@,
        d@.extra_image_name == d.extra_image_name@ && d@.rootfs_size == d.rootfs_size,
        d@.packages == d.packages@ && d@.disabled_services == d.disabled_services@,
        d@.overlay_path == d.overlay_path@,
        p@.release_series == p.release_series && p@.target == p.target@,
        p@.profile_id == p.profile_id@ && p@.extra_image_name == p.extra_image_name@,
        p@.rootfs_size == p.rootfs_size && p@.packages == p.packages@,
        p@.disabled_services == p.disabled_services@ && p@.overlay_path == p.overlay_path,
        r@.release_series == r.release_series@ && r@.target == r.target@,
        r@.profile_id == r.profile_id@ && r@.packages == r.packages@,
        r@.rootfs_size == r.rootfs_size && r@.overlay_path == r.overlay_path,
        r.extra_image_name matches Some(s) ==> r@.extra_image_name == Some(s@),
        r.extra_image_name is None ==> r@.extra_image_name is None,
        r.disabled_services matches Some(s) ==> r@.disabled_services == Some(s@),
        r.disabled_services is None ==> r@.disabled_services is None,
{
}

} // verus!
