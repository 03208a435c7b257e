//! File system paths.
//!
//! What a path is made of depends on the platform, so a path is opaque here.
//! The functions below name what the standard library's path operations
//! return; the rest of the crate speaks of paths through these names alone.

use std::path::PathBuf;
use vstd::prelude::*;

verus! {

/// `std::path::PathBuf`.
#[verifier::external_type_specification]
#[verifier::external_body]
pub struct ExPathBuf(PathBuf);

/// The path that a text denotes.
pub uninterp spec fn path_of(text: Seq<char>) -> PathBuf;

/// The path `part` adjoined to `base`.
pub uninterp spec fn path_joined(base: PathBuf, part: PathBuf) -> PathBuf;

/// The path as it is shown to a user.
pub uninterp spec fn path_shown(path: PathBuf) -> Seq<char>;

/// The path as text, with a replacement character for what is not Unicode.
pub uninterp spec fn path_lossy(path: PathBuf) -> Seq<char>;

/// The path is empty.
pub uninterp spec fn path_empty(path: PathBuf) -> bool;

/// A path below `base`, given by its text.
pub open spec fn below(base: PathBuf, text: Seq<char>) -> PathBuf {
    path_joined(base, path_of(text))
}

/// `PathBuf::from` of a string. The result depends on the text alone; shown or
/// converted back it is that text again, and it is empty where the text is.
#[verifier::external_body]
pub(crate) fn path_from(text: &str) -> (r: PathBuf)
    ensures
        r == path_of(text@),
        path_shown(r) == text@,
        path_lossy(r) == text@,
        path_empty(r) == (text@.len() == 0),
{
    PathBuf::from(text)
}

/// `Path::join`. The result depends on the two paths alone. Whether `part`
/// replaces `base`, and what separates them, is left to the platform.
#[verifier::external_body]
pub(crate) fn path_join(base: &PathBuf, part: &PathBuf) -> (r: PathBuf)
    ensures
        r == path_joined(*base, *part),
{
    base.join(part)
}

/// `Path::display`, written out. The text depends on the path alone.
#[verifier::external_body]
pub(crate) fn show_path(path: &PathBuf) -> (r: String)
    ensures
        r@ == path_shown(*path),
{
    path.display().to_string()
}

/// `Path::to_string_lossy`. The text depends on the path alone.
#[verifier::external_body]
pub(crate) fn lossy_path(path: &PathBuf) -> (r: String)
    ensures
        r@ == path_lossy(*path),
{
    path.to_string_lossy().into_owned()
}

/// `OsStr::is_empty` of the path's text. A path without text is the path that
/// the empty text denotes.
#[verifier::external_body]
pub(crate) fn path_is_empty(path: &PathBuf) -> (r: bool)
    ensures
        r == path_empty(*path),
        r ==> *path == path_of(Seq::empty()),
{
    path.as_os_str().is_empty()
}

/// `PathBuf::clone` gives the same path.
#[verifier::external_body]
pub(crate) fn copy_path(path: &PathBuf) -> (r: PathBuf)
    ensures
        r == *path,
{
    path.clone()
}

/// The path below `base` that `text` denotes.
pub fn join_text(base: &PathBuf, text: &str) -> (r: PathBuf)
    ensures
        r == below(*base, text@),
{
    path_join(base, &path_from(text))
}

} // verus!
