//! Build targets and the image tags that name them.

use core::cmp::Ordering;
use std::path::PathBuf;
use vstd::prelude::*;
use vstd::std_specs::cmp::{PartialEqSpec, PartialOrdSpec};
use vstd::std_specs::convert::{FromSpecImpl, TryFromSpecImpl};

use super::version::{law_version_round_trip, patch_text, version_of, version_text, Version};
use crate::paths::{below, join_text, path_from, path_of};
use crate::text::number::{decimal, decimal2, digit, lemma_decimal_digits, lemma_parsed_decimal};
use crate::text::order::{before, law_text_order, outcome, text_lt};
use crate::text::scan::{chars_of, replace_char, replaced, same, string_range, texts};
use crate::text::split::{find_char, lemma_pieces_free, lemma_pieces_head, lemma_pieces_single,
    lemma_run_until_is, pieces, run_until, split};

verus! {

/// A target and its subtarget, such as ath79/generic.
#[derive(Debug)]
pub struct Target {
    pub target: String,
    pub subtarget: String,
}

/// What a [`Target`] holds.
pub struct TargetView {
    pub target: Seq<char>,
    pub subtarget: Seq<char>,
}

impl View for Target {
    type V = TargetView;

    open spec fn view(&self) -> TargetView {
        TargetView { target: self.target@, subtarget: self.subtarget@ }
    }
}

/// The piece at position `i`, or nothing where there is none.
pub open spec fn piece_at(p: Seq<Seq<char>>, i: int) -> Seq<char> {
    if 0 <= i < p.len() {
        p[i]
    } else {
        seq![]
    }
}

/// The target that `s` names: its first two pieces between slashes.
pub open spec fn target_of(s: Seq<char>) -> TargetView {
    let p = pieces(s, '/');
    TargetView { target: piece_at(p, 0), subtarget: piece_at(p, 1) }
}

/// The text of a target.
pub open spec fn target_text(t: TargetView) -> Seq<char> {
    if t.subtarget.len() == 0 {
        t.target
    } else {
        t.target + seq!['/'] + t.subtarget
    }
}

/// A target in the form that image tags and file names use.
pub open spec fn target_slug(t: TargetView) -> Seq<char> {
    t.target + seq!['-'] + t.subtarget
}

/// The relative path of a target's build output.
pub open spec fn target_path(t: TargetView) -> PathBuf {
    below(below(path_of(seq![]), t.target), t.subtarget)
}

/// Target `a` goes before target `b`.
pub open spec fn target_lt(a: TargetView, b: TargetView) -> bool {
    text_lt(a.target, b.target) || (a.target == b.target && text_lt(a.subtarget, b.subtarget))
}

/// The copy of piece `i`, or nothing where there is none.
fn piece_copy(parts: &Vec<String>, i: usize) -> (r: String)
    ensures
        r@ == piece_at(texts(parts@), i as int),
{
    if i < parts.len() {
        parts[i].clone()
    } else {
        String::new()
    }
}

impl Target {
    /// The relative path of the target's build output.
    pub fn to_path(&self) -> (r: PathBuf)
        ensures
            r == target_path(self@),
    {
        let p: PathBuf = path_from("");
        proof {
            reveal_strlit("");
            assert(""@ =~= Seq::<char>::empty());
        }
        join_text(&join_text(&p, self.target.as_str()), self.subtarget.as_str())
    }

    /// The target in the form `ath79-generic`.
    pub fn to_slug(&self) -> (r: String)
        ensures
            r@ == target_slug(self@),
    {
        let mut r: String = self.target.clone();
        r.push('-');
        r.append(self.subtarget.as_str());
        assert(r@ =~= target_slug(self@));
        r
    }

    /// The target in the form `ath79/generic`, or `ath79` without a subtarget.
    pub fn to_string(&self) -> (r: String)
        ensures
            r@ == target_text(self@),
    {
        let mut r: String = self.target.clone();
        if !self.subtarget.as_str().is_empty() {
            r.push('/');
            r.append(self.subtarget.as_str());
        }
        assert(r@ =~= target_text(self@));
        r
    }

    /// Whether the target goes before `other`: by target, then by subtarget.
    pub fn is_before(&self, other: &Target) -> (r: bool)
        ensures
            r == target_lt(self@, other@),
    {
        before(self.target.as_str(), other.target.as_str()) || (same(
            self.target.as_str(),
            other.target.as_str(),
        ) && before(self.subtarget.as_str(), other.subtarget.as_str()))
    }
}

impl Clone for Target {
    fn clone(&self) -> (r: Target)
        ensures
            r@ == self@,
    {
        Target { target: self.target.clone(), subtarget: self.subtarget.clone() }
    }
}

impl PartialEq for Target {
    fn eq(&self, other: &Self) -> (r: bool) {
        self.target == other.target && self.subtarget == other.subtarget
    }
}

impl Eq for Target {

}

impl vstd::std_specs::cmp::PartialEqSpecImpl for Target {
    open spec fn obeys_eq_spec() -> bool {
        true
    }

    open spec fn eq_spec(&self, other: &Self) -> bool {
        self@ == other@
    }
}

impl PartialOrd for Target {
    fn partial_cmp(&self, other: &Self) -> (r: Option<Ordering>) {
        if self.is_before(other) {
            Some(Ordering::Less)
        } else if other.is_before(self) {
            Some(Ordering::Greater)
        } else {
            Some(Ordering::Equal)
        }
    }
}

impl vstd::std_specs::cmp::PartialOrdSpecImpl for Target {
    open spec fn obeys_partial_cmp_spec() -> bool {
        true
    }

    open spec fn partial_cmp_spec(&self, other: &Self) -> Option<Ordering> {
        Some(outcome(target_lt(self@, other@), target_lt(other@, self@)))
    }
}

impl From<&str> for Target {
    fn from(s: &str) -> (r: Target)
        ensures
            r@ == target_of(s@),
    {
        let parts: Vec<String> = split(s, '/');
        Target { target: piece_copy(&parts, 0), subtarget: piece_copy(&parts, 1) }
    }
}

impl FromSpecImpl<&str> for Target {
    open spec fn obeys_from_spec() -> bool {
        false
    }

    open spec fn from_spec(v: &str) -> Target {
        arbitrary()
    }
}

impl From<String> for Target {
    fn from(s: String) -> (r: Target)
        ensures
            r@ == target_of(s@),
    {
        Target::from(s.as_str())
    }
}

impl FromSpecImpl<String> for Target {
    open spec fn obeys_from_spec() -> bool {
        false
    }

    open spec fn from_spec(v: String) -> Target {
        arbitrary()
    }
}

impl From<Target> for String {
    fn from(t: Target) -> (r: String)
        ensures
            r@ == target_text(t@),
    {
        t.to_string()
    }
}

impl FromSpecImpl<Target> for String {
    open spec fn obeys_from_spec() -> bool {
        false
    }

    open spec fn from_spec(v: Target) -> String {
        arbitrary()
    }
}

/// The tag of an image builder's container image.
#[derive(Debug)]
pub struct ImageTag(String);

impl View for ImageTag {
    type V = Seq<char>;

    closed spec fn view(&self) -> Seq<char> {
        self.0@
    }
}

/// The tag of the image builder for a target and a version.
pub open spec fn tag_text(t: TargetView, v: Version, base: Seq<char>) -> Seq<char> {
    base + seq![':'] + (target_slug(t) + seq!['-'] + version_text(v))
}

/// What follows the first colon of a tag.
pub open spec fn tag_body(tag: Seq<char>) -> Option<Seq<char>> {
    let n = run_until(tag, ':') as int;
    if 0 <= n < tag.len() {
        Some(tag.skip(n + 1))
    } else {
        None
    }
}

/// A version may begin after the dash at position `i`: a digit follows it, and
/// a dot somewhere after it.
pub open spec fn version_dash(s: Seq<char>, i: int) -> bool {
    &&& 0 <= i < s.len()
    &&& s[i] == '-'
    &&& i + 1 < s.len()
    &&& digit(s[i + 1])
    &&& s.skip(i + 1).contains('.')
}

/// The last dash below position `n` after which a version may begin.
pub open spec fn last_version_dash(s: Seq<char>, n: int) -> Option<int>
    decreases n,
{
    if n <= 0 {
        None
    } else if version_dash(s, n - 1) {
        Some(n - 1)
    } else {
        last_version_dash(s, n - 1)
    }
}

/// The slug and the version text of a tag's body.
pub open spec fn body_parts(body: Seq<char>) -> Option<(Seq<char>, Seq<char>)> {
    match last_version_dash(body, body.len() as int) {
        Some(i) => Some((body.take(i), body.skip(i + 1))),
        None => None,
    }
}

/// The target whose slug is `s`, as far as a slug tells.
pub open spec fn slug_target(s: Seq<char>) -> TargetView {
    target_of(replaced(s, '-', '/'))
}

/// The message for a tag without a colon.
pub const INVALID_TAG: &'static str = "invalid tag format";

/// The message for a tag that names no version.
pub const UNPARSED_TAG: &'static str = "could not parse target and version";

/// The slug and the version text that a tag names.
fn tag_parts(tag: &ImageTag) -> (r: Result<(String, String), &'static str>)
    ensures
        match tag_body(tag@) {
            None => r matches Err(e) && e@ == INVALID_TAG@,
            Some(body) => match body_parts(body) {
                None => r matches Err(e) && e@ == UNPARSED_TAG@,
                Some(p) => r matches Ok(q) && q.0@ == p.0 && q.1@ == p.1,
            },
        },
{
    let v: Vec<char> = chars_of(tag.0.as_str());
    assert(v@.skip(0) == v@);
    let colon: usize = find_char(&v, 0, ':');
    if colon == v.len() {
        return Err(INVALID_TAG);
    }
    let ghost body = v@.skip(colon + 1);
    let mut i: usize = v.len();
    let mut dot: bool = false;
    while i > colon + 1
        invariant
            colon < v.len(),
            colon + 1 <= i <= v.len(),
            body == v@.skip(colon + 1),
            tag@ == v@,
            tag_body(tag@) == Some(body),
            dot == body.skip(i - colon - 1).contains('.'),
            last_version_dash(body, body.len() as int) == last_version_dash(body, i - colon - 1),
        decreases i,
    {
        i -= 1;
        let ghost k = i - colon - 1;
        assert(body[k] == v@[i as int]);
        if v[i] == '-' && dot && i + 1 < v.len() && '0' <= v[i + 1] && v[i + 1] <= '9' {
            assert(body[k + 1] == v@[i + 1]);
            assert(version_dash(body, k));
            let slug: String = string_range(&v, colon + 1, i);
            let version: String = string_range(&v, i + 1, v.len());
            assert(slug@ == body.take(k));
            assert(version@ == body.skip(k + 1));
            return Ok((slug, version));
        }
        assert(i + 1 < v.len() ==> body[k + 1] == v@[i + 1]);
        assert(!version_dash(body, k));
        assert(body.skip(k) == seq![body[k]] + body.skip(k + 1));
        proof {
            let t = body.skip(k + 1);
            let u = body.skip(k);
            assert(u[0] == body[k]);
            if t.contains('.') {
                let j = choose|j: int| 0 <= j < t.len() && t[j] == '.';
                assert(u[j + 1] == '.');
            }
            if u.contains('.') && body[k] != '.' {
                let j = choose|j: int| 0 <= j < u.len() && u[j] == '.';
                assert(t[j - 1] == '.');
            }
        }
        dot = dot || v[i] == '.';
    }
    Err(UNPARSED_TAG)
}

impl ImageTag {
    /// The tag of the image builder for `target` and `version`.
    pub fn new(target: &Target, version: &Version, image_base: &str) -> (r: ImageTag)
        ensures
            r@ == tag_text(target@, *version, image_base@),
    {
        let mut s: String = image_base.to_string();
        s.push(':');
        s.append(target.to_slug().as_str());
        s.push('-');
        s.append(version.to_string().as_str());
        assert(s@ =~= tag_text(target@, *version, image_base@));
        ImageTag(s)
    }

    /// The tag as text.
    pub fn as_str(&self) -> (r: &str)
        ensures
            r@ == self@,
    {
        self.0.as_str()
    }

    /// The tag as text.
    pub fn to_string(&self) -> (r: String)
        ensures
            r@ == self@,
    {
        self.0.clone()
    }
}

impl Clone for ImageTag {
    fn clone(&self) -> (r: ImageTag)
        ensures
            r@ == self@,
    {
        ImageTag(self.0.clone())
    }
}

impl From<&str> for ImageTag {
    fn from(s: &str) -> (r: ImageTag)
        ensures
            r@ == s@,
    {
        ImageTag(s.to_string())
    }
}

impl FromSpecImpl<&str> for ImageTag {
    open spec fn obeys_from_spec() -> bool {
        false
    }

    open spec fn from_spec(v: &str) -> ImageTag {
        arbitrary()
    }
}

impl From<String> for ImageTag {
    fn from(s: String) -> (r: ImageTag)
        ensures
            r@ == s@,
    {
        ImageTag(s)
    }
}

impl FromSpecImpl<String> for ImageTag {
    open spec fn obeys_from_spec() -> bool {
        false
    }

    open spec fn from_spec(v: String) -> ImageTag {
        arbitrary()
    }
}

impl From<&ImageTag> for Option<String> {
    fn from(tag: &ImageTag) -> (r: Option<String>)
        ensures
            r matches Some(s) && s@ == tag@,
    {
        Some(tag.0.clone())
    }
}

impl FromSpecImpl<&ImageTag> for Option<String> {
    open spec fn obeys_from_spec() -> bool {
        false
    }

    open spec fn from_spec(v: &ImageTag) -> Option<String> {
        arbitrary()
    }
}

impl TryFrom<&ImageTag> for Target {
    type Error = &'static str;

    fn try_from(tag: &ImageTag) -> (r: Result<Target, &'static str>)
        ensures
            match tag_body(tag@) {
                None => r matches Err(e) && e@ == INVALID_TAG@,
                Some(body) => match body_parts(body) {
                    None => r matches Err(e) && e@ == UNPARSED_TAG@,
                    Some(p) => r matches Ok(t) && t@ == slug_target(p.0),
                },
            },
    {
        match tag_parts(tag) {
            Ok((slug, _)) => Ok(Target::from(replace_char(slug.as_str(), '-', '/').as_str())),
            Err(e) => Err(e),
        }
    }
}

impl TryFromSpecImpl<&ImageTag> for Target {
    open spec fn obeys_try_from_spec() -> bool {
        false
    }

    open spec fn try_from_spec(v: &ImageTag) -> Result<Target, &'static str> {
        arbitrary()
    }
}

impl TryFrom<&ImageTag> for Version {
    type Error = &'static str;

    fn try_from(tag: &ImageTag) -> (r: Result<Version, &'static str>)
        ensures
            match tag_body(tag@) {
                None => r matches Err(e) && e@ == INVALID_TAG@,
                Some(body) => match body_parts(body) {
                    None => r matches Err(e) && e@ == UNPARSED_TAG@,
                    Some(p) => r matches Ok(v) && v == version_of(p.1),
                },
            },
    {
        match tag_parts(tag) {
            Ok((_, version)) => Ok(Version::from(version.as_str())),
            Err(e) => Err(e),
        }
    }
}

impl TryFromSpecImpl<&ImageTag> for Version {
    open spec fn obeys_try_from_spec() -> bool {
        false
    }

    open spec fn try_from_spec(v: &ImageTag) -> Result<Version, &'static str> {
        arbitrary()
    }
}

impl core::ops::Deref for ImageTag {
    type Target = str;

    fn deref(&self) -> (r: &str)
        ensures
            r@ == self@,
    {
        self.0.as_str()
    }
}

impl AsRef<str> for ImageTag {
    fn as_ref(&self) -> (r: &str)
        ensures
            r@ == self@,
    {
        self.0.as_str()
    }
}

/// The order of targets is a strict total order.
pub proof fn law_target_order(a: TargetView, b: TargetView, c: TargetView)
    ensures
        !target_lt(a, a),
        target_lt(a, b) && target_lt(b, c) ==> target_lt(a, c),
        a == b || target_lt(a, b) || target_lt(b, a),
        !(target_lt(a, b) && target_lt(b, a)),
{
    law_text_order(a.target, b.target, c.target);
    law_text_order(a.subtarget, b.subtarget, c.subtarget);
    law_text_order(b.target, a.target, c.target);
}

/// Text without `from` is left as it is.
proof fn lemma_replaced_free(s: Seq<char>, from: char, to: char)
    requires
        !s.contains(from),
    ensures
        replaced(s, from, to) == s,
{
    assert forall|i: int| 0 <= i < s.len() implies s[i] != from by {
        assert(s.contains(s[i]));
    }
    assert(replaced(s, from, to) =~= s);
}

/// Reading a target and a subtarget around a slash.
proof fn lemma_target_of_pair(a: Seq<char>, b: Seq<char>)
    requires
        !a.contains('/'),
        !b.contains('/'),
    ensures
        target_of(a + seq!['/'] + b) == (TargetView { target: a, subtarget: b }),
{
    lemma_pieces_head(a, b, '/');
    lemma_pieces_single(b, '/');
}

/// Reading the text of a target gives the target back, as long as no slash
/// stands in its parts.
pub proof fn law_target_round_trip(t: TargetView)
    requires
        !t.target.contains('/'),
        !t.subtarget.contains('/'),
    ensures
        target_of(target_text(t)) == t,
{
    if t.subtarget.len() == 0 {
        lemma_pieces_single(t.target, '/');
        assert(t.subtarget =~= Seq::<char>::empty());
    } else {
        lemma_target_of_pair(t.target, t.subtarget);
    }
}

/// No slash stands in the parts of a target that was read, so that its text is
/// read as the same target again.
pub proof fn law_target_read(s: Seq<char>)
    ensures
        !target_of(s).target.contains('/'),
        !target_of(s).subtarget.contains('/'),
        target_of(target_text(target_of(s))) == target_of(s),
{
    lemma_pieces_free(s, '/');
    law_target_round_trip(target_of(s));
}

/// A version's text begins with a digit and holds a dot, and a dash in it is
/// followed by the letter r.
proof fn lemma_version_text_shape(v: Version)
    ensures
        version_text(v).len() > 0,
        digit(version_text(v)[0]),
        version_text(v).contains('.'),
        forall|j: int|
            0 <= j < version_text(v).len() && #[trigger] version_text(v)[j] == '-' ==> j + 1
                < version_text(v).len() && version_text(v)[j + 1] == 'r',
{
    reveal_strlit("-rc");
    let t = version_text(v);
    let a = decimal(v.major as nat);
    let b = decimal2(v.minor as nat);
    let p = decimal(v.patch as nat);
    lemma_decimal_digits(v.major as nat);
    lemma_decimal_digits(v.patch as nat);
    lemma_parsed_decimal(v.minor as nat, u8::MAX as nat);
    assert(t[0] == a[0] && digit(a[0]));
    assert(t[a.len() as int] == '.');
    let tail = a.len() + 1 + b.len() + 1;
    let c = patch_text(v.patch, v.rc);
    assert forall|j: int| 0 <= j < t.len() && #[trigger] t[j] == '-' implies j + 1 < t.len()
        && t[j + 1] == 'r' by {
        if j < a.len() {
            assert(digit(a[j]));
        } else if a.len() < j < a.len() + 1 + b.len() {
            assert(t[j] == b[j - a.len() - 1]);
            assert(digit(b[j - a.len() - 1]));
        } else if j >= tail {
            let k = j - tail;
            assert(t[j] == c[k]);
            if k < p.len() {
                assert(c[k] == p[k]);
                assert(digit(p[k]));
            } else if v.rc is Some {
                let r = decimal(v.rc->0 as nat);
                lemma_decimal_digits(v.rc->0 as nat);
                if k == p.len() {
                    assert(c[k + 1] == 'r');
                    assert(t[j + 1] == c[k + 1]);
                } else if k >= p.len() + 3 {
                    assert(c[k] == r[k - p.len() - 3]);
                    assert(digit(r[k - p.len() - 3]));
                }
            }
        }
    }
}

proof fn lemma_last_version_dash_is(s: Seq<char>, n: int, i: int)
    requires
        0 <= i < n,
        version_dash(s, i),
        forall|k: int| i < k < n ==> !version_dash(s, k),
    ensures
        last_version_dash(s, n) == Some(i),
    decreases n,
{
    if n - 1 > i {
        assert(!version_dash(s, n - 1));
        lemma_last_version_dash_is(s, n - 1, i);
    }
}

/// The last part of a tag's body after which a version may begin is the version.
proof fn lemma_body_parts(slug: Seq<char>, v: Version)
    ensures
        body_parts(slug + seq!['-'] + version_text(v)) == Some((slug, version_text(v))),
{
    let vt = version_text(v);
    let body = slug + seq!['-'] + vt;
    let n = slug.len() as int;
    lemma_version_text_shape(v);
    assert(body.skip(n + 1) == vt);
    assert(body[n + 1] == vt[0]);
    assert(version_dash(body, n));
    assert forall|k: int| n < k < body.len() implies !version_dash(body, k) by {
        if version_dash(body, k) {
            assert(body[k] == vt[k - n - 1]);
            assert(body[k + 1] == vt[k - n]);
        }
    }
    lemma_last_version_dash_is(body, body.len() as int, n);
    assert(body.take(n) == slug);
}

/// The slug of a target whose parts hold neither a dash nor a slash names it.
proof fn lemma_slug_target(t: TargetView)
    requires
        !t.target.contains('-'),
        !t.target.contains('/'),
        !t.subtarget.contains('-'),
        !t.subtarget.contains('/'),
    ensures
        slug_target(target_slug(t)) == t,
{
    lemma_replaced_free(t.target, '-', '/');
    lemma_replaced_free(t.subtarget, '-', '/');
    assert(replaced(target_slug(t), '-', '/') =~= replaced(t.target, '-', '/') + seq!['/']
        + replaced(t.subtarget, '-', '/'));
    lemma_target_of_pair(t.target, t.subtarget);
}

/// The tag made for a target and a version has the slug of that target and names
/// that version, whatever the target, as long as the image's name holds no
/// colon.
pub proof fn law_image_tag_version(t: TargetView, v: Version, base: Seq<char>)
    requires
        !base.contains(':'),
    ensures
        tag_body(tag_text(t, v, base)) matches Some(body) && body_parts(body) matches Some(p)
            && p.0 == target_slug(t) && version_of(p.1) == v,
{
    let tag = tag_text(t, v, base);
    let body = target_slug(t) + seq!['-'] + version_text(v);
    assert forall|k: int| 0 <= k < base.len() implies tag[k] != ':' by {
        assert(base.contains(base[k]));
    }
    assert(tag[base.len() as int] == ':');
    lemma_run_until_is(tag, ':', base.len() as int);
    assert(tag.skip(base.len() + 1int) == body);
    lemma_body_parts(target_slug(t), v);
    law_version_round_trip(v);
}

/// The tag made for a target and a version names that target and that version,
/// as long as the image's name holds no colon and the parts of the target hold
/// neither a dash nor a slash.
pub proof fn law_image_tag_round_trip(t: TargetView, v: Version, base: Seq<char>)
    requires
        !base.contains(':'),
        !t.target.contains('-'),
        !t.target.contains('/'),
        !t.subtarget.contains('-'),
        !t.subtarget.contains('/'),
    ensures
        tag_body(tag_text(t, v, base)) matches Some(body) && body_parts(body) matches Some(p)
            && slug_target(p.0) == t && version_of(p.1) == v,
{
    law_image_tag_version(t, v, base);
    lemma_slug_target(t);
}

/// What stands before the first slash is the target, what stands between it and
/// the next one the subtarget; the rest plays no part.
pub proof fn law_target_parts(a: Seq<char>, b: Seq<char>, rest: Seq<char>)
    requires
        !a.contains('/'),
        !b.contains('/'),
    ensures
        target_of(a) == (TargetView { target: a, subtarget: Seq::empty() }),
        target_of(a + seq!['/'] + b) == (TargetView { target: a, subtarget: b }),
        target_of(a + seq!['/'] + (b + seq!['/'] + rest)) == (TargetView {
            target: a,
            subtarget: b,
        }),
{
    lemma_pieces_single(a, '/');
    lemma_target_of_pair(a, b);
    lemma_pieces_head(b, rest, '/');
    lemma_pieces_head(a, b + seq!['/'] + rest, '/');
}

/// A target shows as target and subtarget with a slash between them, and as the
/// target alone where there is no subtarget; the slug always has its dash.
pub proof fn law_target_text(t: TargetView)
    ensures
        t.subtarget.len() > 0 ==> target_text(t) == t.target + "/"@ + t.subtarget,
        t.subtarget.len() == 0 ==> target_text(t) == t.target,
        target_slug(t) == t.target + "-"@ + t.subtarget,
{
    reveal_strlit("/");
    reveal_strlit("-");
    assert("/"@ =~= seq!['/']);
    assert("-"@ =~= seq!['-']);
}

/// A tag is the image's name, a colon, the target's slug, a dash and the
/// version.
pub proof fn law_tag_text(t: TargetView, v: Version, base: Seq<char>)
    ensures
        tag_text(t, v, base) == base + ":"@ + t.target + "-"@ + t.subtarget + "-"@ + version_text(v),
{
    reveal_strlit(":");
    reveal_strlit("-");
    assert(tag_text(t, v, base) =~= base + ":"@ + t.target + "-"@ + t.subtarget + "-"@
        + version_text(v));
}

/// A tag without a colon, or without a dash and a digit behind the colon, names
/// nothing. The first colon counts.
pub proof fn law_tag_refused(base: Seq<char>, body: Seq<char>)
    requires
        !base.contains(':'),
    ensures
        tag_body(base) is None,
        tag_body(base + seq![':'] + body) == Some(body),
        !body.contains('-') ==> body_parts(body) is None,
        !body.contains('.') ==> body_parts(body) is None,
{
    assert forall|k: int| 0 <= k < base.len() implies base[k] != ':' by {
        assert(base.contains(base[k]));
    }
    lemma_run_until_is(base, ':', base.len() as int);
    let s = base + seq![':'] + body;
    assert forall|k: int| 0 <= k < base.len() implies s[k] != ':' by {}
    lemma_run_until_is(s, ':', base.len() as int);
    assert(s.skip(base.len() + 1int) =~= body);
    if !body.contains('-') || !body.contains('.') {
        assert forall|k: int| 0 <= k < body.len() implies !version_dash(body, k) by {
            if version_dash(body, k) {
                assert(body.contains(body[k]));
                let t = body.skip(k + 1);
                let j = choose|j: int| 0 <= j < t.len() && t[j] == '.';
                assert(body[k + 1 + j] == '.');
            }
        }
        lemma_no_version_dash(body, body.len() as int);
    }
}

proof fn lemma_no_version_dash(s: Seq<char>, n: int)
    requires
        n <= s.len(),
        forall|k: int| 0 <= k < n ==> !version_dash(s, k),
    ensures
        last_version_dash(s, n) is None,
    decreases n,
{
    if n > 0 {
        assert(!version_dash(s, n - 1));
        lemma_no_version_dash(s, n - 1);
    }
}

/// Targets are ordered by the target first and by the subtarget only where the
/// targets are the same.
pub proof fn law_target_lexicographic(a: TargetView, b: TargetView)
    ensures
        text_lt(a.target, b.target) ==> target_lt(a, b),
        a.target == b.target ==> (target_lt(a, b) <==> text_lt(a.subtarget, b.subtarget)),
        text_lt(b.target, a.target) ==> !target_lt(a, b),
{
    law_text_order(a.target, b.target, a.target);
}

/// A tag's body is split at the last dash that a digit follows and behind which
/// a dot stands: what comes before it is the slug, what comes after it the
/// version.
pub proof fn law_body_parts(body: Seq<char>, i: int)
    requires
        0 <= i,
        i + 1 < body.len(),
        body[i] == '-',
        '0' <= body[i + 1] <= '9',
        body.skip(i + 1).contains('.'),
        forall|k: int|
            i < k && k + 1 < body.len() ==> !(#[trigger] body[k] == '-' && '0' <= body[k + 1] <= '9'
                && body.skip(k + 1).contains('.')),
    ensures
        body_parts(body) == Some((body.take(i), body.skip(i + 1))),
{
    assert(version_dash(body, i));
    assert forall|k: int| i < k < body.len() implies !version_dash(body, k) by {
        if version_dash(body, k) {
            assert(body[k] == '-');
        }
    }
    lemma_last_version_dash_is(body, body.len() as int, i);
}

/// A slug is read with a slash for each dash.
pub proof fn law_slug_read(s: Seq<char>)
    ensures
        slug_target(s) == target_of(replaced(s, '-', '/')),
{
}

/// The view of a target holds its two parts, each as it is.
pub proof fn law_target_view(t: Target)
    ensures
        t@.target == t.target@,
        t@.subtarget == t.subtarget@,
{
}

/// Targets are equal exactly where they hold the same, and compare as they follow
/// one another.
pub proof fn law_target_compared(a: Target, b: Target)
    ensures
        Target::obeys_eq_spec(),
        a.eq_spec(&b) <==> a@ == b@,
        Target::obeys_partial_cmp_spec(),
        a.partial_cmp_spec(&b) == Some(Ordering::Less) <==> target_lt(a@, b@),
        a.partial_cmp_spec(&b) == Some(Ordering::Greater) <==> target_lt(b@, a@),
        a.partial_cmp_spec(&b) == Some(Ordering::Equal) <==> a@ == b@,
{
    law_target_order(a@, b@, a@);
}

/// A tag without a colon is refused for its form, one whose body names nothing
/// for its content.
pub proof fn law_refusals()
    ensures
        INVALID_TAG@ == "invalid tag format"@,
        UNPARSED_TAG@ == "could not parse target and version"@,
{
}

} // verus!
