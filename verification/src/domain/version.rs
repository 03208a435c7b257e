//! Release versions and release series.

use core::cmp::Ordering;
use vstd::prelude::*;
use vstd::std_specs::cmp::PartialOrdSpec;
use vstd::std_specs::convert::{FromSpec, FromSpecImpl};

use crate::text::number::{all_digits, decimal, decimal2, digit, law_parsed_only, lemma_decimal_digits,
    lemma_parsed_decimal, parse_u8, parsed, parsed_or_zero, to_decimal, to_decimal2};
use crate::text::order::outcome;
use crate::text::scan::{occurs_at, texts};
use crate::text::split::{around_first, first_at, lemma_first_at, lemma_first_at_is,
    lemma_pieces_head, lemma_pieces_single, pieces, split, split_once};

verus! {

/// A release series, such as 23.05.
#[derive(Clone, Copy, Debug, Eq, PartialEq, Structural)]
pub struct ReleaseSeries {
    pub major: u8,
    pub minor: u8,
}

/// A release: a series, a patch level, and a number if it is a release candidate.
#[derive(Clone, Copy, Debug, Eq, PartialEq, Structural)]
pub struct Version {
    pub major: u8,
    pub minor: u8,
    pub patch: u8,
    pub rc: Option<u8>,
}

/// The number in the piece at position `i`, or zero where there is none.
pub open spec fn number_at(p: Seq<Seq<char>>, i: int) -> u8 {
    if 0 <= i < p.len() {
        parsed_or_zero(p[i], u8::MAX as nat) as u8
    } else {
        0
    }
}

/// The series that `s` names: the first two of its pieces between dots. A
/// piece that is missing or no number below 256 counts as zero.
pub open spec fn series_of(s: Seq<char>) -> ReleaseSeries {
    let p = pieces(s, '.');
    ReleaseSeries { major: number_at(p, 0), minor: number_at(p, 1) }
}

/// The patch level and candidate number in the third piece of a version.
pub open spec fn patch_of(s: Seq<char>) -> (u8, Option<u8>) {
    match around_first(s, "-rc"@) {
        Some((p, r)) => (
            parsed_or_zero(p, u8::MAX as nat) as u8,
            match parsed(r, u8::MAX as nat) {
                Some(n) => Some(n as u8),
                None => None,
            },
        ),
        None => (parsed_or_zero(s, u8::MAX as nat) as u8, None),
    }
}

/// The version that `s` names.
pub open spec fn version_of(s: Seq<char>) -> Version {
    let p = pieces(s, '.');
    let (patch, rc) = patch_of(if p.len() > 2 { p[2] } else { seq![] });
    Version { major: number_at(p, 0), minor: number_at(p, 1), patch, rc }
}

/// The text of a release series: the minor number takes two digits at least.
pub open spec fn series_text(r: ReleaseSeries) -> Seq<char> {
    decimal(r.major as nat) + seq!['.'] + decimal2(r.minor as nat)
}

/// The text of the third piece of a version.
pub open spec fn patch_text(patch: u8, rc: Option<u8>) -> Seq<char> {
    match rc {
        Some(n) => decimal(patch as nat) + "-rc"@ + decimal(n as nat),
        None => decimal(patch as nat),
    }
}

/// The text of a version.
pub open spec fn version_text(v: Version) -> Seq<char> {
    decimal(v.major as nat) + seq!['.'] + (decimal2(v.minor as nat) + seq!['.'] + patch_text(
        v.patch,
        v.rc,
    ))
}

/// The place of a candidate number: a release comes after its candidates.
pub open spec fn rc_rank(rc: Option<u8>) -> int {
    match rc {
        Some(n) => n as int,
        None => 256,
    }
}

/// Version `a` is older than version `b`.
pub open spec fn version_lt(a: Version, b: Version) -> bool {
    a.major < b.major || (a.major == b.major && (a.minor < b.minor || (a.minor == b.minor && (
    a.patch < b.patch || (a.patch == b.patch && rc_rank(a.rc) < rc_rank(b.rc))))))
}

/// The number in the piece at position `i`, or zero where there is none.
fn piece_number(parts: &Vec<String>, i: usize) -> (r: u8)
    ensures
        r == number_at(texts(parts@), i as int),
{
    if i < parts.len() {
        match parse_u8(parts[i].as_str()) {
            Some(n) => n,
            None => 0,
        }
    } else {
        0
    }
}

impl ReleaseSeries {
    /// The series in the form `23.05`.
    pub fn to_string(&self) -> (r: String)
        ensures
            r@ == series_text(*self),
    {
        let mut r: String = to_decimal(self.major as u32);
        r.push('.');
        r.append(to_decimal2(self.minor).as_str());
        assert(r@ =~= series_text(*self));
        r
    }
}

impl From<&str> for ReleaseSeries {
    fn from(s: &str) -> (r: ReleaseSeries) {
        let parts: Vec<String> = split(s, '.');
        ReleaseSeries { major: piece_number(&parts, 0), minor: piece_number(&parts, 1) }
    }
}

impl FromSpecImpl<&str> for ReleaseSeries {
    open spec fn obeys_from_spec() -> bool {
        true
    }

    open spec fn from_spec(v: &str) -> ReleaseSeries {
        series_of(v@)
    }
}

impl From<String> for ReleaseSeries {
    fn from(s: String) -> (r: ReleaseSeries) {
        ReleaseSeries::from(s.as_str())
    }
}

impl FromSpecImpl<String> for ReleaseSeries {
    open spec fn obeys_from_spec() -> bool {
        true
    }

    open spec fn from_spec(v: String) -> ReleaseSeries {
        series_of(v@)
    }
}

impl From<ReleaseSeries> for String {
    fn from(rs: ReleaseSeries) -> (r: String)
        ensures
            r@ == series_text(rs),
    {
        rs.to_string()
    }
}

impl FromSpecImpl<ReleaseSeries> for String {
    open spec fn obeys_from_spec() -> bool {
        false
    }

    open spec fn from_spec(v: ReleaseSeries) -> String {
        arbitrary()
    }
}

impl From<&Version> for ReleaseSeries {
    fn from(v: &Version) -> (r: ReleaseSeries) {
        ReleaseSeries { major: v.major, minor: v.minor }
    }
}

impl FromSpecImpl<&Version> for ReleaseSeries {
    open spec fn obeys_from_spec() -> bool {
        true
    }

    open spec fn from_spec(v: &Version) -> ReleaseSeries {
        ReleaseSeries { major: v.major, minor: v.minor }
    }
}

impl From<Version> for ReleaseSeries {
    fn from(v: Version) -> (r: ReleaseSeries) {
        ReleaseSeries::from(&v)
    }
}

impl FromSpecImpl<Version> for ReleaseSeries {
    open spec fn obeys_from_spec() -> bool {
        true
    }

    open spec fn from_spec(v: Version) -> ReleaseSeries {
        ReleaseSeries { major: v.major, minor: v.minor }
    }
}

impl Version {
    /// The series that the version belongs to.
    pub fn to_release_series(&self) -> (r: ReleaseSeries)
        ensures
            r == (ReleaseSeries { major: self.major, minor: self.minor }),
    {
        ReleaseSeries::from(self)
    }

    /// Whether the version belongs to the series `other`.
    pub fn same_release_series(&self, other: &ReleaseSeries) -> (r: bool)
        ensures
            r == (self.major == other.major && self.minor == other.minor),
    {
        self.to_release_series() == *other
    }

    /// The version in the form `23.05.0-rc1`, or `23.05.2` for a release.
    pub fn to_string(&self) -> (r: String)
        ensures
            r@ == version_text(*self),
    {
        let mut r: String = to_decimal(self.major as u32);
        r.push('.');
        r.append(to_decimal2(self.minor).as_str());
        r.push('.');
        r.append(to_decimal(self.patch as u32).as_str());
        if let Some(rc) = self.rc {
            r.append("-rc");
            r.append(to_decimal(rc as u32).as_str());
        }
        assert(r@ =~= version_text(*self));
        r
    }

    /// Whether the version is older than `other`.
    pub fn is_older(&self, other: &Version) -> (r: bool)
        ensures
            r == version_lt(*self, *other),
    {
        if self.major != other.major {
            return self.major < other.major;
        }
        if self.minor != other.minor {
            return self.minor < other.minor;
        }
        if self.patch != other.patch {
            return self.patch < other.patch;
        }
        match (self.rc, other.rc) {
            (None, _) => false,
            (Some(_), None) => true,
            (Some(a), Some(b)) => a < b,
        }
    }
}

impl From<&str> for Version {
    fn from(s: &str) -> (r: Version) {
        let parts: Vec<String> = split(s, '.');
        let major: u8 = piece_number(&parts, 0);
        let minor: u8 = piece_number(&parts, 1);
        let last: &str = if parts.len() > 2 { parts[2].as_str() } else { "" };
        proof {
            reveal_strlit("");
            assert(parts@.len() <= 2 ==> last@ == Seq::<char>::empty());
        }
        let (patch, rc): (u8, Option<u8>) = match split_once(last, "-rc") {
            Some((p, r)) => (
                match parse_u8(p.as_str()) {
                    Some(n) => n,
                    None => 0,
                },
                parse_u8(r.as_str()),
            ),
            None => (
                match parse_u8(last) {
                    Some(n) => n,
                    None => 0,
                },
                None,
            ),
        };
        Version { major, minor, patch, rc }
    }
}

impl FromSpecImpl<&str> for Version {
    open spec fn obeys_from_spec() -> bool {
        true
    }

    open spec fn from_spec(v: &str) -> Version {
        version_of(v@)
    }
}

impl From<String> for Version {
    fn from(s: String) -> (r: Version) {
        Version::from(s.as_str())
    }
}

impl FromSpecImpl<String> for Version {
    open spec fn obeys_from_spec() -> bool {
        true
    }

    open spec fn from_spec(v: String) -> Version {
        version_of(v@)
    }
}

impl PartialOrd for Version {
    fn partial_cmp(&self, other: &Self) -> (r: Option<Ordering>) {
        if self.is_older(other) {
            Some(Ordering::Less)
        } else if other.is_older(self) {
            Some(Ordering::Greater)
        } else {
            Some(Ordering::Equal)
        }
    }
}

impl vstd::std_specs::cmp::PartialOrdSpecImpl for Version {
    open spec fn obeys_partial_cmp_spec() -> bool {
        true
    }

    open spec fn partial_cmp_spec(&self, other: &Self) -> Option<Ordering> {
        Some(outcome(version_lt(*self, *other), version_lt(*other, *self)))
    }
}

/// Digits hold neither a dot nor a dash.
proof fn lemma_digits_free(s: Seq<char>)
    requires
        all_digits(s),
    ensures
        !s.contains('.'),
        !s.contains('-'),
{
    assert forall|i: int| 0 <= i < s.len() implies s[i] != '.' && s[i] != '-' by {
        assert(digit(s[i]));
    }
}

/// Reading the third piece of a version undoes writing it.
proof fn lemma_patch_round_trip(patch: u8, rc: Option<u8>)
    ensures
        patch_of(patch_text(patch, rc)) == (patch, rc),
        !patch_text(patch, rc).contains('.'),
{
    reveal_strlit("-rc");
    let p = decimal(patch as nat);
    let t = patch_text(patch, rc);
    lemma_parsed_decimal(patch as nat, u8::MAX as nat);
    lemma_decimal_digits(patch as nat);
    lemma_digits_free(p);
    match rc {
        Some(n) => {
            let r = decimal(n as nat);
            lemma_parsed_decimal(n as nat, u8::MAX as nat);
            lemma_decimal_digits(n as nat);
            lemma_digits_free(r);
            assert(t.subrange(p.len() as int, p.len() + 3int) == "-rc"@);
            assert forall|k: int| 0 <= k < p.len() implies !occurs_at(t, "-rc"@, k) by {
                if occurs_at(t, "-rc"@, k) {
                    assert(t.subrange(k, k + 3)[0] == t[k]);
                    assert(p.contains(p[k]));
                }
            }
            lemma_first_at_is(t, "-rc"@, 0, p.len() as int);
            assert(t.take(p.len() as int) == p);
            assert(t.skip(p.len() + 3int) == r);
            assert forall|k: int| 0 <= k < t.len() implies t[k] != '.' by {
                if k < p.len() {
                    assert(p.contains(p[k]));
                } else if k >= p.len() + 3 {
                    assert(t[k] == r[k - p.len() - 3]);
                    assert(r.contains(r[k - p.len() - 3]));
                }
            }
        },
        None => {
            lemma_first_at(t, "-rc"@, 0);
            if first_at(t, "-rc"@, 0) is Some {
                let k = first_at(t, "-rc"@, 0)->0;
                assert(t.subrange(k, k + 3)[0] == t[k]);
                assert(p.contains(p[k]));
            }
        },
    }
}

/// Reading the text of a version gives the version back.
pub proof fn law_version_round_trip(v: Version)
    ensures
        version_of(version_text(v)) == v,
{
    let a = decimal(v.major as nat);
    let b = decimal2(v.minor as nat);
    let c = patch_text(v.patch, v.rc);
    lemma_patch_round_trip(v.patch, v.rc);
    lemma_parsed_decimal(v.major as nat, u8::MAX as nat);
    lemma_parsed_decimal(v.minor as nat, u8::MAX as nat);
    lemma_decimal_digits(v.major as nat);
    lemma_digits_free(a);
    lemma_digits_free(b);
    lemma_pieces_head(a, b + seq!['.'] + c, '.');
    lemma_pieces_head(b, c, '.');
    lemma_pieces_single(c, '.');
    assert(pieces(version_text(v), '.') =~= seq![a, b, c]);
}

/// Reading the text of a series gives the series back.
pub proof fn law_series_round_trip(r: ReleaseSeries)
    ensures
        series_of(series_text(r)) == r,
{
    let a = decimal(r.major as nat);
    let b = decimal2(r.minor as nat);
    lemma_parsed_decimal(r.major as nat, u8::MAX as nat);
    lemma_parsed_decimal(r.minor as nat, u8::MAX as nat);
    lemma_decimal_digits(r.major as nat);
    lemma_digits_free(a);
    lemma_digits_free(b);
    lemma_pieces_head(a, b, '.');
    lemma_pieces_single(b, '.');
    assert(pieces(series_text(r), '.') =~= seq![a, b]);
}

/// The series that a version's text names is the series of the version.
pub proof fn law_series_of_version(s: Seq<char>)
    ensures
        series_of(s).major == version_of(s).major,
        series_of(s).minor == version_of(s).minor,
{
}

/// Age is a strict total order on versions.
pub proof fn law_version_order(a: Version, b: Version, c: Version)
    ensures
        !version_lt(a, a),
        version_lt(a, b) && version_lt(b, c) ==> version_lt(a, c),
        a == b || version_lt(a, b) || version_lt(b, a),
        !(version_lt(a, b) && version_lt(b, a)),
{
}

/// A release candidate is older than its release, and an earlier candidate
/// older than a later one.
pub proof fn law_candidates_first(release: Version, m: u8, n: u8)
    requires
        release.rc is None,
        m < n,
    ensures
        version_lt(Version { rc: Some(m), ..release }, release),
        version_lt(Version { rc: Some(m), ..release }, Version { rc: Some(n), ..release }),
{
}

/// The pieces of a text between its dots give the numbers of the version, each
/// its own: the first the major number, the second the minor one, the third the
/// patch level and the candidate. What follows a third dot plays no part.
pub proof fn law_version_parts(a: Seq<char>, b: Seq<char>, c: Seq<char>, rest: Seq<char>)
    requires
        !a.contains('.'),
        !b.contains('.'),
        !c.contains('.'),
    ensures
        ({
            let v = version_of(a + seq!['.'] + (b + seq!['.'] + c));
            &&& v.major == parsed_or_zero(a, 255)
            &&& v.minor == parsed_or_zero(b, 255)
            &&& (v.patch, v.rc) == patch_of(c)
            &&& version_of(a + seq!['.'] + (b + seq!['.'] + (c + seq!['.'] + rest))) == v
        }),
        version_of(a + seq!['.'] + b) == (Version {
            major: parsed_or_zero(a, 255) as u8,
            minor: parsed_or_zero(b, 255) as u8,
            patch: 0,
            rc: None,
        }),
        version_of(a) == (Version {
            major: parsed_or_zero(a, 255) as u8,
            minor: 0,
            patch: 0,
            rc: None,
        }),
{
    lemma_pieces_single(a, '.');
    lemma_pieces_single(b, '.');
    lemma_pieces_single(c, '.');
    lemma_pieces_head(a, b, '.');
    lemma_pieces_head(b, c, '.');
    lemma_pieces_head(a, b + seq!['.'] + c, '.');
    lemma_pieces_head(c, rest, '.');
    lemma_pieces_head(b, c + seq!['.'] + rest, '.');
    lemma_pieces_head(a, b + seq!['.'] + (c + seq!['.'] + rest), '.');
    law_patch_parts(Seq::empty(), Seq::empty());
    law_parsed_only(Seq::empty(), 255);
}

/// The third piece of a version: what stands before `-rc` is the patch level,
/// what stands after it the number of the candidate. Without `-rc` it is no
/// candidate.
pub proof fn law_patch_parts(p: Seq<char>, r: Seq<char>)
    requires
        forall|k: int| 0 <= k < p.len() ==> !occurs_at(p + "-rc"@ + r, "-rc"@, k),
    ensures
        patch_of(p) == (parsed_or_zero(p, 255) as u8, None::<u8>),
        patch_of(p + "-rc"@ + r).0 == parsed_or_zero(p, 255),
        patch_of(p + "-rc"@ + r).1 is Some <==> parsed(r, 255) is Some,
        patch_of(p + "-rc"@ + r).1 matches Some(n) ==> parsed(r, 255) == Some(n as nat),
{
    reveal_strlit("-rc");
    lemma_first_at(p, "-rc"@, 0);
    let t = p + "-rc"@ + r;
    let n = p.len() as int;
    if first_at(p, "-rc"@, 0) is Some {
        let k = first_at(p, "-rc"@, 0)->0;
        assert(t.subrange(k, k + 3) =~= p.subrange(k, k + 3));
        assert(occurs_at(t, "-rc"@, k));
    }
    assert(t.subrange(n, n + 3) =~= "-rc"@);
    lemma_first_at_is(t, "-rc"@, 0, n);
    assert(t.take(n) =~= p);
    assert(t.skip(n + 3) =~= r);
}

/// The text of a version is its numbers with dots between them, the minor one
/// with two digits at least, and the candidate behind `-rc`; that of its series
/// is the same without the patch level.
pub proof fn law_version_text(v: Version)
    ensures
        v.rc is None ==> version_text(v) == series_text(
            ReleaseSeries { major: v.major, minor: v.minor },
        ) + seq!['.'] + decimal(v.patch as nat),
        v.rc matches Some(n) ==> version_text(v) == series_text(
            ReleaseSeries { major: v.major, minor: v.minor },
        ) + seq!['.'] + decimal(v.patch as nat) + "-rc"@ + decimal(n as nat),
        series_text(ReleaseSeries { major: v.major, minor: v.minor }) == decimal(v.major as nat)
            + seq!['.'] + decimal2(v.minor as nat),
{
    let s = series_text(ReleaseSeries { major: v.major, minor: v.minor }) + seq!['.'];
    match v.rc {
        None => {
            assert(version_text(v) =~= s + decimal(v.patch as nat));
        },
        Some(n) => {
            assert(version_text(v) =~= s + decimal(v.patch as nat) + "-rc"@ + decimal(n as nat));
        },
    }
}

/// The major number decides which version is older, then the minor one, then
/// the patch level; a later candidate is newer, and the release newer than all
/// of its candidates.
pub proof fn law_version_lexicographic(a: Version, b: Version)
    ensures
        a.major < b.major ==> version_lt(a, b),
        a.major == b.major && a.minor < b.minor ==> version_lt(a, b),
        a.major == b.major && a.minor == b.minor && a.patch < b.patch ==> version_lt(a, b),
        a.major == b.major && a.minor == b.minor && a.patch == b.patch ==> (version_lt(a, b)
            <==> a.rc is Some && (b.rc is None || a.rc->0 < b.rc->0)),
{
}

/// A series made of a version has its major and minor number, whichever way the
/// version is handed over; a series or a version made of a text is what the text
/// names.
pub proof fn law_version_made(v: Version, s: &str, owned: String)
    ensures
        <ReleaseSeries as FromSpec<Version>>::obeys_from_spec(),
        <ReleaseSeries as FromSpec<&Version>>::obeys_from_spec(),
        <ReleaseSeries as FromSpec<&str>>::obeys_from_spec(),
        <ReleaseSeries as FromSpec<String>>::obeys_from_spec(),
        <Version as FromSpec<&str>>::obeys_from_spec(),
        <Version as FromSpec<String>>::obeys_from_spec(),
        <ReleaseSeries as FromSpec<Version>>::from_spec(v).major == v.major,
        <ReleaseSeries as FromSpec<Version>>::from_spec(v).minor == v.minor,
        <ReleaseSeries as FromSpec<&Version>>::from_spec(&v).major == v.major,
        <ReleaseSeries as FromSpec<&Version>>::from_spec(&v).minor == v.minor,
        <ReleaseSeries as FromSpec<&str>>::from_spec(s) == series_of(s@),
        <ReleaseSeries as FromSpec<String>>::from_spec(owned) == series_of(owned@),
        <Version as FromSpec<&str>>::from_spec(s) == version_of(s@),
        <Version as FromSpec<String>>::from_spec(owned) == version_of(owned@),
{
}

/// Versions compare as they follow one another, and as equal only where they are
/// the same.
pub proof fn law_version_compared(a: Version, b: Version)
    ensures
        Version::obeys_partial_cmp_spec(),
        a.partial_cmp_spec(&b) == Some(Ordering::Less) <==> version_lt(a, b),
        a.partial_cmp_spec(&b) == Some(Ordering::Greater) <==> version_lt(b, a),
        a.partial_cmp_spec(&b) == Some(Ordering::Equal) <==> a == b,
{
    if !version_lt(a, b) && !version_lt(b, a) {
        assert(a.rc == b.rc);
    }
}

} // verus!
