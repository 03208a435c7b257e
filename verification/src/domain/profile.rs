//! Device profiles and the search for them.

use core::cmp::Ordering;
use vstd::prelude::*;
use vstd::std_specs::cmp::{PartialEqSpec, PartialOrdSpec};
use vstd::std_specs::convert::FromSpecImpl;

use super::target::{Target, TargetView};
use crate::text::case::{any_contains, any_same, ascii, ascii_lowered, ascii_raised, has_capital,
    lemma_capital_part, lemma_case_trimmed, lowercase};
use crate::text::order::{compare, law_text_order, outcome, text_lt};
use crate::text::scan::{blank_text, has_part, law_trimmed, law_trimmed_is, lemma_part_of_part,
    lemma_trimmed_around, occurs_at,
    opt_text, replace_char, replaced, texts, trim, trimmed, white};
use crate::text::split::{join, joined_by};

verus! {

/// The identifier of a device profile.
#[derive(Debug)]
pub struct ProfileId(String);

impl View for ProfileId {
    type V = Seq<char>;

    closed spec fn view(&self) -> Seq<char> {
        self.0@
    }
}

/// An identifier in its usual form: commas become underscores.
pub open spec fn normal_id(s: Seq<char>) -> Seq<char> {
    replaced(s, ',', '_')
}

impl ProfileId {
    /// The identifier with exactly this text, as a stored record holds it.
    pub fn stored(s: String) -> (r: ProfileId)
        ensures
            r@ == s@,
    {
        ProfileId(s)
    }

    /// The identifier as text.
    pub fn as_str(&self) -> (r: &str)
        ensures
            r@ == self@,
    {
        self.0.as_str()
    }

    /// The identifier as text.
    pub fn to_string(&self) -> (r: String)
        ensures
            r@ == self@,
    {
        self.0.clone()
    }
}

impl Clone for ProfileId {
    fn clone(&self) -> (r: ProfileId)
        ensures
            r@ == self@,
    {
        ProfileId(self.0.clone())
    }
}

impl PartialEq for ProfileId {
    fn eq(&self, other: &Self) -> (r: bool) {
        self.0 == other.0
    }
}

impl Eq for ProfileId {

}

impl vstd::std_specs::cmp::PartialEqSpecImpl for ProfileId {
    open spec fn obeys_eq_spec() -> bool {
        true
    }

    open spec fn eq_spec(&self, other: &Self) -> bool {
        self@ == other@
    }
}

impl PartialOrd for ProfileId {
    fn partial_cmp(&self, other: &Self) -> (r: Option<Ordering>) {
        Some(compare(self.0.as_str(), other.0.as_str()))
    }
}

impl vstd::std_specs::cmp::PartialOrdSpecImpl for ProfileId {
    open spec fn obeys_partial_cmp_spec() -> bool {
        true
    }

    open spec fn partial_cmp_spec(&self, other: &Self) -> Option<Ordering> {
        Some(outcome(text_lt(self@, other@), text_lt(other@, self@)))
    }
}

impl core::ops::Deref for ProfileId {
    type Target = str;

    fn deref(&self) -> (r: &str)
        ensures
            r@ == self@,
    {
        self.0.as_str()
    }
}

impl AsRef<str> for ProfileId {
    fn as_ref(&self) -> (r: &str)
        ensures
            r@ == self@,
    {
        self.0.as_str()
    }
}

impl From<&str> for ProfileId {
    fn from(s: &str) -> (r: ProfileId)
        ensures
            r@ == normal_id(s@),
    {
        ProfileId(replace_char(s, ',', '_'))
    }
}

impl FromSpecImpl<&str> for ProfileId {
    open spec fn obeys_from_spec() -> bool {
        false
    }

    open spec fn from_spec(v: &str) -> ProfileId {
        arbitrary()
    }
}

impl From<String> for ProfileId {
    fn from(s: String) -> (r: ProfileId)
        ensures
            r@ == normal_id(s@),
    {
        ProfileId(replace_char(s.as_str(), ',', '_'))
    }
}

impl FromSpecImpl<String> for ProfileId {
    open spec fn obeys_from_spec() -> bool {
        false
    }

    open spec fn from_spec(v: String) -> ProfileId {
        arbitrary()
    }
}

/// The names of one device of a profile.
#[derive(Debug, Eq, PartialEq)]
pub struct ProfileTitle {
    pub model: Option<String>,
    pub vendor: Option<String>,
    pub variant: Option<String>,
    pub title: Option<String>,
}

/// What a [`ProfileTitle`] holds.
pub struct TitleView {
    pub model: Option<Seq<char>>,
    pub vendor: Option<Seq<char>>,
    pub variant: Option<Seq<char>>,
    pub title: Option<Seq<char>>,
}

impl View for ProfileTitle {
    type V = TitleView;

    open spec fn view(&self) -> TitleView {
        TitleView {
            model: opt_text(self.model),
            vendor: opt_text(self.vendor),
            variant: opt_text(self.variant),
            title: opt_text(self.title),
        }
    }
}

/// The text, or nothing where there is none.
pub open spec fn or_blank(o: Option<Seq<char>>) -> Seq<char> {
    match o {
        Some(s) => s,
        None => seq![],
    }
}

/// Vendor and model, and the variant where there is one.
pub open spec fn model_text(t: TitleView) -> Seq<char> {
    let s = trimmed(trimmed(or_blank(t.vendor)) + seq![' '] + trimmed(or_blank(t.model)));
    if or_blank(t.variant).len() > 0 {
        s + seq![' '] + or_blank(t.variant)
    } else {
        s
    }
}

/// The text of a title: the full title where there is one.
pub open spec fn title_text(t: TitleView) -> Seq<char> {
    match t.title {
        Some(full) => full,
        None => model_text(t),
    }
}

/// The text, trimmed, or nothing where there is none.
fn trimmed_or_blank(o: &Option<String>) -> (r: String)
    ensures
        r@ == trimmed(or_blank(opt_text(*o))),
{
    match o {
        Some(s) => trim(s.as_str()),
        None => String::new(),
    }
}

/// A copy of an optional string.
pub fn copy_opt(o: &Option<String>) -> (r: Option<String>)
    ensures
        opt_text(r) == opt_text(*o),
{
    match o {
        Some(s) => Some(s.clone()),
        None => None,
    }
}

/// Vendor and model, and the variant where there is one.
pub fn format_names(
    vendor: &Option<String>,
    model: &Option<String>,
    variant: &Option<String>,
) -> (r: String)
    ensures
        r@ == model_text(
            TitleView {
                model: opt_text(*model),
                vendor: opt_text(*vendor),
                variant: opt_text(*variant),
                title: None,
            },
        ),
{
    let mut both: String = trimmed_or_blank(vendor);
    both.push(' ');
    both.append(trimmed_or_blank(model).as_str());
    assert(both@ =~= trimmed(or_blank(opt_text(*vendor))) + seq![' '] + trimmed(
        or_blank(opt_text(*model)),
    ));
    let mut s: String = trim(both.as_str());
    if let Some(v) = variant {
        if !v.as_str().is_empty() {
            let ghost s0 = s@;
            s.push(' ');
            s.append(v.as_str());
            assert(s@ =~= s0 + seq![' '] + v@);
        }
    }
    s
}

impl ProfileTitle {
    /// The title as shown to a user.
    pub fn to_string(&self) -> (r: String)
        ensures
            r@ == title_text(self@),
    {
        match &self.title {
            Some(full) => full.clone(),
            None => format_names(&self.vendor, &self.model, &self.variant),
        }
    }
}

impl Clone for ProfileTitle {
    fn clone(&self) -> (r: ProfileTitle)
        ensures
            r@ == self@,
    {
        ProfileTitle {
            model: copy_opt(&self.model),
            vendor: copy_opt(&self.vendor),
            variant: copy_opt(&self.variant),
            title: copy_opt(&self.title),
        }
    }
}

/// A device profile.
#[derive(Debug, Eq, PartialEq)]
pub struct Profile {
    pub id: ProfileId,
    pub titles: Vec<ProfileTitle>,
    pub target: Target,
}

/// What a [`Profile`] holds.
pub struct ProfileView {
    pub id: Seq<char>,
    pub titles: Seq<TitleView>,
    pub target: TargetView,
}

/// What a sequence of titles holds.
pub open spec fn titles(v: Seq<ProfileTitle>) -> Seq<TitleView> {
    v.map_values(|t: ProfileTitle| t@)
}

impl View for Profile {
    type V = ProfileView;

    open spec fn view(&self) -> ProfileView {
        ProfileView { id: self.id@, titles: titles(self.titles@), target: self.target@ }
    }
}

/// What a sequence of profiles holds.
pub open spec fn profiles(v: Seq<Profile>) -> Seq<ProfileView> {
    v.map_values(|p: Profile| p@)
}

/// The texts of a profile's titles.
pub open spec fn title_texts(p: ProfileView) -> Seq<Seq<char>> {
    p.titles.map_values(|t: TitleView| title_text(t))
}

/// A display name: a title, and the identifier in brackets.
pub open spec fn display_name(title: Seq<char>, id: Seq<char>) -> Seq<char> {
    title + " ("@ + id + ")"@
}

/// The display names of a profile, one for each title.
pub open spec fn display_names(p: ProfileView) -> Seq<Seq<char>> {
    title_texts(p).map_values(|t: Seq<char>| display_name(t, p.id))
}

/// The titles of a profile that are not empty, with slashes between them.
pub open spec fn all_models(p: ProfileView) -> Seq<char> {
    joined_by(title_texts(p).filter(|s: Seq<char>| s.len() > 0), " / "@)
}

/// The query stands in the identifier or in a title, both in lower case.
pub open spec fn profile_matches(p: ProfileView, query: Seq<char>) -> bool {
    has_part(lowercase(p.id), query) || exists|i: int|
        0 <= i < title_texts(p).len() && has_part(lowercase(#[trigger] title_texts(p)[i]), query)
}

/// The display names of the profiles that match.
pub open spec fn matching_names(s: Seq<ProfileView>, query: Seq<char>) -> Seq<Seq<char>>
    decreases s.len(),
{
    if s.len() == 0 {
        seq![]
    } else {
        matching_names(s.drop_last(), query) + if profile_matches(s.last(), query) {
            display_names(s.last())
        } else {
            seq![]
        }
    }
}

/// One of the profile's display names is `name`, in lower case.
pub open spec fn is_named(p: ProfileView, name: Seq<char>) -> bool {
    exists|i: int|
        0 <= i < display_names(p).len() && lowercase(#[trigger] display_names(p)[i]) == name
}

/// The first profile at or after `from` with a display name that is `name`, in
/// lower case.
pub open spec fn first_named(s: Seq<ProfileView>, name: Seq<char>, from: int) -> Option<ProfileView>
    decreases s.len() - from,
{
    if from < 0 || from >= s.len() {
        None
    } else if is_named(s[from], name) {
        Some(s[from])
    } else {
        first_named(s, name, from + 1)
    }
}

/// A copy of a list of titles.
pub fn copy_titles(v: &Vec<ProfileTitle>) -> (r: Vec<ProfileTitle>)
    ensures
        titles(r@) == titles(v@),
{
    let mut r: Vec<ProfileTitle> = Vec::new();
    let mut i: usize = 0;
    while i < v.len()
        invariant
            i <= v.len(),
            titles(r@) == titles(v@).take(i as int),
        decreases v.len() - i,
    {
        let ghost r0 = titles(r@);
        r.push(v[i].clone());
        i += 1;
        assert(titles(r@) =~= r0.push(titles(v@)[i - 1]));
        assert(titles(r@) =~= titles(v@).take(i as int));
    }
    assert(titles(r@) =~= titles(v@));
    r
}

impl Clone for Profile {
    fn clone(&self) -> (r: Profile)
        ensures
            r@ == self@,
    {
        Profile {
            id: self.id.clone(),
            titles: copy_titles(&self.titles),
            target: self.target.clone(),
        }
    }
}

impl Profile {
    /// The texts of the titles.
    fn title_strings(&self) -> (r: Vec<String>)
        ensures
            texts(r@) == title_texts(self@),
    {
        let mut r: Vec<String> = Vec::new();
        let mut i: usize = 0;
        while i < self.titles.len()
            invariant
                i <= self.titles.len(),
                texts(r@) == title_texts(self@).take(i as int),
            decreases self.titles.len() - i,
        {
            let ghost r0 = texts(r@);
            r.push(self.titles[i].to_string());
            i += 1;
            assert(texts(r@) =~= r0.push(title_texts(self@)[i - 1]));
            assert(texts(r@) =~= title_texts(self@).take(i as int));
        }
        assert(texts(r@) =~= title_texts(self@));
        r
    }

    /// The display names, one for each title.
    pub fn format(&self) -> (r: Vec<String>)
        ensures
            texts(r@) == display_names(self@),
    {
        let names: Vec<String> = self.title_strings();
        format_with_id(&names, self.id.as_str())
    }

    /// The titles that are not empty, with slashes between them.
    pub fn format_all_models(&self) -> (r: String)
        ensures
            r@ == all_models(self@),
    {
        join_nonempty(&self.title_strings())
    }

    /// Whether `query` stands in the identifier or a title. The query is to be
    /// in lower case; one with a capital letter stands nowhere.
    pub fn matches(&self, query: &str) -> (r: bool)
        ensures
            r == profile_matches(self@, query@),
            has_capital(query@) ==> !r,
    {
        let names: Vec<String> = self.title_strings();
        let mut lowered: Vec<String> = Vec::new();
        lowered.push(self.id.as_str().to_lowercase());
        let mut i: usize = 0;
        while i < names.len()
            invariant
                i <= names.len(),
                texts(names@) == title_texts(self@),
                lowered@.len() == i + 1,
                texts(lowered@)[0] == lowercase(self@.id),
                forall|k: int| 0 <= k <= i ==> !has_capital(#[trigger] texts(lowered@)[k]),
                forall|k: int|
                    0 <= k < i ==> texts(lowered@)[k + 1] == lowercase(
                        #[trigger] title_texts(self@)[k],
                    ),
            decreases names.len() - i,
        {
            let ghost l0 = texts(lowered@);
            assert(names@[i as int]@ == texts(names@)[i as int]);
            let low: String = names[i].as_str().to_lowercase();
            lowered.push(low);
            assert(texts(lowered@) =~= l0.push(low@));
            i += 1;
        }
        let r: bool = any_contains(&lowered, query);
        proof {
            let q = query@;
            assert(title_texts(self@).len() == names@.len());
            if r {
                let k = choose|k: int|
                    0 <= k < lowered@.len() && has_part(#[trigger] texts(lowered@)[k], q);
                if k > 0 {
                    assert(has_part(lowercase(title_texts(self@)[k - 1]), q));
                }
                if has_capital(q) {
                    lemma_capital_part(texts(lowered@)[k], q);
                }
            }
            if profile_matches(self@, q) {
                if has_part(lowercase(self@.id), q) {
                    assert(has_part(texts(lowered@)[0], q));
                } else {
                    let k = choose|k: int|
                        0 <= k < title_texts(self@).len() && has_part(
                            lowercase(#[trigger] title_texts(self@)[k]),
                            q,
                        );
                    assert(has_part(texts(lowered@)[k + 1], q));
                }
            }
        }
        r
    }

    /// Whether one of the display names is `name`. The name is to be in lower
    /// case.
    pub fn has_display_name(&self, name: &str) -> (r: bool)
        ensures
            r == is_named(self@, name@),
    {
        let names: Vec<String> = self.format();
        let mut lowered: Vec<String> = Vec::new();
        let mut i: usize = 0;
        while i < names.len()
            invariant
                i <= names.len(),
                texts(names@) == display_names(self@),
                lowered@.len() == i,
                forall|k: int|
                    0 <= k < i ==> texts(lowered@)[k] == lowercase(
                        #[trigger] display_names(self@)[k],
                    ),
            decreases names.len() - i,
        {
            let ghost l0 = texts(lowered@);
            assert(names@[i as int]@ == texts(names@)[i as int]);
            let low: String = names[i].as_str().to_lowercase();
            lowered.push(low);
            assert(texts(lowered@) =~= l0.push(low@));
            i += 1;
        }
        let r: bool = any_same(&lowered, name);
        proof {
            assert(display_names(self@).len() == names@.len());
            if r {
                let k = choose|k: int| 0 <= k < texts(lowered@).len() && texts(lowered@)[k] == name@;
                assert(lowercase(display_names(self@)[k]) == name@);
            }
            if is_named(self@, name@) {
                let k = choose|k: int|
                    0 <= k < display_names(self@).len() && lowercase(
                        #[trigger] display_names(self@)[k],
                    ) == name@;
                assert(texts(lowered@)[k] == name@);
            }
        }
        r
    }
}

/// Each of `names` with `id` in brackets after it.
pub fn format_with_id(names: &Vec<String>, id: &str) -> (r: Vec<String>)
    ensures
        texts(r@) == texts(names@).map_values(|t: Seq<char>| display_name(t, id@)),
{
    let ghost want = texts(names@).map_values(|t: Seq<char>| display_name(t, id@));
    let mut r: Vec<String> = Vec::new();
    let mut i: usize = 0;
    while i < names.len()
        invariant
            i <= names.len(),
            want == texts(names@).map_values(|t: Seq<char>| display_name(t, id@)),
            texts(r@) == want.take(i as int),
        decreases names.len() - i,
    {
        let ghost r0 = texts(r@);
        let mut s: String = names[i].clone();
        s.append(" (");
        s.append(id);
        s.append(")");
        r.push(s);
        i += 1;
        assert(want[i - 1] == display_name(names@[i - 1]@, id@));
        assert(texts(r@) =~= r0.push(want[i - 1]));
        assert(texts(r@) =~= want.take(i as int));
    }
    assert(texts(r@) =~= want);
    r
}

/// Those of `names` that are not empty, with slashes between them.
pub fn join_nonempty(names: &Vec<String>) -> (r: String)
    ensures
        r@ == joined_by(texts(names@).filter(|s: Seq<char>| s.len() > 0), " / "@),
{
    let ghost keep = |s: Seq<char>| s.len() > 0;
    let mut v: Vec<String> = Vec::new();
    let mut i: usize = 0;
    assert(texts(names@).take(0).filter(keep) =~= Seq::<Seq<char>>::empty()) by {
        reveal(Seq::filter);
    }
    while i < names.len()
        invariant
            i <= names.len(),
            keep == (|s: Seq<char>| s.len() > 0),
            texts(v@) == texts(names@).take(i as int).filter(keep),
        decreases names.len() - i,
    {
        let ghost s = texts(names@).take(i as int);
        let ghost x = texts(names@)[i as int];
        let ghost v0 = texts(v@);
        assert(x == names@[i as int]@);
        if !names[i].as_str().is_empty() {
            v.push(names[i].clone());
            assert(texts(v@) =~= v0.push(x));
        }
        i += 1;
        assert(texts(names@).take(i as int) == s.push(x));
        assert(s.push(x).drop_last() == s);
        reveal(Seq::filter);
    }
    assert(texts(names@).take(names@.len() as int) == texts(names@));
    join(&v, " / ")
}

/// Search over a list of profiles.
pub trait ProfileSliceExt {
    /// The display names of the profiles that match `query`.
    fn filter(&self, query: &str) -> Vec<String>;

    /// The first profile with that display name.
    fn find_by_display_name(&self, name: &str) -> Option<Profile>;
}

impl ProfileSliceExt for [Profile] {
    fn filter(&self, query: &str) -> (r: Vec<String>)
        ensures
            texts(r@) == matching_names(profiles(self@), lowercase(trimmed(query@))),
            ascii(trimmed(query@)) ==> texts(r@) == matching_names(
                profiles(self@),
                ascii_lowered(trimmed(query@)),
            ),
    {
        let query: String = trim(query).as_str().to_lowercase();
        let ghost all = profiles(self@);
        let mut r: Vec<String> = Vec::new();
        let mut i: usize = 0;
        while i < self.len()
            invariant
                i <= self@.len(),
                all == profiles(self@),
                texts(r@) == matching_names(all.take(i as int), query@),
            decreases self@.len() - i,
        {
            let ghost r0 = texts(r@);
            let p: &Profile = &self[i];
            assert(p@ == all[i as int]);
            if p.matches(query.as_str()) {
                let mut names: Vec<String> = p.format();
                let ghost n0 = texts(names@);
                r.append(&mut names);
                assert(texts(r@) =~= r0 + n0);
            }
            i += 1;
            assert(all.take(i as int).drop_last() == all.take(i - 1));
            assert(texts(r@) =~= matching_names(all.take(i as int), query@));
        }
        assert(all.take(all.len() as int) == all);
        r
    }

    fn find_by_display_name(&self, name: &str) -> (r: Option<Profile>)
        ensures
            match r {
                Some(p) => exists|k: int|
                    0 <= k < self@.len() && p@ == (#[trigger] profiles(self@)[k]) && is_named(
                        p@,
                        lowercase(trimmed(name@)),
                    ) && forall|j: int|
                        0 <= j < k ==> !is_named(
                            #[trigger] profiles(self@)[j],
                            lowercase(trimmed(name@)),
                        ),
                None => forall|j: int|
                    0 <= j < self@.len() ==> !is_named(
                        #[trigger] profiles(self@)[j],
                        lowercase(trimmed(name@)),
                    ),
            },
            match first_named(profiles(self@), lowercase(trimmed(name@)), 0) {
                Some(p) => r matches Some(q) && q@ == p,
                None => r is None,
            },
    {
        let wanted: String = trim(name).as_str().to_lowercase();
        let mut i: usize = 0;
        while i < self.len()
            invariant
                i <= self@.len(),
                wanted@ == lowercase(trimmed(name@)),
                forall|j: int| 0 <= j < i ==> !is_named(#[trigger] profiles(self@)[j], wanted@),
                first_named(profiles(self@), wanted@, 0) == first_named(
                    profiles(self@),
                    wanted@,
                    i as int,
                ),
            decreases self@.len() - i,
        {
            let p: &Profile = &self[i];
            assert(p@ == profiles(self@)[i as int]);
            if p.has_display_name(wanted.as_str()) {
                return Some(p.clone());
            }
            i += 1;
        }
        None
    }
}

/// An identifier in its usual form holds no comma, and stays as it is.
pub proof fn law_normal_id(s: Seq<char>)
    ensures
        !normal_id(s).contains(','),
        normal_id(normal_id(s)) == normal_id(s),
{
    assert(normal_id(normal_id(s)) =~= normal_id(s));
}

/// Text without white space at its ends is left as it is.
proof fn lemma_trimmed_same(s: Seq<char>)
    requires
        s.len() > 0,
        !white(s[0]),
        !white(s.last()),
    ensures
        trimmed(s) == s,
{
}

/// A profile is found by each of its display names, as long as the name does
/// not begin with white space.
pub proof fn law_found_by_display_name(p: ProfileView, i: int)
    requires
        0 <= i < display_names(p).len(),
        !white(display_names(p)[i][0]),
    ensures
        is_named(p, lowercase(trimmed(display_names(p)[i]))),
{
    let name = display_names(p)[i];
    reveal_strlit(" (");
    reveal_strlit(")");
    assert(name.last() == ')');
    lemma_trimmed_same(name);
}

/// A filtered list holds the display names of the profiles that match, and no
/// others.
pub proof fn law_filter_exact(s: Seq<ProfileView>, query: Seq<char>, name: Seq<char>)
    ensures
        matching_names(s, query).contains(name) <==> exists|k: int|
            0 <= k < s.len() && profile_matches(#[trigger] s[k], query) && display_names(
                s[k],
            ).contains(name),
    decreases s.len(),
{
    let all = matching_names(s, query);
    if s.len() > 0 {
        let t = s.drop_last();
        law_filter_exact(t, query, name);
        let tail = if profile_matches(s.last(), query) {
            display_names(s.last())
        } else {
            seq![]
        };
        let head = matching_names(t, query);
        assert(all == head + tail);
        if all.contains(name) {
            let i = choose|i: int| 0 <= i < all.len() && all[i] == name;
            if i < head.len() {
                assert(head[i] == name);
                assert(head.contains(name));
                let k = choose|k: int|
                    0 <= k < t.len() && profile_matches(#[trigger] t[k], query) && display_names(
                        t[k],
                    ).contains(name);
                assert(s[k] == t[k]);
            } else {
                assert(tail[i - head.len()] == name);
                assert(tail.contains(name));
                assert(s[s.len() - 1] == s.last());
            }
        }
        if exists|k: int|
            0 <= k < s.len() && profile_matches(#[trigger] s[k], query) && display_names(
                s[k],
            ).contains(name) {
            let k = choose|k: int|
                0 <= k < s.len() && profile_matches(#[trigger] s[k], query) && display_names(
                    s[k],
                ).contains(name);
            if k < t.len() {
                assert(t[k] == s[k]);
                assert(head.contains(name));
                let i = choose|i: int| 0 <= i < head.len() && head[i] == name;
                assert(all[i] == name);
            } else {
                let i = choose|i: int| 0 <= i < tail.len() && tail[i] == name;
                assert(all[head.len() + i] == name);
            }
        }
    }
}

/// Each name in a filtered list leads to a profile, as long as the name does
/// not begin with white space.
pub proof fn law_filtered_names_lead(s: Seq<ProfileView>, query: Seq<char>, name: Seq<char>)
    requires
        matching_names(s, query).contains(name),
        !white(name[0]),
    ensures
        exists|k: int|
            0 <= k < s.len() && is_named(#[trigger] s[k], lowercase(trimmed(name))),
{
    law_filter_exact(s, query, name);
    let k = choose|k: int|
        0 <= k < s.len() && profile_matches(#[trigger] s[k], query) && display_names(
            s[k],
        ).contains(name);
    let i = choose|i: int| 0 <= i < display_names(s[k]).len() && display_names(s[k])[i] == name;
    law_found_by_display_name(s[k], i);
}

/// Every profile matches an empty query.
pub proof fn law_empty_query_matches(p: ProfileView)
    ensures
        profile_matches(p, Seq::<char>::empty()),
{
    let id = lowercase(p.id);
    assert(id.subrange(0, 0) =~= Seq::<char>::empty());
    assert(occurs_at(id, Seq::<char>::empty(), 0));
}

/// White space around a query plays no part in a filtered list.
pub proof fn law_query_space(s: Seq<ProfileView>, a: Seq<char>, query: Seq<char>, b: Seq<char>)
    requires
        blank_text(a),
        blank_text(b),
    ensures
        matching_names(s, lowercase(trimmed(a + query + b))) == matching_names(
            s,
            lowercase(trimmed(query)),
        ),
{
    lemma_trimmed_around(a, query, b);
}

/// The case of the letters of a query plays no part in a filtered list, where
/// the query is of ASCII characters.
pub proof fn law_query_case(s: Seq<ProfileView>, query: Seq<char>)
    requires
        ascii(query),
    ensures
        ascii(trimmed(query)),
        ascii(trimmed(ascii_raised(query))),
        matching_names(s, ascii_lowered(trimmed(ascii_raised(query)))) == matching_names(
            s,
            ascii_lowered(trimmed(query)),
        ),
{
    lemma_case_trimmed(query);
}

/// A query of white space alone, or an empty one, lists every display name of
/// every profile, in order.
pub proof fn law_empty_query_lists(s: Seq<ProfileView>, query: Seq<char>)
    requires
        blank_text(query),
    ensures
        ascii(trimmed(query)),
        matching_names(s, ascii_lowered(trimmed(query))) == all_names(s),
{
    let none = Seq::<char>::empty();
    lemma_trimmed_around(query, none, none);
    assert(query + none + none =~= query);
    assert(ascii_lowered(none) =~= none);
    lemma_all_names(s);
}

proof fn lemma_all_names(s: Seq<ProfileView>)
    ensures
        matching_names(s, Seq::empty()) == all_names(s),
    decreases s.len(),
{
    if s.len() > 0 {
        lemma_all_names(s.drop_last());
        law_empty_query_matches(s.last());
    }
}

/// The display names of all profiles.
pub open spec fn all_names(s: Seq<ProfileView>) -> Seq<Seq<char>>
    decreases s.len(),
{
    if s.len() == 0 {
        seq![]
    } else {
        all_names(s.drop_last()) + display_names(s.last())
    }
}

/// A profile that matches a query matches each part of the query.
pub proof fn law_part_of_query(p: ProfileView, query: Seq<char>, part: Seq<char>)
    requires
        profile_matches(p, query),
        has_part(query, part),
    ensures
        profile_matches(p, part),
{
    if has_part(lowercase(p.id), query) {
        lemma_part_of_part(lowercase(p.id), query, part);
    } else {
        let i = choose|i: int|
            0 <= i < title_texts(p).len() && has_part(
                lowercase(#[trigger] title_texts(p)[i]),
                query,
            );
        lemma_part_of_part(lowercase(title_texts(p)[i]), query, part);
    }
}

/// Where a title is given in full, its vendor, model and variant are not
/// searched: others in their place change nothing.
pub proof fn law_full_title_searched(p: ProfileView, i: int, t: TitleView, query: Seq<char>)
    requires
        0 <= i < p.titles.len(),
        p.titles[i].title is Some,
        t.title == p.titles[i].title,
    ensures
        profile_matches(ProfileView { titles: p.titles.update(i, t), ..p }, query)
            == profile_matches(p, query),
{
    let other = ProfileView { titles: p.titles.update(i, t), ..p };
    assert(title_texts(other) =~= title_texts(p));
}

/// A profile is found by whatever stands in the text of any of its titles, at
/// whichever position, and by whatever stands in its identifier.
pub proof fn law_title_found(p: ProfileView, i: int, query: Seq<char>)
    ensures
        has_part(lowercase(p.id), query) ==> profile_matches(p, query),
        0 <= i < p.titles.len() && has_part(lowercase(title_text(p.titles[i])), query)
            ==> profile_matches(p, query),
{
    if 0 <= i < p.titles.len() {
        assert(title_texts(p)[i] == title_text(p.titles[i]));
    }
}

/// A profile is found only by what stands in its identifier or in one of its
/// titles.
pub proof fn law_found_only(p: ProfileView, query: Seq<char>)
    requires
        profile_matches(p, query),
        !has_part(lowercase(p.id), query),
    ensures
        exists|i: int|
            0 <= i < p.titles.len() && has_part(
                lowercase(title_text(#[trigger] p.titles[i])),
                query,
            ),
{
    let i = choose|i: int|
        0 <= i < title_texts(p).len() && has_part(lowercase(#[trigger] title_texts(p)[i]), query);
    assert(title_texts(p)[i] == title_text(p.titles[i]));
}

/// A profile has a display name for each of its titles, in their order: the
/// text of the title, and the identifier in brackets. A query for the text of
/// that title finds the profile, and with it the name.
pub proof fn law_display_names(p: ProfileView, i: int)
    requires
        0 <= i < p.titles.len(),
    ensures
        display_names(p).len() == p.titles.len(),
        display_names(p)[i] == title_text(p.titles[i]) + " ("@ + p.id + ")"@,
        profile_matches(p, lowercase(title_text(p.titles[i]))),
        matching_names(seq![p], lowercase(title_text(p.titles[i]))).contains(
            title_text(p.titles[i]) + " ("@ + p.id + ")"@,
        ),
{
    let q = lowercase(title_text(p.titles[i]));
    assert(q.subrange(0, q.len() as int) =~= q);
    assert(occurs_at(q, q, 0));
    law_title_found(p, i, q);
    assert(title_texts(p)[i] == title_text(p.titles[i]));
    law_filter_one(p, q);
    assert(matching_names(seq![p], q)[i] == display_names(p)[i]);
}

/// A list of profiles is filtered profile by profile: the names of a profile
/// that matches are all listed, in their order, and those of one that does not
/// match are not.
pub proof fn law_filter_one(p: ProfileView, query: Seq<char>)
    ensures
        profile_matches(p, query) ==> matching_names(seq![p], query) == display_names(p),
        !profile_matches(p, query) ==> matching_names(seq![p], query) == Seq::<Seq<char>>::empty(),
        matching_names(Seq::empty(), query) == Seq::<Seq<char>>::empty(),
{
    let one = seq![p];
    assert(one.drop_last() =~= Seq::<ProfileView>::empty());
    assert(matching_names(one.drop_last(), query) =~= Seq::<Seq<char>>::empty());
    assert(matching_names(one, query) =~= if profile_matches(p, query) {
        display_names(p)
    } else {
        seq![]
    });
}

/// The names found in two lists of profiles, one after the other, are those
/// found in the first and then those found in the second.
pub proof fn law_filter_concat(a: Seq<ProfileView>, b: Seq<ProfileView>, query: Seq<char>)
    ensures
        matching_names(a + b, query) == matching_names(a, query) + matching_names(b, query),
    decreases b.len(),
{
    if b.len() == 0 {
        assert(a + b =~= a);
        assert(matching_names(b, query) =~= Seq::<Seq<char>>::empty());
        assert(matching_names(a, query) + matching_names(b, query) =~= matching_names(a, query));
    } else {
        law_filter_concat(a, b.drop_last(), query);
        assert((a + b).drop_last() =~= a + b.drop_last());
        assert((a + b).last() == b.last());
        assert(matching_names(a + b, query) =~= matching_names(a, query) + matching_names(
            b,
            query,
        ));
    }
}

/// A full title is shown as it is. Otherwise vendor and model are shown without
/// the white space around them and with one space between them, or the one that
/// there is; a variant follows after a space.
pub proof fn law_title_text(t: TitleView)
    ensures
        t.title matches Some(full) ==> title_text(t) == full,
        t.title is None ==> title_text(t) == model_text(t),
        ({
            let v = trimmed(or_blank(t.vendor));
            let m = trimmed(or_blank(t.model));
            let both = if v.len() == 0 {
                m
            } else if m.len() == 0 {
                v
            } else {
                v + " "@ + m
            };
            &&& (t.variant is None || t.variant->0.len() == 0) ==> model_text(t) == both
            &&& (t.variant is Some && t.variant->0.len() > 0) ==> model_text(t) == both + " "@
                + t.variant->0
        }),
        or_blank(t.vendor) == if t.vendor is Some { t.vendor->0 } else { Seq::empty() },
        or_blank(t.model) == if t.model is Some { t.model->0 } else { Seq::empty() },
{
    reveal_strlit(" ");
    assert(" "@ =~= seq![' ']);
    let v = trimmed(or_blank(t.vendor));
    let m = trimmed(or_blank(t.model));
    law_trimmed(or_blank(t.vendor));
    law_trimmed(or_blank(t.model));
    let none = Seq::<char>::empty();
    let s = v + seq![' '] + m;
    if v.len() == 0 && m.len() == 0 {
        law_trimmed_is(seq![' '], none, none);
        assert(s =~= seq![' '] + none + none);
        assert(trimmed(s) =~= m);
    } else if v.len() == 0 {
        law_trimmed_is(seq![' '], m, none);
        assert(s =~= seq![' '] + m + none);
    } else if m.len() == 0 {
        law_trimmed_is(none, v, seq![' ']);
        assert(s =~= none + v + seq![' ']);
    } else {
        law_trimmed_is(none, s, none);
        assert(s =~= none + s + none);
    }
}

/// The models of a profile are its titles that are not empty, in their order,
/// with a slash between each two.
pub proof fn law_all_models(p: ProfileView, t: TitleView)
    ensures
        ({
            let x = title_text(t);
            let more = ProfileView { titles: p.titles.push(t), ..p };
            &&& x.len() == 0 ==> all_models(more) == all_models(p)
            &&& x.len() > 0 && (forall|i: int|
                0 <= i < p.titles.len() ==> title_text(#[trigger] p.titles[i]).len() == 0)
                ==> all_models(more) == x
            &&& x.len() > 0 && (exists|i: int|
                0 <= i < p.titles.len() && title_text(#[trigger] p.titles[i]).len() > 0)
                ==> all_models(more) == all_models(p) + " / "@ + x
        }),
{
    let x = title_text(t);
    let more = ProfileView { titles: p.titles.push(t), ..p };
    let keep = |s: Seq<char>| s.len() > 0;
    let a = title_texts(p);
    assert(title_texts(more) =~= a.push(x));
    assert(a.push(x).drop_last() =~= a);
    lemma_kept_titles(p, p.titles.len() as int);
    assert(a.take(p.titles.len() as int) =~= a);
    reveal(Seq::filter);
    if x.len() > 0 {
        assert(title_texts(more).filter(keep) == a.filter(keep).push(x));
        assert(a.filter(keep).push(x).drop_last() =~= a.filter(keep));
    }
}

proof fn lemma_kept_titles(p: ProfileView, n: int)
    requires
        0 <= n <= p.titles.len(),
    ensures
        title_texts(p).take(n).filter(|s: Seq<char>| s.len() > 0).len() > 0 <==> exists|i: int|
            0 <= i < n && title_text(#[trigger] p.titles[i]).len() > 0,
    decreases n,
{
    reveal(Seq::filter);
    let a = title_texts(p);
    if n > 0 {
        lemma_kept_titles(p, n - 1);
        assert(a.take(n).drop_last() =~= a.take(n - 1));
        assert(a.take(n).last() == title_text(p.titles[n - 1]));
        if exists|i: int| 0 <= i < n - 1 && title_text(#[trigger] p.titles[i]).len() > 0 {
            let i = choose|i: int| 0 <= i < n - 1 && title_text(#[trigger] p.titles[i]).len() > 0;
            assert(title_text(p.titles[i]).len() > 0);
        }
    }
}

/// A profile has a display name exactly where the text of one of its titles
/// with the identifier in brackets is that name, in lower case.
pub proof fn law_named(p: ProfileView, name: Seq<char>)
    ensures
        is_named(p, name) <==> exists|i: int|
            0 <= i < p.titles.len() && lowercase(
                title_text(#[trigger] p.titles[i]) + " ("@ + p.id + ")"@,
            ) == name,
{
    if is_named(p, name) {
        let i = choose|i: int|
            0 <= i < display_names(p).len() && lowercase(#[trigger] display_names(p)[i]) == name;
        law_display_names(p, i);
    }
    if exists|i: int|
        0 <= i < p.titles.len() && lowercase(
            title_text(#[trigger] p.titles[i]) + " ("@ + p.id + ")"@,
        ) == name {
        let i = choose|i: int|
            0 <= i < p.titles.len() && lowercase(
                title_text(#[trigger] p.titles[i]) + " ("@ + p.id + ")"@,
            ) == name;
        law_display_names(p, i);
        assert(lowercase(display_names(p)[i]) == name);
    }
}

/// An identifier in its usual form has an underscore for each comma and is the
/// same everywhere else.
pub proof fn law_normal_id_exact(s: Seq<char>, i: int)
    requires
        0 <= i < s.len(),
    ensures
        normal_id(s).len() == s.len(),
        s[i] == ',' ==> normal_id(s)[i] == '_',
        s[i] != ',' ==> normal_id(s)[i] == s[i],
{
}

/// A display name leads to the first profile that has it, and to none exactly
/// where none has it.
pub proof fn law_first_named(s: Seq<ProfileView>, name: Seq<char>, from: int)
    requires
        0 <= from,
    ensures
        match first_named(s, name, from) {
            Some(p) => exists|k: int|
                from <= k < s.len() && p == #[trigger] s[k] && is_named(p, name) && forall|j: int|
                    from <= j < k ==> !is_named(#[trigger] s[j], name),
            None => forall|j: int| from <= j < s.len() ==> !is_named(#[trigger] s[j], name),
        },
    decreases s.len() - from,
{
    if from < s.len() {
        if is_named(s[from], name) {
            assert(first_named(s, name, from) == Some(s[from]));
        } else {
            law_first_named(s, name, from + 1);
            if let Some(p) = first_named(s, name, from + 1) {
                let k = choose|k: int|
                    from + 1 <= k < s.len() && p == #[trigger] s[k] && is_named(p, name)
                        && forall|j: int| from + 1 <= j < k ==> !is_named(#[trigger] s[j], name);
                assert(p == s[k]);
            }
        }
    }
}

/// The views of titles and profiles hold each of their parts as it is.
pub proof fn law_profile_views(t: ProfileTitle, p: Profile, i: int)
    ensures
        t.model matches Some(s) ==> t@.model == Some(s@),
        t.model is None ==> t@.model is None,
        t.vendor matches Some(s) ==> t@.vendor == Some(s@),
        t.vendor is None ==> t@.vendor is None,
        t.variant matches Some(s) ==> t@.variant == Some(s@),
        t.variant is None ==> t@.variant is None,
        t.title matches Some(s) ==> t@.title == Some(s@),
        t.title is None ==> t@.title is None,
        p@.id == p.id@ && p@.target == p.target@,
        p@.titles.len() == p.titles@.len(),
        0 <= i < p.titles@.len() ==> p@.titles[i] == p.titles@[i]@,
{
}

/// Identifiers are equal exactly where their texts are, and compare as their
/// texts follow one another.
pub proof fn law_id_compared(a: ProfileId, b: ProfileId)
    ensures
        ProfileId::obeys_eq_spec(),
        a.eq_spec(&b) <==> a@ == b@,
        ProfileId::obeys_partial_cmp_spec(),
        a.partial_cmp_spec(&b) == Some(Ordering::Less) <==> text_lt(a@, b@),
        a.partial_cmp_spec(&b) == Some(Ordering::Greater) <==> text_lt(b@, a@),
        a.partial_cmp_spec(&b) == Some(Ordering::Equal) <==> a@ == b@,
{
    law_text_order(a@, b@, a@);
}

} // verus!
