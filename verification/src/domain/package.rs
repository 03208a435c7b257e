//! Packages and package lists.

use core::cmp::Ordering;
use vstd::prelude::*;
use vstd::std_specs::cmp::{PartialEqSpec, PartialOrdSpec};
use vstd::std_specs::convert::FromSpecImpl;

use crate::text::order::{before, law_text_order, outcome, text_lt};
use crate::text::scan::{blank_text, same, strip_prefix, texts, white};
use crate::text::split::{is_word, join, joined_by, law_word, law_words, lemma_words_are_words,
    lemma_words_joined, split_whitespace, words};

verus! {

/// A package that an image takes in or leaves out.
#[derive(Debug)]
pub struct Package {
    pub name: String,
    pub enabled: bool,
}

/// What a [`Package`] holds.
pub struct PackageView {
    pub name: Seq<char>,
    pub enabled: bool,
}

impl View for Package {
    type V = PackageView;

    open spec fn view(&self) -> PackageView {
        PackageView { name: self.name@, enabled: self.enabled }
    }
}

/// The package that `s` names; a leading dash leaves it out.
pub open spec fn package_of(s: Seq<char>) -> PackageView {
    if s.len() > 0 && s[0] == '-' {
        PackageView { name: s.skip(1), enabled: false }
    } else {
        PackageView { name: s, enabled: true }
    }
}

/// The text of a package.
pub open spec fn package_text(p: PackageView) -> Seq<char> {
    if p.enabled {
        p.name
    } else {
        seq!['-'] + p.name
    }
}

/// Package `a` goes before package `b`: those taken in first, then by name.
pub open spec fn package_lt(a: PackageView, b: PackageView) -> bool {
    (a.enabled && !b.enabled) || (a.enabled == b.enabled && text_lt(a.name, b.name))
}

/// What a sequence of packages holds.
pub open spec fn packages(v: Seq<Package>) -> Seq<PackageView> {
    v.map_values(|p: Package| p@)
}

/// The packages are in order, and none occurs twice.
pub open spec fn in_order(s: Seq<PackageView>) -> bool {
    forall|i: int, j: int| 0 <= i < j < s.len() ==> package_lt(#[trigger] s[i], #[trigger] s[j])
}

/// Two sequences hold the same packages.
pub open spec fn same_packages(a: Seq<PackageView>, b: Seq<PackageView>) -> bool {
    forall|p: PackageView| #[trigger] a.contains(p) <==> b.contains(p)
}

/// `r` holds the packages of `s` in order, each once.
pub open spec fn orders(r: Seq<PackageView>, s: Seq<PackageView>) -> bool {
    in_order(r) && same_packages(r, s)
}

/// The packages of `s` in order, each once. There is one such sequence: see
/// [`law_ordered`].
pub open spec fn ordered(s: Seq<PackageView>) -> Seq<PackageView> {
    choose|r: Seq<PackageView>| #[trigger] orders(r, s)
}

/// A package of that name is in `s`.
pub open spec fn has_name(s: Seq<PackageView>, name: Seq<char>) -> bool {
    exists|i: int| 0 <= i < s.len() && (#[trigger] s[i]).name == name
}

/// The packages of `a` whose name is not in `b`.
pub open spec fn without(a: Seq<PackageView>, b: Seq<PackageView>) -> Seq<PackageView> {
    a.filter(|p: PackageView| !has_name(b, p.name))
}

/// The packages of `s`, all of them taken in or all left out.
pub open spec fn switched(s: Seq<PackageView>, enabled: bool) -> Seq<PackageView> {
    s.map_values(|p: PackageView| PackageView { name: p.name, enabled })
}

/// The packages of `s` and those of `other` that it does not name.
pub open spec fn extended(
    s: Seq<PackageView>,
    other: Seq<PackageView>,
    enabled: bool,
) -> Seq<PackageView> {
    ordered(s + switched(without(other, s), enabled))
}

/// The texts of packages.
pub open spec fn package_texts(s: Seq<PackageView>) -> Seq<Seq<char>> {
    s.map_values(|p: PackageView| package_text(p))
}

/// The text of a package list: its packages with a space between each two.
pub open spec fn list_text(s: Seq<PackageView>) -> Seq<char> {
    joined_by(package_texts(s), seq![' '])
}

/// The packages that the words of `s` name, in that order.
pub open spec fn named_packages(s: Seq<char>) -> Seq<PackageView> {
    words(s).map_values(|w: Seq<char>| package_of(w))
}

/// The package list that `s` names.
pub open spec fn list_of(s: Seq<char>) -> Seq<PackageView> {
    ordered(named_packages(s))
}

/// The order of packages is a strict total order.
pub proof fn law_package_order(a: PackageView, b: PackageView, c: PackageView)
    ensures
        !package_lt(a, a),
        package_lt(a, b) && package_lt(b, c) ==> package_lt(a, c),
        a == b || package_lt(a, b) || package_lt(b, a),
        !(package_lt(a, b) && package_lt(b, a)),
{
    law_text_order(a.name, b.name, c.name);
}

/// Two sequences in order that hold the same packages are the same.
pub proof fn lemma_order_unique(a: Seq<PackageView>, b: Seq<PackageView>)
    requires
        in_order(a),
        in_order(b),
        same_packages(a, b),
    ensures
        a == b,
    decreases a.len(),
{
    if a.len() == 0 {
        if b.len() > 0 {
            assert(b.contains(b[0]));
            assert(a.contains(b[0]));
        }
        assert(a =~= b);
    } else {
        assert(a.contains(a[0]));
        assert(b.contains(a[0]));
        assert(b.len() > 0);
        assert(b.contains(b[0]));
        assert(a.contains(b[0]));
        let i = choose|i: int| 0 <= i < a.len() && a[i] == b[0];
        let j = choose|j: int| 0 <= j < b.len() && b[j] == a[0];
        law_package_order(a[0], b[0], a[0]);
        assert(a[0] == b[0]);
        let x = a.skip(1);
        let y = b.skip(1);
        assert forall|p: PackageView| #[trigger] x.contains(p) implies y.contains(p) by {
            let k = choose|k: int| 0 <= k < x.len() && x[k] == p;
            assert(a[k + 1] == p);
            assert(a.contains(p));
            assert(b.contains(p));
            let m = choose|m: int| 0 <= m < b.len() && b[m] == p;
            law_package_order(a[0], p, p);
            assert(package_lt(a[0], a[k + 1]));
            assert(m > 0);
            assert(y[m - 1] == p);
        }
        assert forall|p: PackageView| #[trigger] y.contains(p) implies x.contains(p) by {
            let k = choose|k: int| 0 <= k < y.len() && y[k] == p;
            assert(b[k + 1] == p);
            assert(b.contains(p));
            assert(a.contains(p));
            let m = choose|m: int| 0 <= m < a.len() && a[m] == p;
            law_package_order(b[0], p, p);
            assert(package_lt(b[0], b[k + 1]));
            assert(m > 0);
            assert(x[m - 1] == p);
        }
        lemma_order_unique(x, y);
        assert(a == seq![a[0]] + x);
        assert(b == seq![b[0]] + y);
    }
}

/// `at` is where `p` goes in `r`: what stands before it goes before `p`, and
/// what stands from there on does not.
spec fn is_place(r: Seq<PackageView>, p: PackageView, at: int) -> bool {
    &&& 0 <= at <= r.len()
    &&& forall|k: int| 0 <= k < at ==> package_lt(#[trigger] r[k], p)
    &&& at < r.len() ==> !package_lt(r[at], p)
}

/// `r` with `p` at its place.
spec fn placed(r: Seq<PackageView>, p: PackageView, at: int) -> Seq<PackageView> {
    if at < r.len() && r[at] == p {
        r
    } else {
        r.insert(at, p)
    }
}

proof fn lemma_placed(r: Seq<PackageView>, s: Seq<PackageView>, p: PackageView, at: int)
    requires
        orders(r, s),
        is_place(r, p, at),
    ensures
        orders(placed(r, p, at), s.push(p)),
{
    let q = placed(r, p, at);
    assert forall|x: PackageView| #[trigger] s.push(p).contains(x) == (s.contains(x) || x == p) by {
        if s.contains(x) {
            let k = choose|k: int| 0 <= k < s.len() && s[k] == x;
            assert(s.push(p)[k] == x);
        }
        if x == p {
            assert(s.push(p)[s.len() as int] == x);
        }
    }
    if at < r.len() && r[at] == p {
        assert(r.contains(p));
    } else {
        assert forall|x: PackageView| #[trigger] q.contains(x) == (r.contains(x) || x == p) by {
            if r.contains(x) {
                let k = choose|k: int| 0 <= k < r.len() && r[k] == x;
                if k < at {
                    assert(q[k] == x);
                } else {
                    assert(q[k + 1] == x);
                }
            }
            if x == p {
                assert(q[at] == x);
            }
            if q.contains(x) && x != p {
                let k = choose|k: int| 0 <= k < q.len() && q[k] == x;
                if k < at {
                    assert(r[k] == x);
                } else {
                    assert(r[k - 1] == x);
                }
            }
        }
        if at < r.len() {
            law_package_order(p, r[at], p);
            assert forall|k: int| at <= k < r.len() implies package_lt(p, #[trigger] r[k]) by {
                if k > at {
                    law_package_order(p, r[at], r[k]);
                }
            }
        }
        assert forall|i: int, j: int| 0 <= i < j < q.len() implies package_lt(
            #[trigger] q[i],
            #[trigger] q[j],
        ) by {
            if i < at {
                assert(q[i] == r[i]);
            } else if i > at {
                assert(q[i] == r[i - 1]);
            }
            if j < at {
                assert(q[j] == r[j]);
            } else if j > at {
                assert(q[j] == r[j - 1]);
            }
        }
    }
}

proof fn lemma_place_exists(r: Seq<PackageView>, p: PackageView, n: int) -> (at: int)
    requires
        0 <= n <= r.len(),
        forall|k: int| 0 <= k < n ==> package_lt(#[trigger] r[k], p),
    ensures
        is_place(r, p, at),
    decreases r.len() - n,
{
    if n < r.len() && package_lt(r[n], p) {
        lemma_place_exists(r, p, n + 1)
    } else {
        n
    }
}

proof fn lemma_orders_exists(s: Seq<PackageView>) -> (r: Seq<PackageView>)
    ensures
        orders(r, s),
    decreases s.len(),
{
    if s.len() == 0 {
        s
    } else {
        let t = lemma_orders_exists(s.drop_last());
        let at = lemma_place_exists(t, s.last(), 0);
        lemma_placed(t, s.drop_last(), s.last(), at);
        assert(s.drop_last().push(s.last()) == s);
        placed(t, s.last(), at)
    }
}

/// [`ordered`] is in order, holds the packages of `s` and no others, and is
/// the only sequence that does.
pub proof fn law_ordered(s: Seq<PackageView>)
    ensures
        in_order(ordered(s)),
        same_packages(ordered(s), s),
        forall|r: Seq<PackageView>| #[trigger] orders(r, s) ==> r == ordered(s),
{
    let r0 = lemma_orders_exists(s);
    assert(orders(r0, s));
    assert(orders(ordered(s), s));
    assert forall|r: Seq<PackageView>| #[trigger] orders(r, s) implies r == ordered(s) by {
        assert(same_packages(r, ordered(s)));
        lemma_order_unique(r, ordered(s));
    }
}

impl Package {
    /// The package in the form `name`, or `-name` where it is left out.
    pub fn to_string(&self) -> (r: String)
        ensures
            r@ == package_text(self@),
    {
        if self.enabled {
            self.name.clone()
        } else {
            let mut r: String = String::new();
            r.push('-');
            r.append(self.name.as_str());
            assert(r@ =~= package_text(self@));
            r
        }
    }

    /// Whether the package goes before `other`.
    pub fn is_before(&self, other: &Package) -> (r: bool)
        ensures
            r == package_lt(self@, other@),
    {
        (self.enabled && !other.enabled) || (self.enabled == other.enabled && before(
            self.name.as_str(),
            other.name.as_str(),
        ))
    }
}

impl Clone for Package {
    fn clone(&self) -> (r: Package)
        ensures
            r@ == self@,
    {
        Package { name: self.name.clone(), enabled: self.enabled }
    }
}

impl PartialEq for Package {
    fn eq(&self, other: &Self) -> (r: bool) {
        self.name == other.name && self.enabled == other.enabled
    }
}

impl Eq for Package {

}

impl vstd::std_specs::cmp::PartialEqSpecImpl for Package {
    open spec fn obeys_eq_spec() -> bool {
        true
    }

    open spec fn eq_spec(&self, other: &Self) -> bool {
        self@ == other@
    }
}

impl PartialOrd for Package {
    fn partial_cmp(&self, other: &Self) -> (r: Option<Ordering>) {
        if self.is_before(other) {
            Some(Ordering::Less)
        } else if other.is_before(self) {
            Some(Ordering::Greater)
        } else {
            Some(Ordering::Equal)
        }
    }
}

impl vstd::std_specs::cmp::PartialOrdSpecImpl for Package {
    open spec fn obeys_partial_cmp_spec() -> bool {
        true
    }

    open spec fn partial_cmp_spec(&self, other: &Self) -> Option<Ordering> {
        Some(outcome(package_lt(self@, other@), package_lt(other@, self@)))
    }
}

impl From<&str> for Package {
    fn from(s: &str) -> (r: Package)
        ensures
            r@ == package_of(s@),
    {
        proof {
            reveal_strlit("-");
            if s@.len() > 0 {
                assert(s@.subrange(0, 1)[0] == s@[0]);
                assert(s@[0] == '-' ==> s@.subrange(0, 1) =~= "-"@);
            }
        }
        match strip_prefix(s, "-") {
            Some(name) => Package { name, enabled: false },
            None => Package { name: s.to_string(), enabled: true },
        }
    }
}

impl FromSpecImpl<&str> for Package {
    open spec fn obeys_from_spec() -> bool {
        false
    }

    open spec fn from_spec(v: &str) -> Package {
        arbitrary()
    }
}

impl From<String> for Package {
    fn from(s: String) -> (r: Package)
        ensures
            r@ == package_of(s@),
    {
        Package::from(s.as_str())
    }
}

impl FromSpecImpl<String> for Package {
    open spec fn obeys_from_spec() -> bool {
        false
    }

    open spec fn from_spec(v: String) -> Package {
        arbitrary()
    }
}

/// Packages in order, each once.
#[derive(Debug)]
pub struct PackageList(Vec<Package>);

impl View for PackageList {
    type V = Seq<PackageView>;

    closed spec fn view(&self) -> Seq<PackageView> {
        packages(self.0@)
    }
}

/// Puts `p` into a sequence in order, unless it is there.
fn insert_package(v: &mut Vec<Package>, p: Package, Ghost(s): Ghost<Seq<PackageView>>)
    requires
        orders(packages(old(v)@), s),
    ensures
        orders(packages(final(v)@), s.push(p@)),
{
    let ghost before_v = packages(v@);
    let mut at: usize = 0;
    while at < v.len() && v[at].is_before(&p)
        invariant
            at <= v.len(),
            before_v == packages(v@),
            forall|k: int| 0 <= k < at ==> package_lt(#[trigger] before_v[k], p@),
        decreases v.len() - at,
    {
        assert(before_v[at as int] == v@[at as int]@);
        at += 1;
    }
    proof {
        if at < v.len() {
            assert(before_v[at as int] == v@[at as int]@);
        }
        lemma_placed(before_v, s, p@, at as int);
    }
    if at < v.len() && v[at] == p {
        return;
    }
    v.insert(at, p);
    assert(packages(v@) =~= before_v.insert(at as int, p@));
}

impl PackageList {
    #[verifier::type_invariant]
    spec fn wf(self) -> bool {
        in_order(packages(self.0@))
    }

    /// Number of packages.
    pub fn len(&self) -> (r: usize)
        ensures
            r == self@.len(),
    {
        self.0.len()
    }

    /// Whether there are no packages.
    pub fn is_empty(&self) -> (r: bool)
        ensures
            r == (self@.len() == 0),
    {
        self.0.len() == 0
    }

    /// The packages.
    pub fn into_packages(self) -> (r: Vec<Package>)
        ensures
            packages(r@) == self@,
            in_order(packages(r@)),
    {
        proof {
            use_type_invariant(&self);
        }
        self.0
    }

    /// Whether a package of that name is in the list.
    pub fn has(&self, name: &str) -> (r: bool)
        ensures
            r == has_name(self@, name@),
    {
        let mut i: usize = 0;
        while i < self.0.len()
            invariant
                i <= self.0.len(),
                self@ == packages(self.0@),
                forall|k: int| 0 <= k < i ==> (#[trigger] self@[k]).name != name@,
            decreases self.0.len() - i,
        {
            assert(self@[i as int] == self.0@[i as int]@);
            if same(self.0[i].name.as_str(), name) {
                return true;
            }
            i += 1;
        }
        false
    }

    /// The packages in `self` that are not mentioned in `other`, whether they
    /// are taken in or left out there.
    pub fn diff(&self, other: &PackageList) -> (r: PackageList)
        ensures
            r@ == ordered(without(self@, other@)),
            in_order(r@),
            forall|p: PackageView| #[trigger]
                r@.contains(p) <==> self@.contains(p) && !has_name(other@, p.name),
    {
        let ghost keep = |p: PackageView| !has_name(other@, p.name);
        let mut v: Vec<Package> = Vec::new();
        let mut i: usize = 0;
        assert(self@.take(0).filter(keep) =~= Seq::<PackageView>::empty()) by {
            reveal(Seq::filter);
        }
        while i < self.0.len()
            invariant
                i <= self.0.len(),
                self@ == packages(self.0@),
                keep == (|p: PackageView| !has_name(other@, p.name)),
                packages(v@) == self@.take(i as int).filter(keep),
            decreases self.0.len() - i,
        {
            let ghost s = self@.take(i as int);
            let ghost x = self@[i as int];
            let ghost v0 = packages(v@);
            assert(x == self.0@[i as int]@);
            if !other.has(self.0[i].name.as_str()) {
                v.push(self.0[i].clone());
                assert(packages(v@) =~= v0.push(x));
            }
            i += 1;
            assert(self@.take(i as int) == s.push(x));
            assert(s.push(x).drop_last() == s);
            reveal(Seq::filter);
        }
        assert(self@.take(self@.len() as int) == self@);
        let r: PackageList = PackageList::from(v);
        proof {
            lemma_without(self@, other@);
            law_ordered(without(self@, other@));
        }
        r
    }

    /// Adds the packages in `other` that `self` does not mention, all of them
    /// taken in or all left out.
    pub fn extend(&mut self, other: &PackageList, enabled: bool)
        ensures
            final(self)@ == extended(old(self)@, other@, enabled),
            in_order(final(self)@),
            forall|p: PackageView| #[trigger]
                final(self)@.contains(p) <==> old(self)@.contains(p) || (p.enabled == enabled
                    && has_name(other@, p.name) && !has_name(old(self)@, p.name)),
    {
        let ghost base = self@;
        let ghost keep = |p: PackageView| !has_name(base, p.name);
        let mut extras: Vec<Package> = Vec::new();
        let mut i: usize = 0;
        assert(other@.take(0).filter(keep) =~= Seq::<PackageView>::empty()) by {
            reveal(Seq::filter);
        }
        assert(switched(Seq::<PackageView>::empty(), enabled) =~= Seq::<PackageView>::empty());
        while i < other.0.len()
            invariant
                i <= other.0.len(),
                other@ == packages(other.0@),
                base == self@,
                keep == (|p: PackageView| !has_name(base, p.name)),
                packages(extras@) == switched(other@.take(i as int).filter(keep), enabled),
            decreases other.0.len() - i,
        {
            let ghost s = other@.take(i as int);
            let ghost x = other@[i as int];
            let ghost v0 = packages(extras@);
            assert(x == other.0@[i as int]@);
            if !self.has(other.0[i].name.as_str()) {
                let p: Package = Package { name: other.0[i].name.clone(), enabled };
                extras.push(p);
                assert(packages(extras@) =~= v0.push(p@));
                assert(switched(s.filter(keep).push(x), enabled) =~= switched(
                    s.filter(keep),
                    enabled,
                ).push(p@));
            }
            i += 1;
            assert(other@.take(i as int) == s.push(x));
            assert(s.push(x).drop_last() == s);
            reveal(Seq::filter);
        }
        assert(other@.take(other@.len() as int) == other@);
        let ghost added = switched(without(other@, base), enabled);
        assert(packages(extras@) == added);
        let mut all: Vec<Package> = Vec::new();
        let mut k: usize = 0;
        while k < self.0.len()
            invariant
                k <= self.0.len(),
                self@ == packages(self.0@),
                packages(all@) == self@.take(k as int),
            decreases self.0.len() - k,
        {
            let ghost a0 = packages(all@);
            all.push(self.0[k].clone());
            k += 1;
            assert(packages(all@) =~= a0.push(self@[k - 1]));
            assert(packages(all@) =~= self@.take(k as int));
        }
        assert(self@.take(self@.len() as int) == self@);
        all.append(&mut extras);
        assert(packages(all@) =~= base + added);
        *self = PackageList::from(all);
        proof {
            law_ordered(base + added);
            lemma_extended(base, other@, enabled);
        }
    }

    /// The packages with a space between each two.
    pub fn to_string(&self) -> (r: String)
        ensures
            r@ == list_text(self@),
    {
        let mut parts: Vec<String> = Vec::new();
        let mut i: usize = 0;
        while i < self.0.len()
            invariant
                i <= self.0.len(),
                self@ == packages(self.0@),
                texts(parts@) == package_texts(self@).take(i as int),
            decreases self.0.len() - i,
        {
            let ghost p0 = texts(parts@);
            parts.push(self.0[i].to_string());
            i += 1;
            assert(texts(parts@) =~= p0.push(package_texts(self@)[i - 1]));
            assert(texts(parts@) =~= package_texts(self@).take(i as int));
        }
        assert(package_texts(self@).take(self@.len() as int) == package_texts(self@));
        proof {
            reveal_strlit(" ");
            assert(" "@ =~= seq![' ']);
        }
        join(&parts, " ")
    }
}

impl Clone for PackageList {
    fn clone(&self) -> (r: PackageList)
        ensures
            r@ == self@,
    {
        let mut v: Vec<Package> = Vec::new();
        let mut i: usize = 0;
        while i < self.0.len()
            invariant
                i <= self.0.len(),
                self@ == packages(self.0@),
                packages(v@) == self@.take(i as int),
            decreases self.0.len() - i,
        {
            let ghost v0 = packages(v@);
            v.push(self.0[i].clone());
            i += 1;
            assert(packages(v@) =~= v0.push(self@[i - 1]));
            assert(packages(v@) =~= self@.take(i as int));
        }
        assert(self@.take(self@.len() as int) == self@);
        proof {
            use_type_invariant(self);
        }
        PackageList(v)
    }
}

impl PartialEq for PackageList {
    fn eq(&self, other: &Self) -> (r: bool) {
        if self.0.len() != other.0.len() {
            return false;
        }
        let mut i: usize = 0;
        while i < self.0.len()
            invariant
                i <= self.0.len() == other.0.len(),
                self@ == packages(self.0@),
                other@ == packages(other.0@),
                forall|k: int| 0 <= k < i ==> self@[k] == other@[k],
            decreases self.0.len() - i,
        {
            assert(self@[i as int] == self.0@[i as int]@);
            assert(other@[i as int] == other.0@[i as int]@);
            if self.0[i] != other.0[i] {
                return false;
            }
            i += 1;
        }
        assert(self@ =~= other@);
        true
    }
}

impl Eq for PackageList {

}

impl vstd::std_specs::cmp::PartialEqSpecImpl for PackageList {
    open spec fn obeys_eq_spec() -> bool {
        true
    }

    open spec fn eq_spec(&self, other: &Self) -> bool {
        self@ == other@
    }
}

impl Default for PackageList {
    fn default() -> (r: PackageList)
        ensures
            r@ == Seq::<PackageView>::empty(),
    {
        let r: PackageList = PackageList(Vec::new());
        assert(r@ =~= Seq::<PackageView>::empty());
        r
    }
}

impl core::ops::Deref for PackageList {
    type Target = [Package];

    fn deref(&self) -> (r: &[Package])
        ensures
            packages(r@) == self@,
            in_order(packages(r@)),
    {
        proof {
            use_type_invariant(self);
        }
        self.0.as_slice()
    }
}

impl From<Vec<Package>> for PackageList {
    fn from(v: Vec<Package>) -> (r: PackageList)
        ensures
            r@ == ordered(packages(v@)),
            in_order(r@),
            same_packages(r@, packages(v@)),
    {
        let mut out: Vec<Package> = Vec::new();
        let mut i: usize = 0;
        let ghost all = packages(v@);
        assert(packages(out@) =~= Seq::<PackageView>::empty());
        assert(orders(packages(out@), all.take(0)));
        while i < v.len()
            invariant
                i <= v.len(),
                all == packages(v@),
                orders(packages(out@), all.take(i as int)),
            decreases v.len() - i,
        {
            insert_package(&mut out, v[i].clone(), Ghost(all.take(i as int)));
            i += 1;
            assert(all.take(i - 1).push(all[i - 1]) == all.take(i as int));
        }
        assert(all.take(all.len() as int) == all);
        proof {
            law_ordered(all);
        }
        PackageList(out)
    }
}

impl FromSpecImpl<Vec<Package>> for PackageList {
    open spec fn obeys_from_spec() -> bool {
        false
    }

    open spec fn from_spec(v: Vec<Package>) -> PackageList {
        arbitrary()
    }
}

impl From<&str> for PackageList {
    fn from(s: &str) -> (r: PackageList)
        ensures
            r@ == list_of(s@),
            in_order(r@),
            same_packages(r@, named_packages(s@)),
    {
        let names: Vec<String> = split_whitespace(s);
        let mut v: Vec<Package> = Vec::new();
        let mut i: usize = 0;
        while i < names.len()
            invariant
                i <= names.len(),
                texts(names@) == words(s@),
                packages(v@) == named_packages(s@).take(i as int),
            decreases names.len() - i,
        {
            let ghost v0 = packages(v@);
            assert(names@[i as int]@ == texts(names@)[i as int]);
            v.push(Package::from(names[i].as_str()));
            i += 1;
            assert(packages(v@) =~= v0.push(named_packages(s@)[i - 1]));
            assert(packages(v@) =~= named_packages(s@).take(i as int));
        }
        assert(named_packages(s@).take(named_packages(s@).len() as int) == named_packages(s@));
        assert(texts(names@).len() == names@.len());
        PackageList::from(v)
    }
}

impl FromSpecImpl<&str> for PackageList {
    open spec fn obeys_from_spec() -> bool {
        false
    }

    open spec fn from_spec(v: &str) -> PackageList {
        arbitrary()
    }
}

impl From<String> for PackageList {
    fn from(s: String) -> (r: PackageList)
        ensures
            r@ == list_of(s@),
            in_order(r@),
            same_packages(r@, named_packages(s@)),
    {
        PackageList::from(s.as_str())
    }
}

impl FromSpecImpl<String> for PackageList {
    open spec fn obeys_from_spec() -> bool {
        false
    }

    open spec fn from_spec(v: String) -> PackageList {
        arbitrary()
    }
}

impl From<PackageList> for String {
    fn from(list: PackageList) -> (r: String)
        ensures
            r@ == list_text(list@),
    {
        list.to_string()
    }
}

impl FromSpecImpl<PackageList> for String {
    open spec fn obeys_from_spec() -> bool {
        false
    }

    open spec fn from_spec(v: PackageList) -> String {
        arbitrary()
    }
}

/// [`without`] keeps exactly the packages of `a` that `b` does not name.
pub proof fn lemma_without(a: Seq<PackageView>, b: Seq<PackageView>)
    ensures
        forall|p: PackageView| #[trigger]
            without(a, b).contains(p) <==> a.contains(p) && !has_name(b, p.name),
    decreases a.len(),
{
    let keep = |p: PackageView| !has_name(b, p.name);
    reveal(Seq::filter);
    if a.len() > 0 {
        let c = a.drop_last();
        lemma_without(c, b);
        assert(a == c.push(a.last()));
        assert forall|p: PackageView| #[trigger] without(a, b).contains(p) == (a.contains(p)
            && !has_name(b, p.name)) by {
            lemma_push_contains(c, a.last(), p);
            lemma_push_contains(without(c, b), a.last(), p);
            assert(without(c, b).contains(p) == (c.contains(p) && !has_name(b, p.name)));
        }
    }
}

proof fn lemma_push_contains(s: Seq<PackageView>, x: PackageView, p: PackageView)
    ensures
        s.push(x).contains(p) == (s.contains(p) || p == x),
{
    if s.contains(p) {
        let k = choose|k: int| 0 <= k < s.len() && s[k] == p;
        assert(s.push(x)[k] == p);
    }
    if p == x {
        assert(s.push(x)[s.len() as int] == p);
    }
    if s.push(x).contains(p) && p != x {
        let k = choose|k: int| 0 <= k < s.push(x).len() && s.push(x)[k] == p;
        assert(s[k] == p);
    }
}

/// [`extended`] holds the packages of `s`, and those that only `other` names.
pub proof fn lemma_extended(s: Seq<PackageView>, other: Seq<PackageView>, enabled: bool)
    ensures
        in_order(extended(s, other, enabled)),
        forall|p: PackageView| #[trigger]
            extended(s, other, enabled).contains(p) <==> s.contains(p) || (p.enabled == enabled
                && has_name(other, p.name) && !has_name(s, p.name)),
{
    let w = without(other, s);
    let added = switched(w, enabled);
    law_ordered(s + added);
    lemma_without(other, s);
    assert forall|p: PackageView| #[trigger] extended(s, other, enabled).contains(p) == (
    s.contains(p) || (p.enabled == enabled && has_name(other, p.name) && !has_name(
        s,
        p.name,
    ))) by {
        assert(extended(s, other, enabled).contains(p) == (s + added).contains(p));
        if s.contains(p) {
            let k = choose|k: int| 0 <= k < s.len() && s[k] == p;
            assert((s + added)[k] == p);
        }
        if p.enabled == enabled && has_name(other, p.name) && !has_name(s, p.name) {
            let i = choose|i: int| 0 <= i < other.len() && (#[trigger] other[i]).name == p.name;
            assert(other.contains(other[i]));
            assert(w.contains(other[i]));
            let k = choose|k: int| 0 <= k < w.len() && w[k] == other[i];
            assert(added[k] == p);
            assert((s + added)[s.len() + k] == p);
        }
        if (s + added).contains(p) && !s.contains(p) {
            let k = choose|k: int| 0 <= k < (s + added).len() && (s + added)[k] == p;
            if k < s.len() {
                assert(s[k] == p);
            }
            assert(p == added[k - s.len()]);
            let q = w[k - s.len()];
            assert(w.contains(q));
            assert(other.contains(q));
            let i = choose|i: int| 0 <= i < other.len() && other[i] == q;
            assert(other[i].name == p.name);
        }
    }
}

/// The text of the package is read as the package: one that is taken in does
/// not begin with a dash.
pub open spec fn readable(p: PackageView) -> bool {
    p.enabled ==> !(p.name.len() > 0 && p.name[0] == '-')
}

/// The text of the package is a single word.
pub open spec fn wordlike(p: PackageView) -> bool {
    &&& p.enabled ==> p.name.len() > 0
    &&& forall|i: int| 0 <= i < p.name.len() ==> !white(#[trigger] p.name[i])
}

/// Reading the text of a package gives the package back.
pub proof fn law_package_round_trip(p: PackageView)
    requires
        readable(p),
    ensures
        package_of(package_text(p)) == p,
{
    if !p.enabled {
        assert((seq!['-'] + p.name).skip(1) =~= p.name);
    }
}

/// Reading the text of a package list gives the list back.
pub proof fn law_list_round_trip(s: Seq<PackageView>)
    requires
        in_order(s),
        forall|i: int| 0 <= i < s.len() ==> readable(#[trigger] s[i]) && wordlike(s[i]),
    ensures
        list_of(list_text(s)) == s,
{
    let parts = package_texts(s);
    assert forall|i: int| 0 <= i < parts.len() implies is_word(#[trigger] parts[i]) by {
        assert(readable(s[i]) && wordlike(s[i]));
        let t = parts[i];
        assert forall|k: int| 0 <= k < t.len() implies !white(#[trigger] t[k]) by {
            if s[i].enabled {
                assert(t[k] == s[i].name[k]);
            } else if k > 0 {
                assert(t[k] == s[i].name[k - 1]);
            }
        }
    }
    lemma_words_joined(parts);
    assert forall|i: int| 0 <= i < s.len() implies named_packages(list_text(s))[i] == s[i] by {
        assert(readable(s[i]));
        law_package_round_trip(s[i]);
    }
    assert(named_packages(list_text(s)) =~= s);
    law_ordered(s);
    assert(orders(s, s));
}

/// The packages of a list that was read are in order, and their texts can be
/// told apart, so that the list's text is read as the same list again.
pub proof fn law_list_read(s: Seq<char>)
    ensures
        in_order(list_of(s)),
        forall|i: int|
            0 <= i < list_of(s).len() ==> readable(#[trigger] list_of(s)[i]) && wordlike(
                list_of(s)[i],
            ),
        list_of(list_text(list_of(s))) == list_of(s),
{
    let l = list_of(s);
    let w = words(s);
    let n = named_packages(s);
    law_ordered(n);
    lemma_words_are_words(s);
    assert forall|i: int| 0 <= i < l.len() implies readable(#[trigger] l[i]) && wordlike(l[i]) by {
        assert(l.contains(l[i]));
        assert(n.contains(l[i]));
        let k = choose|k: int| 0 <= k < n.len() && n[k] == l[i];
        assert(is_word(w[k]));
        assert(l[i] == package_of(w[k]));
        let name = l[i].name;
        assert forall|j: int| 0 <= j < name.len() implies !white(#[trigger] name[j]) by {
            if l[i].enabled {
                assert(name[j] == w[k][j]);
            } else {
                assert(name[j] == w[k][j + 1]);
            }
        }
    }
    law_list_round_trip(l);
}

/// Extending a list makes it mention all that either mentions, and nothing else.
pub proof fn law_extend_names(s: Seq<PackageView>, other: Seq<PackageView>, enabled: bool)
    ensures
        forall|n: Seq<char>| #[trigger]
            has_name(extended(s, other, enabled), n) <==> has_name(s, n) || has_name(other, n),
{
    let e = extended(s, other, enabled);
    lemma_extended(s, other, enabled);
    assert forall|n: Seq<char>| #[trigger] has_name(e, n) == (has_name(s, n) || has_name(
        other,
        n,
    )) by {
        if has_name(s, n) {
            let i = choose|i: int| 0 <= i < s.len() && (#[trigger] s[i]).name == n;
            assert(s.contains(s[i]));
            assert(e.contains(s[i]));
            let k = choose|k: int| 0 <= k < e.len() && e[k] == s[i];
            assert(e[k].name == n);
        } else if has_name(other, n) {
            let p = PackageView { name: n, enabled };
            assert(e.contains(p));
            let k = choose|k: int| 0 <= k < e.len() && e[k] == p;
            assert(e[k].name == n);
        }
        if has_name(e, n) {
            let k = choose|k: int| 0 <= k < e.len() && (#[trigger] e[k]).name == n;
            assert(e.contains(e[k]));
            if s.contains(e[k]) {
                let i = choose|i: int| 0 <= i < s.len() && s[i] == e[k];
                assert(s[i].name == n);
            }
        }
    }
}

/// After extending a list with another, the other mentions nothing more.
pub proof fn law_extend_covers(s: Seq<PackageView>, other: Seq<PackageView>, enabled: bool)
    ensures
        ordered(without(other, extended(s, other, enabled))) == Seq::<PackageView>::empty(),
{
    let e = extended(s, other, enabled);
    let d = ordered(without(other, e));
    law_extend_names(s, other, enabled);
    lemma_without(other, e);
    law_ordered(without(other, e));
    if d.len() > 0 {
        assert(d.contains(d[0]));
        assert(other.contains(d[0]));
        let i = choose|i: int| 0 <= i < other.len() && other[i] == d[0];
        assert(has_name(other, other[i].name));
        assert(has_name(e, d[0].name));
    }
    assert(d =~= Seq::<PackageView>::empty());
}

/// Extending a list twice with the same packages does no more than once.
pub proof fn law_extend_idempotent(
    s: Seq<PackageView>,
    other: Seq<PackageView>,
    first: bool,
    second: bool,
)
    ensures
        extended(extended(s, other, first), other, second) == extended(s, other, first),
{
    let e = extended(s, other, first);
    lemma_extended(s, other, first);
    law_extend_names(s, other, first);
    lemma_extended(e, other, second);
    assert(same_packages(extended(e, other, second), e));
    lemma_order_unique(extended(e, other, second), e);
}

/// Taking nothing from a list leaves it, and nothing can be taken from an
/// empty list.
pub proof fn law_diff_empty(s: Seq<PackageView>)
    requires
        in_order(s),
    ensures
        ordered(without(s, Seq::<PackageView>::empty())) == s,
        ordered(without(Seq::<PackageView>::empty(), s)) == Seq::<PackageView>::empty(),
{
    let none = Seq::<PackageView>::empty();
    lemma_without(s, none);
    law_ordered(without(s, none));
    assert(orders(s, without(s, none)));
    lemma_without(none, s);
    law_ordered(without(none, s));
    assert(orders(none, without(none, s)));
}

/// A dash in front leaves a package out, and is no part of its name; a text
/// without one takes in the package of that name.
pub proof fn law_package_named(name: Seq<char>)
    ensures
        package_of(seq!['-'] + name) == (PackageView { name, enabled: false }),
        (name.len() == 0 || name[0] != '-') ==> package_of(name) == (PackageView {
            name,
            enabled: true,
        }),
        package_text(PackageView { name, enabled: true }) == name,
        package_text(PackageView { name, enabled: false }) == "-"@ + name,
{
    reveal_strlit("-");
    assert("-"@ =~= seq!['-']);
    assert((seq!['-'] + name).skip(1) =~= name);
}

/// Packages that are taken in go before those that are left out; within each,
/// the names decide.
pub proof fn law_package_lexicographic(a: Seq<char>, b: Seq<char>, enabled: bool)
    ensures
        package_lt(
            PackageView { name: a, enabled: true },
            PackageView { name: b, enabled: false },
        ),
        package_lt(PackageView { name: a, enabled }, PackageView { name: b, enabled })
            <==> text_lt(a, b),
{
}

/// A list read from a text holds the package of each of its words, and no other.
pub proof fn law_list_members(s: Seq<char>, p: PackageView)
    ensures
        list_of(s).contains(p) <==> exists|i: int|
            0 <= i < words(s).len() && package_of(#[trigger] words(s)[i]) == p,
{
    law_ordered(named_packages(s));
    let n = named_packages(s);
    if n.contains(p) {
        let i = choose|i: int| 0 <= i < n.len() && n[i] == p;
        assert(package_of(words(s)[i]) == p);
    }
    if exists|i: int| 0 <= i < words(s).len() && package_of(#[trigger] words(s)[i]) == p {
        let i = choose|i: int| 0 <= i < words(s).len() && package_of(#[trigger] words(s)[i]) == p;
        assert(n[i] == p);
    }
}

/// A text with a word more, set off by white space, names the package of that
/// word and all that it named before.
pub proof fn law_list_word(s: Seq<char>, gap: Seq<char>, w: Seq<char>, p: PackageView)
    requires
        gap.len() > 0,
        blank_text(gap),
        is_word(w),
    ensures
        list_of(s + gap + w).contains(p) <==> list_of(s).contains(p) || p == package_of(w),
{
    law_words(s, gap, w);
    law_word(w);
    let all = words(s + gap + w);
    law_list_members(s + gap + w, p);
    law_list_members(s, p);
    assert(all == words(s) + seq![w]);
    assert(all[words(s).len() as int] == w);
    if list_of(s).contains(p) {
        let i = choose|i: int| 0 <= i < words(s).len() && package_of(#[trigger] words(s)[i]) == p;
        assert(all[i] == words(s)[i]);
    }
    if list_of(s + gap + w).contains(p) && p != package_of(w) {
        let i = choose|i: int| 0 <= i < all.len() && package_of(#[trigger] all[i]) == p;
        assert(words(s)[i] == all[i]);
    }
}

/// A list shows as its packages with one space between each two.
pub proof fn law_list_text(s: Seq<PackageView>, p: PackageView)
    ensures
        list_text(Seq::empty()) == Seq::<char>::empty(),
        list_text(seq![p]) == package_text(p),
        s.len() > 0 ==> list_text(s.push(p)) == list_text(s) + " "@ + package_text(p),
{
    reveal_strlit(" ");
    assert(" "@ =~= seq![' ']);
    assert(package_texts(Seq::empty()) =~= Seq::<Seq<char>>::empty());
    assert(package_texts(seq![p]) =~= seq![package_text(p)]);
    assert(package_texts(s.push(p)) =~= package_texts(s).push(package_text(p)));
    assert(package_texts(s).push(package_text(p)).drop_last() =~= package_texts(s));
}

/// A list keeps its own packages as they are when another list is added; of the
/// other list it takes the names that it does not have, all of them in or all
/// of them out.
pub proof fn law_extend_exact(
    s: Seq<PackageView>,
    other: Seq<PackageView>,
    enabled: bool,
    p: PackageView,
)
    ensures
        in_order(extended(s, other, enabled)),
        s.contains(p) ==> extended(s, other, enabled).contains(p),
        has_name(s, p.name) ==> (extended(s, other, enabled).contains(p) <==> s.contains(p)),
        !has_name(s, p.name) && has_name(other, p.name) ==> (extended(s, other, enabled).contains(p)
            <==> p.enabled == enabled),
        !has_name(s, p.name) && !has_name(other, p.name) ==> !extended(s, other, enabled).contains(
            p,
        ),
{
    lemma_extended(s, other, enabled);
    if s.contains(p) {
        let i = choose|i: int| 0 <= i < s.len() && s[i] == p;
        assert(s[i].name == p.name);
    }
}

/// What one list has over another are its packages that the other does not
/// mention, as they are there; whether they are taken in plays no part.
pub proof fn law_diff_exact(a: Seq<PackageView>, b: Seq<PackageView>, p: PackageView)
    ensures
        in_order(ordered(without(a, b))),
        ordered(without(a, b)).contains(p) <==> a.contains(p) && !b.contains(
            PackageView { name: p.name, enabled: true },
        ) && !b.contains(PackageView { name: p.name, enabled: false }),
{
    law_ordered(without(a, b));
    lemma_without(a, b);
    if has_name(b, p.name) {
        let i = choose|i: int| 0 <= i < b.len() && (#[trigger] b[i]).name == p.name;
        assert(b.contains(b[i]));
        assert(b[i] == (PackageView { name: p.name, enabled: b[i].enabled }));
    }
    if b.contains(PackageView { name: p.name, enabled: true }) {
        let i = choose|i: int|
            0 <= i < b.len() && b[i] == (PackageView { name: p.name, enabled: true });
        assert(b[i].name == p.name);
    }
    if b.contains(PackageView { name: p.name, enabled: false }) {
        let i = choose|i: int|
            0 <= i < b.len() && b[i] == (PackageView { name: p.name, enabled: false });
        assert(b[i].name == p.name);
    }
}

/// The view of a package holds its name and whether it is taken in.
pub proof fn law_package_view(p: Package)
    ensures
        p@.name == p.name@,
        p@.enabled == p.enabled,
{
}

/// Packages are equal exactly where they hold the same, and compare as they follow
/// one another.
pub proof fn law_package_compared(a: Package, b: Package)
    ensures
        Package::obeys_eq_spec(),
        a.eq_spec(&b) <==> a@ == b@,
        Package::obeys_partial_cmp_spec(),
        a.partial_cmp_spec(&b) == Some(Ordering::Less) <==> package_lt(a@, b@),
        a.partial_cmp_spec(&b) == Some(Ordering::Greater) <==> package_lt(b@, a@),
        a.partial_cmp_spec(&b) == Some(Ordering::Equal) <==> a@ == b@,
{
    law_package_order(a@, b@, a@);
}

/// Lists are equal exactly where they hold the same packages in the same order.
pub proof fn law_list_equal(a: PackageList, b: PackageList)
    ensures
        PackageList::obeys_eq_spec(),
        a.eq_spec(&b) <==> a@ == b@,
{
}

} // verus!
