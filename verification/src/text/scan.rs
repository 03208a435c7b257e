//! Trimming, prefixes, suffixes and substring search.

use vstd::prelude::*;

verus! {

/// `String::push` appends one character.
pub assume_specification[ String::push ](s: &mut String, c: char)
    ensures
        final(s)@ == old(s)@.push(c),
;

/// Views of a list of strings.
pub open spec fn texts(v: Seq<String>) -> Seq<Seq<char>> {
    v.map_values(|s: String| s@)
}

/// The characters with the Unicode `White_Space` property.
pub open spec fn white(c: char) -> bool {
    ||| '\u{9}' <= c <= '\u{d}'
    ||| c == '\u{20}'
    ||| c == '\u{85}'
    ||| c == '\u{a0}'
    ||| c == '\u{1680}'
    ||| '\u{2000}' <= c <= '\u{200a}'
    ||| c == '\u{2028}'
    ||| c == '\u{2029}'
    ||| c == '\u{202f}'
    ||| c == '\u{205f}'
    ||| c == '\u{3000}'
}

/// `s` without its leading white space.
pub open spec fn trimmed_start(s: Seq<char>) -> Seq<char>
    decreases s.len(),
{
    if s.len() > 0 && white(s[0]) {
        trimmed_start(s.skip(1))
    } else {
        s
    }
}

/// `s` without its trailing white space.
pub open spec fn trimmed_end(s: Seq<char>) -> Seq<char>
    decreases s.len(),
{
    if s.len() > 0 && white(s.last()) {
        trimmed_end(s.drop_last())
    } else {
        s
    }
}

/// `s` without leading and trailing white space.
pub open spec fn trimmed(s: Seq<char>) -> Seq<char> {
    trimmed_end(trimmed_start(s))
}

/// `s` without the copies of `c` at its end.
pub open spec fn trimmed_end_of(s: Seq<char>, c: char) -> Seq<char>
    decreases s.len(),
{
    if s.len() > 0 && s.last() == c {
        trimmed_end_of(s.drop_last(), c)
    } else {
        s
    }
}

/// `pat` stands in `s` at position `i`.
pub open spec fn occurs_at(s: Seq<char>, pat: Seq<char>, i: int) -> bool {
    0 <= i && i + pat.len() <= s.len() && s.subrange(i, i + pat.len()) == pat
}

/// `s` begins with `pat`.
pub open spec fn has_prefix(s: Seq<char>, pat: Seq<char>) -> bool {
    occurs_at(s, pat, 0)
}

/// `s` ends with `pat`.
pub open spec fn has_suffix(s: Seq<char>, pat: Seq<char>) -> bool {
    occurs_at(s, pat, s.len() - pat.len())
}

/// `pat` stands somewhere in `s`.
pub open spec fn has_part(s: Seq<char>, pat: Seq<char>) -> bool {
    exists|i: int| occurs_at(s, pat, i)
}

/// What follows the prefix `pat`, if `s` begins with it.
pub open spec fn after_prefix(s: Seq<char>, pat: Seq<char>) -> Option<Seq<char>> {
    if has_prefix(s, pat) {
        Some(s.skip(pat.len() as int))
    } else {
        None
    }
}

/// What precedes the suffix `pat`, if `s` ends with it.
pub open spec fn before_suffix(s: Seq<char>, pat: Seq<char>) -> Option<Seq<char>> {
    if has_suffix(s, pat) {
        Some(s.take(s.len() - pat.len()))
    } else {
        None
    }
}

/// `s` with every `from` replaced by `to`.
pub open spec fn replaced(s: Seq<char>, from: char, to: char) -> Seq<char> {
    s.map_values(|c: char| if c == from { to } else { c })
}

/// The view of an optional string.
pub open spec fn opt_text(o: Option<String>) -> Option<Seq<char>> {
    match o {
        Some(s) => Some(s@),
        None => None,
    }
}

/// The view of an optional string slice.
pub open spec fn opt_str(o: Option<&str>) -> Option<Seq<char>> {
    match o {
        Some(s) => Some(s@),
        None => None,
    }
}

/// The text, unless it is empty.
pub open spec fn unless_empty(s: Seq<char>) -> Option<Seq<char>> {
    if s.len() == 0 {
        None
    } else {
        Some(s)
    }
}

/// The text, unless it is empty.
pub fn given(s: &str) -> (r: Option<&str>)
    ensures
        opt_str(r) == unless_empty(s@),
{
    if s.is_empty() {
        None
    } else {
        Some(s)
    }
}

/// A copy of the text, unless it is empty.
pub fn nonempty(s: &str) -> (r: Option<String>)
    ensures
        opt_text(r) == unless_empty(s@),
{
    if s.is_empty() {
        None
    } else {
        Some(s.to_string())
    }
}

/// The characters of `s`.
pub fn chars_of(s: &str) -> (r: Vec<char>)
    ensures
        r@ == s@,
{
    let mut r: Vec<char> = Vec::new();
    for c in it: s.chars()
        invariant
            r@ == s@.take(it.index()),
            it.seq() == s@,
    {
        r.push(c);
        assert(s@.take(it.index() + 1) == s@.take(it.index()).push(c));
    }
    assert(s@.take(s@.len() as int) == s@);
    r
}

/// The characters `from..to` of `v` as a string.
pub fn string_range(v: &Vec<char>, from: usize, to: usize) -> (r: String)
    requires
        from <= to <= v.len(),
    ensures
        r@ == v@.subrange(from as int, to as int),
{
    let mut r: String = String::new();
    let mut i: usize = from;
    while i < to
        invariant
            from <= i <= to <= v.len(),
            r@ == v@.subrange(from as int, i as int),
        decreases to - i,
    {
        r.push(v[i]);
        i += 1;
        assert(v@.subrange(from as int, i as int) == v@.subrange(from as int, i - 1).push(v@[i - 1]));
    }
    r
}

/// The concatenation of two strings.
pub fn joined(a: &str, b: &str) -> (r: String)
    ensures
        r@ == a@ + b@,
{
    let mut r: String = a.to_string();
    r.append(b);
    r
}

/// Whether two strings hold the same characters.
pub fn same(a: &str, b: &str) -> (r: bool)
    ensures
        r == (a@ == b@),
{
    let x: Vec<char> = chars_of(a);
    let y: Vec<char> = chars_of(b);
    if x.len() != y.len() {
        return false;
    }
    let mut i: usize = 0;
    while i < x.len()
        invariant
            i <= x.len() == y.len(),
            x@ == a@,
            y@ == b@,
            forall|k: int| 0 <= k < i ==> x@[k] == y@[k],
        decreases x.len() - i,
    {
        if x[i] != y[i] {
            return false;
        }
        i += 1;
    }
    assert(x@ =~= y@);
    true
}

/// Whether `c` is white space.
pub fn is_white(c: char) -> (r: bool)
    ensures
        r == white(c),
{
    ('\u{9}' <= c && c <= '\u{d}') || c == '\u{20}' || c == '\u{85}' || c == '\u{a0}' || c
        == '\u{1680}' || ('\u{2000}' <= c && c <= '\u{200a}') || c == '\u{2028}' || c == '\u{2029}'
        || c == '\u{202f}' || c == '\u{205f}' || c == '\u{3000}'
}

/// The first position at or after `from` that holds no white space.
pub fn skip_white(v: &Vec<char>, from: usize) -> (r: usize)
    requires
        from <= v.len(),
    ensures
        from <= r <= v.len(),
        trimmed_start(v@.skip(from as int)) == v@.skip(r as int),
        r < v.len() ==> !white(v@[r as int]),
{
    let mut i: usize = from;
    while i < v.len() && is_white(v[i])
        invariant
            from <= i <= v.len(),
            trimmed_start(v@.skip(from as int)) == trimmed_start(v@.skip(i as int)),
        decreases v.len() - i,
    {
        assert(v@.skip(i as int).skip(1) == v@.skip(i + 1));
        i += 1;
    }
    i
}

/// Removes leading and trailing white space.
pub fn trim(s: &str) -> (r: String)
    ensures
        r@ == trimmed(s@),
{
    let v: Vec<char> = chars_of(s);
    assert(v@.skip(0) == v@);
    let a: usize = skip_white(&v, 0);
    let mut b: usize = v.len();
    assert(v@.subrange(a as int, b as int) == v@.skip(a as int));
    while a < b && is_white(v[b - 1])
        invariant
            a <= b <= v.len(),
            trimmed_end(v@.skip(a as int)) == trimmed_end(v@.subrange(a as int, b as int)),
        decreases b,
    {
        assert(v@.subrange(a as int, b as int).drop_last() == v@.subrange(a as int, b - 1));
        assert(v@.subrange(a as int, b as int).last() == v@[b - 1]);
        b -= 1;
    }
    if a < b {
        assert(v@.subrange(a as int, b as int).last() == v@[b - 1]);
    }
    string_range(&v, a, b)
}

/// Removes the copies of `c` at the end.
pub fn trim_end_of(s: &str, c: char) -> (r: String)
    ensures
        r@ == trimmed_end_of(s@, c),
{
    let v: Vec<char> = chars_of(s);
    let mut b: usize = v.len();
    assert(v@.take(b as int) == v@);
    while b > 0 && v[b - 1] == c
        invariant
            b <= v.len(),
            trimmed_end_of(v@, c) == trimmed_end_of(v@.take(b as int), c),
        decreases b,
    {
        assert(v@.take(b as int).drop_last() == v@.take(b - 1));
        assert(v@.take(b as int).last() == v@[b - 1]);
        b -= 1;
    }
    if b > 0 {
        assert(v@.take(b as int).last() == v@[b - 1]);
    }
    string_range(&v, 0, b)
}

/// Whether `pat` stands in `v` at position `i`.
pub fn stands_at(v: &Vec<char>, pat: &Vec<char>, i: usize) -> (r: bool)
    requires
        i <= v.len(),
    ensures
        r == occurs_at(v@, pat@, i as int),
{
    if v.len() - i < pat.len() {
        return false;
    }
    let mut k: usize = 0;
    while k < pat.len()
        invariant
            k <= pat.len() <= v.len() - i,
            i <= v.len(),
            forall|j: int| 0 <= j < k ==> v@[i + j] == pat@[j],
        decreases pat.len() - k,
    {
        if v[i + k] != pat[k] {
            assert(v@.subrange(i as int, i + pat@.len())[k as int] != pat@[k as int]);
            return false;
        }
        k += 1;
    }
    assert(v@.subrange(i as int, i + pat@.len()) =~= pat@);
    true
}

/// Whether `s` begins with `pat`.
pub fn starts_with(s: &str, pat: &str) -> (r: bool)
    ensures
        r == has_prefix(s@, pat@),
{
    stands_at(&chars_of(s), &chars_of(pat), 0)
}

/// What follows the prefix `pat`, if `s` begins with it.
pub fn strip_prefix(s: &str, pat: &str) -> (r: Option<String>)
    ensures
        opt_text(r) == after_prefix(s@, pat@),
{
    let v: Vec<char> = chars_of(s);
    let p: Vec<char> = chars_of(pat);
    if stands_at(&v, &p, 0) {
        Some(string_range(&v, p.len(), v.len()))
    } else {
        None
    }
}

/// What precedes the suffix `pat`, if `s` ends with it.
pub fn strip_suffix(s: &str, pat: &str) -> (r: Option<String>)
    ensures
        opt_text(r) == before_suffix(s@, pat@),
{
    let v: Vec<char> = chars_of(s);
    let p: Vec<char> = chars_of(pat);
    if p.len() <= v.len() && stands_at(&v, &p, v.len() - p.len()) {
        Some(string_range(&v, 0, v.len() - p.len()))
    } else {
        None
    }
}

/// Whether `pat` stands somewhere in `s`.
pub fn contains(s: &str, pat: &str) -> (r: bool)
    ensures
        r == has_part(s@, pat@),
{
    let v: Vec<char> = chars_of(s);
    let p: Vec<char> = chars_of(pat);
    if v.len() < p.len() {
        return false;
    }
    let last: usize = v.len() - p.len();
    let mut i: usize = 0;
    while i < last
        invariant
            i <= last == v.len() - p.len(),
            v@ == s@,
            p@ == pat@,
            forall|k: int| 0 <= k < i ==> !occurs_at(v@, p@, k),
        decreases last - i,
    {
        if stands_at(&v, &p, i) {
            return true;
        }
        i += 1;
    }
    stands_at(&v, &p, last)
}

/// Replaces every `from` by `to`.
pub fn replace_char(s: &str, from: char, to: char) -> (r: String)
    ensures
        r@ == replaced(s@, from, to),
{
    let v: Vec<char> = chars_of(s);
    let mut r: String = String::new();
    let mut i: usize = 0;
    while i < v.len()
        invariant
            i <= v.len(),
            r@ == replaced(v@.take(i as int), from, to),
        decreases v.len() - i,
    {
        r.push(if v[i] == from { to } else { v[i] });
        i += 1;
        assert(r@ =~= replaced(v@.take(i as int), from, to));
    }
    assert(v@.take(v@.len() as int) == v@);
    r
}

/// Text of white space alone.
pub open spec fn blank_text(s: Seq<char>) -> bool {
    forall|i: int| 0 <= i < s.len() ==> white(#[trigger] s[i])
}

/// White space around a text goes when the text is trimmed.
pub proof fn lemma_trimmed_around(a: Seq<char>, s: Seq<char>, b: Seq<char>)
    requires
        blank_text(a),
        blank_text(b),
    ensures
        trimmed(a + s + b) == trimmed(s),
{
    lemma_start_around(a, s + b);
    assert(a + (s + b) =~= a + s + b);
    lemma_start_before(s, b);
    if trimmed_start(s).len() == 0 {
        lemma_end_blank(trimmed_start(s + b));
        lemma_end_blank(trimmed_start(s));
    } else {
        lemma_end_around(trimmed_start(s), b);
    }
}

proof fn lemma_start_around(a: Seq<char>, s: Seq<char>)
    requires
        blank_text(a),
    ensures
        trimmed_start(a + s) == trimmed_start(s),
    decreases a.len(),
{
    if a.len() == 0 {
        assert(a + s =~= s);
    } else {
        assert((a + s)[0] == a[0]);
        assert((a + s).skip(1) =~= a.skip(1) + s);
        assert forall|i: int| 0 <= i < a.skip(1).len() implies white(#[trigger] a.skip(1)[i]) by {
            assert(white(a[i + 1]));
        }
        lemma_start_around(a.skip(1), s);
    }
}

/// White space after a text stays when the text is trimmed at its start, unless
/// nothing is left of the text.
proof fn lemma_start_before(s: Seq<char>, b: Seq<char>)
    requires
        blank_text(b),
    ensures
        trimmed_start(s).len() > 0 ==> trimmed_start(s + b) == trimmed_start(s) + b,
        trimmed_start(s).len() == 0 ==> blank_text(trimmed_start(s + b)),
        blank_text(trimmed_start(s)) ==> trimmed_start(s).len() == 0,
    decreases s.len(),
{
    if s.len() == 0 {
        assert(s + b =~= b);
        lemma_start_around(b, Seq::empty());
        assert(b + Seq::<char>::empty() =~= b);
    } else {
        assert((s + b)[0] == s[0]);
        if white(s[0]) {
            assert((s + b).skip(1) =~= s.skip(1) + b);
            lemma_start_before(s.skip(1), b);
        }
    }
}

proof fn lemma_end_around(s: Seq<char>, b: Seq<char>)
    requires
        blank_text(b),
    ensures
        trimmed_end(s + b) == trimmed_end(s),
    decreases b.len(),
{
    if b.len() == 0 {
        assert(s + b =~= s);
    } else {
        assert((s + b).last() == b.last());
        assert((s + b).drop_last() =~= s + b.drop_last());
        assert forall|i: int| 0 <= i < b.drop_last().len() implies white(
            #[trigger] b.drop_last()[i],
        ) by {
            assert(white(b[i]));
        }
        assert(white(b[b.len() - 1]));
        lemma_end_around(s, b.drop_last());
    }
}

proof fn lemma_end_blank(s: Seq<char>)
    requires
        blank_text(s),
    ensures
        trimmed_end(s) == Seq::<char>::empty(),
{
    lemma_end_around(Seq::empty(), s);
    assert(Seq::<char>::empty() + s =~= s);
}

/// A part of a part of a text is a part of the text.
pub proof fn lemma_part_of_part(s: Seq<char>, q: Seq<char>, r: Seq<char>)
    requires
        has_part(s, q),
        has_part(q, r),
    ensures
        has_part(s, r),
{
    let i = choose|i: int| occurs_at(s, q, i);
    let j = choose|j: int| occurs_at(q, r, j);
    assert(s.subrange(i + j, i + j + r.len()) =~= q.subrange(j, j + r.len()));
    assert(occurs_at(s, r, i + j));
}

/// A text holds what was put into it, at its start, its end or between, and
/// what it holds splits it into what comes before and what comes after.
pub proof fn law_parts(a: Seq<char>, pat: Seq<char>, b: Seq<char>)
    ensures
        has_part(a + pat + b, pat),
        has_prefix(pat + b, pat),
        has_suffix(a + pat, pat),
        after_prefix(pat + b, pat) == Some(b),
        before_suffix(a + pat, pat) == Some(a),
{
    let s = a + pat + b;
    assert(s.subrange(a.len() as int, a.len() as int + pat.len()) =~= pat);
    assert(occurs_at(s, pat, a.len() as int));
    let p = pat + b;
    assert(p.subrange(0, pat.len() as int) =~= pat);
    assert(p.skip(pat.len() as int) =~= b);
    let e = a + pat;
    assert(e.subrange(a.len() as int, e.len() as int) =~= pat);
    assert(e.take(a.len() as int) =~= a);
}

/// Nothing else is a part, a prefix or a suffix: the text is made up of it.
pub proof fn law_parts_only(s: Seq<char>, pat: Seq<char>)
    ensures
        has_part(s, pat) ==> exists|a: Seq<char>, b: Seq<char>| s == #[trigger] (a + pat + b),
        after_prefix(s, pat) is Some <==> has_prefix(s, pat),
        after_prefix(s, pat) matches Some(b) ==> s == pat + b,
        before_suffix(s, pat) is Some <==> has_suffix(s, pat),
        before_suffix(s, pat) matches Some(a) ==> s == a + pat,
{
    if has_part(s, pat) {
        let i = choose|i: int| occurs_at(s, pat, i);
        let a = s.take(i);
        let b = s.skip(i + pat.len());
        assert(s =~= a + s.subrange(i, i + pat.len()) + b);
        assert(s == a + pat + b);
    }
    if has_prefix(s, pat) {
        assert(s =~= s.subrange(0, pat.len() as int) + s.skip(pat.len() as int));
    }
    if has_suffix(s, pat) {
        let n = s.len() - pat.len();
        assert(s =~= s.take(n) + s.subrange(n, n + pat.len()));
    }
}

/// Trimming takes white space off both ends, all of it and nothing else.
pub proof fn law_trimmed(s: Seq<char>)
    ensures
        exists|a: Seq<char>, b: Seq<char>|
            blank_text(a) && blank_text(b) && s == #[trigger] (a + trimmed(s) + b),
        trimmed(s).len() > 0 ==> !white(trimmed(s)[0]) && !white(trimmed(s).last()),
{
    let t = trimmed_start(s);
    let a = lemma_start_split(s);
    let b = lemma_end_split(t);
    assert(a + trimmed(s) + b =~= a + (trimmed(s) + b));
    assert(blank_text(a) && blank_text(b) && s == a + trimmed(s) + b);
    if trimmed(s).len() > 0 {
        assert(trimmed(s)[0] == t[0]);
    }
}

proof fn lemma_start_split(s: Seq<char>) -> (a: Seq<char>)
    ensures
        blank_text(a),
        s == a + trimmed_start(s),
        trimmed_start(s).len() > 0 ==> !white(trimmed_start(s)[0]),
    decreases s.len(),
{
    if s.len() > 0 && white(s[0]) {
        let a = lemma_start_split(s.skip(1));
        assert(s =~= seq![s[0]] + s.skip(1));
        assert(s =~= seq![s[0]] + a + trimmed_start(s));
        seq![s[0]] + a
    } else {
        assert(Seq::<char>::empty() + s =~= s);
        Seq::empty()
    }
}

proof fn lemma_end_split(s: Seq<char>) -> (b: Seq<char>)
    ensures
        blank_text(b),
        s == trimmed_end(s) + b,
        trimmed_end(s).len() > 0 ==> !white(trimmed_end(s).last()),
    decreases s.len(),
{
    if s.len() > 0 && white(s.last()) {
        let b = lemma_end_split(s.drop_last());
        assert(s =~= s.drop_last() + seq![s.last()]);
        assert(s =~= trimmed_end(s) + (b + seq![s.last()]));
        b + seq![s.last()]
    } else {
        assert(s + Seq::<char>::empty() =~= s);
        Seq::empty()
    }
}

/// A text that does not begin or end in white space is what is left of it when
/// white space around it is trimmed.
pub proof fn law_trimmed_is(a: Seq<char>, s: Seq<char>, b: Seq<char>)
    requires
        blank_text(a),
        blank_text(b),
        s.len() > 0 ==> !white(s[0]) && !white(s.last()),
    ensures
        trimmed(a + s + b) == s,
{
    lemma_trimmed_around(a, s, b);
}

/// Of the characters of ASCII the space and those from tab to carriage return
/// are white space; no visible one is.
pub proof fn law_white(c: char)
    ensures
        c <= '\u{7f}' ==> (white(c) <==> c == ' ' || '\t' <= c <= '\r'),
        '!' <= c <= '~' ==> !white(c),
{
}

/// The copies of a character at the end of a text go, all of them and nothing
/// else.
pub proof fn law_trimmed_end_of(s: Seq<char>, c: char)
    ensures
        exists|b: Seq<char>|
            (forall|i: int| 0 <= i < b.len() ==> b[i] == c) && s == #[trigger] (trimmed_end_of(
                s,
                c,
            ) + b),
        trimmed_end_of(s, c).len() > 0 ==> trimmed_end_of(s, c).last() != c,
    decreases s.len(),
{
    if s.len() > 0 && s.last() == c {
        law_trimmed_end_of(s.drop_last(), c);
        let b = choose|b: Seq<char>|
            (forall|i: int| 0 <= i < b.len() ==> b[i] == c) && s.drop_last()
                == #[trigger] (trimmed_end_of(s.drop_last(), c) + b);
        let e = b + seq![c];
        assert(s =~= s.drop_last() + seq![c]);
        assert(s =~= trimmed_end_of(s, c) + e);
        assert forall|i: int| 0 <= i < e.len() implies e[i] == c by {}
    } else {
        let e = Seq::<char>::empty();
        assert(s =~= trimmed_end_of(s, c) + e);
    }
}

/// Replacing a character changes that character at each place and no other.
pub proof fn law_replaced(s: Seq<char>, from: char, to: char)
    ensures
        replaced(s, from, to).len() == s.len(),
        forall|i: int| 0 <= i < s.len() && s[i] == from ==> #[trigger] replaced(s, from, to)[i] == to,
        forall|i: int|
            0 <= i < s.len() && s[i] != from ==> #[trigger] replaced(s, from, to)[i] == s[i],
{
}

/// A text is given exactly where it is not empty, and given as it is.
pub proof fn law_given(s: Seq<char>)
    ensures
        unless_empty(s) is Some <==> s.len() > 0,
        unless_empty(s) matches Some(t) ==> t == s,
{
}

} // verus!
