//! Letter case and character classes, as the standard library's Unicode tables
//! have them.

use vstd::prelude::*;

use super::scan::{contains, has_part, occurs_at, same, texts, trimmed, trimmed_end, trimmed_start, white};

verus! {

/// A text in lower case.
pub uninterp spec fn lowercase(s: Seq<char>) -> Seq<char>;

/// A character is a letter or a number.
pub uninterp spec fn alphanumeric(c: char) -> bool;

/// A capital letter of ASCII.
pub open spec fn capital(c: char) -> bool {
    'A' <= c <= 'Z'
}

/// A small letter of ASCII.
pub open spec fn small(c: char) -> bool {
    'a' <= c <= 'z'
}

/// A text of ASCII characters.
pub open spec fn ascii(s: Seq<char>) -> bool {
    forall|i: int| 0 <= i < s.len() ==> #[trigger] s[i] <= '\u{7f}'
}

/// A capital letter of ASCII stands in the text.
pub open spec fn has_capital(s: Seq<char>) -> bool {
    exists|i: int| 0 <= i < s.len() && capital(#[trigger] s[i])
}

/// A text with small letters in place of the capital ones of ASCII.
pub open spec fn ascii_lowered(s: Seq<char>) -> Seq<char> {
    s.map_values(
        |c: char|
            if capital(c) {
                (c as int + 32) as char
            } else {
                c
            },
    )
}

/// A text with capital letters in place of the small ones of ASCII.
pub open spec fn ascii_raised(s: Seq<char>) -> Seq<char> {
    s.map_values(
        |c: char|
            if small(c) {
                (c as int - 32) as char
            } else {
                c
            },
    )
}

/// `str::to_lowercase`. The result depends on the text alone. A text of ASCII
/// characters gets small letters for its capital ones and stays the same
/// otherwise, and no capital letter of ASCII is left in any text; the rest
/// follows Unicode's tables, which are not restated here.
pub assume_specification[ str::to_lowercase ](s: &str) -> (r: String)
    ensures
        r@ == lowercase(s@),
        ascii(s@) ==> r@ == ascii_lowered(s@),
        !has_capital(r@),
;

/// `char::is_alphanumeric`. The result depends on the character alone; which
/// characters these are follows Unicode's tables, which are not restated here.
pub assume_specification[ char::is_alphanumeric ](c: char) -> (r: bool)
    ensures
        r == alphanumeric(c),
;

/// Letter case plays no part in what is left of a text of ASCII characters
/// without white space at its ends, once it is in small letters.
pub proof fn lemma_case_trimmed(s: Seq<char>)
    requires
        ascii(s),
    ensures
        ascii(trimmed(s)),
        ascii(trimmed(ascii_raised(s))),
        ascii_lowered(trimmed(ascii_raised(s))) == ascii_lowered(trimmed(s)),
{
    lemma_start_case(s);
    lemma_end_case(trimmed_start(s));
    let t = trimmed(s);
    lemma_start_case(t);
    assert(ascii_lowered(ascii_raised(t)) =~= ascii_lowered(t));
}

proof fn lemma_start_case(s: Seq<char>)
    requires
        ascii(s),
    ensures
        ascii(trimmed_start(s)),
        ascii(ascii_raised(s)),
        trimmed_start(ascii_raised(s)) == ascii_raised(trimmed_start(s)),
    decreases s.len(),
{
    if s.len() > 0 {
        assert(ascii_raised(s)[0] == s[0] || small(s[0]));
        if white(s[0]) {
            assert forall|i: int| 0 <= i < s.skip(1).len() implies #[trigger] s.skip(1)[i]
                <= '\u{7f}' by {
                assert(s[i + 1] <= '\u{7f}');
            }
            lemma_start_case(s.skip(1));
            assert(ascii_raised(s).skip(1) =~= ascii_raised(s.skip(1)));
        }
    }
}

proof fn lemma_end_case(s: Seq<char>)
    requires
        ascii(s),
    ensures
        ascii(trimmed_end(s)),
        trimmed_end(ascii_raised(s)) == ascii_raised(trimmed_end(s)),
    decreases s.len(),
{
    if s.len() > 0 {
        assert(ascii_raised(s).last() == s.last() || small(s.last()));
        if white(s.last()) {
            assert forall|i: int| 0 <= i < s.drop_last().len() implies #[trigger] s.drop_last()[i]
                <= '\u{7f}' by {
                assert(s[i] <= '\u{7f}');
            }
            lemma_end_case(s.drop_last());
            assert(ascii_raised(s).drop_last() =~= ascii_raised(s.drop_last()));
        }
    }
}

/// A text holds the capital letters of its parts.
pub proof fn lemma_capital_part(s: Seq<char>, q: Seq<char>)
    requires
        has_part(s, q),
        has_capital(q),
    ensures
        has_capital(s),
{
    let at = choose|at: int| occurs_at(s, q, at);
    let i = choose|i: int| 0 <= i < q.len() && capital(#[trigger] q[i]);
    assert(s.subrange(at, at + q.len())[i] == s[at + i]);
}

/// Whether `part` stands in one of `v`.
pub fn any_contains(v: &Vec<String>, part: &str) -> (r: bool)
    ensures
        r == exists|i: int| 0 <= i < v@.len() && has_part(#[trigger] texts(v@)[i], part@),
{
    let mut i: usize = 0;
    while i < v.len()
        invariant
            i <= v.len(),
            forall|k: int| 0 <= k < i ==> !has_part(#[trigger] texts(v@)[k], part@),
        decreases v.len() - i,
    {
        assert(texts(v@)[i as int] == v@[i as int]@);
        if contains(v[i].as_str(), part) {
            return true;
        }
        i += 1;
    }
    false
}

/// Whether `text` is one of `v`.
pub fn any_same(v: &Vec<String>, text: &str) -> (r: bool)
    ensures
        r == texts(v@).contains(text@),
{
    let mut i: usize = 0;
    while i < v.len()
        invariant
            i <= v.len(),
            forall|k: int| 0 <= k < i ==> #[trigger] texts(v@)[k] != text@,
        decreases v.len() - i,
    {
        assert(texts(v@)[i as int] == v@[i as int]@);
        if same(v[i].as_str(), text) {
            return true;
        }
        i += 1;
    }
    false
}

/// The two cases of ASCII: each capital letter has the small one that stands
/// thirty-two places on, and no other character changes.
pub proof fn law_cases(s: Seq<char>, i: int)
    requires
        0 <= i < s.len(),
    ensures
        ascii_lowered(s).len() == s.len() && ascii_raised(s).len() == s.len(),
        'A' <= s[i] <= 'Z' ==> ascii_lowered(s)[i] as int == s[i] as int + 32,
        !('A' <= s[i] <= 'Z') ==> ascii_lowered(s)[i] == s[i],
        'a' <= s[i] <= 'z' ==> ascii_raised(s)[i] as int == s[i] as int - 32,
        !('a' <= s[i] <= 'z') ==> ascii_raised(s)[i] == s[i],
        'A' <= s[i] <= 'Z' ==> has_capital(s),
        ascii(s) ==> s[i] as int <= 127,
{
}

} // verus!
