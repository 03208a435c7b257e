//! Splitting text into pieces, words and lines, and joining pieces.

use vstd::prelude::*;

use super::scan::{blank_text, chars_of, has_part, is_white, law_parts, lemma_part_of_part, occurs_at,
    skip_white, stands_at, string_range, texts, trimmed_start, white};

verus! {

/// The length of the longest prefix of `s` that is free of `c`.
pub open spec fn run_until(s: Seq<char>, c: char) -> nat
    decreases s.len(),
{
    if s.len() == 0 || s[0] == c {
        0
    } else {
        1 + run_until(s.skip(1), c)
    }
}

/// The pieces of `s` between the copies of `sep`; one more than there are copies.
pub open spec fn pieces(s: Seq<char>, sep: char) -> Seq<Seq<char>>
    decreases s.len(),
{
    let n = run_until(s, sep) as int;
    if 0 <= n < s.len() {
        seq![s.take(n)] + pieces(s.skip(n + 1), sep)
    } else {
        seq![s]
    }
}

/// The least position at or after `from` at which `pat` stands in `s`.
pub open spec fn first_at(s: Seq<char>, pat: Seq<char>, from: int) -> Option<int>
    decreases s.len() + 1 - from,
{
    if from + pat.len() > s.len() {
        None
    } else if occurs_at(s, pat, from) {
        Some(from)
    } else {
        first_at(s, pat, from + 1)
    }
}

/// What stands before and after the first `pat` in `s`.
pub open spec fn around_first(s: Seq<char>, pat: Seq<char>) -> Option<(Seq<char>, Seq<char>)> {
    match first_at(s, pat, 0) {
        Some(i) => Some((s.take(i), s.skip(i + pat.len()))),
        None => None,
    }
}

/// The length of the longest prefix of `s` that is free of white space.
pub open spec fn word_len(s: Seq<char>) -> nat
    decreases s.len(),
{
    if s.len() == 0 || white(s[0]) {
        0
    } else {
        1 + word_len(s.skip(1))
    }
}

/// The maximal runs of characters other than white space.
pub open spec fn words(s: Seq<char>) -> Seq<Seq<char>>
    decreases s.len(),
    via words_decreases
{
    let t = trimmed_start(s);
    if t.len() == 0 {
        seq![]
    } else {
        let n = word_len(t) as int;
        seq![t.take(n)] + words(t.skip(n))
    }
}

#[via_fn]
proof fn words_decreases(s: Seq<char>) {
    lemma_trimmed_start(s);
    lemma_word_len(trimmed_start(s));
    reveal_with_fuel(word_len, 2);
}

/// `s` without one carriage return at its end.
pub open spec fn without_cr(s: Seq<char>) -> Seq<char> {
    if s.len() > 0 && s.last() == '\r' {
        s.drop_last()
    } else {
        s
    }
}

/// The lines of `s`. A line ends in a line feed, or a carriage return and a
/// line feed; the last line may lack its ending, and then keeps a carriage
/// return.
pub open spec fn lines_of(s: Seq<char>) -> Seq<Seq<char>>
    decreases s.len(),
{
    if s.len() == 0 {
        seq![]
    } else {
        let n = run_until(s, '\n') as int;
        if 0 <= n < s.len() {
            seq![without_cr(s.take(n))] + lines_of(s.skip(n + 1))
        } else {
            seq![s]
        }
    }
}

/// The parts with `sep` between each two of them.
pub open spec fn joined_by(parts: Seq<Seq<char>>, sep: Seq<char>) -> Seq<char>
    decreases parts.len(),
{
    if parts.len() == 0 {
        seq![]
    } else if parts.len() == 1 {
        parts[0]
    } else {
        joined_by(parts.drop_last(), sep) + sep + parts.last()
    }
}

pub proof fn lemma_run_until(s: Seq<char>, c: char)
    ensures
        run_until(s, c) <= s.len(),
        forall|k: int| 0 <= k < run_until(s, c) ==> s[k] != c,
        run_until(s, c) < s.len() ==> s[run_until(s, c) as int] == c,
    decreases s.len(),
{
    if s.len() > 0 && s[0] != c {
        let t = s.skip(1);
        lemma_run_until(t, c);
        assert forall|k: int| 0 <= k < run_until(s, c) implies s[k] != c by {
            if k > 0 {
                assert(s[k] == t[k - 1]);
            }
        }
    }
}

/// A position that holds the first `c` is where the run without it ends.
pub proof fn lemma_run_until_is(s: Seq<char>, c: char, n: int)
    requires
        0 <= n <= s.len(),
        forall|k: int| 0 <= k < n ==> s[k] != c,
        n < s.len() ==> s[n] == c,
    ensures
        run_until(s, c) == n,
{
    lemma_run_until(s, c);
    let m = run_until(s, c) as int;
    if m < n {
        assert(s[m] == c);
    } else if n < m {
        assert(s[n] != c);
    }
}

/// Text without the separator is one piece.
pub proof fn lemma_pieces_single(s: Seq<char>, sep: char)
    requires
        !s.contains(sep),
    ensures
        pieces(s, sep) == seq![s],
{
    lemma_run_until_is(s, sep, s.len() as int);
}

/// The piece before the first separator comes first.
pub proof fn lemma_pieces_head(a: Seq<char>, b: Seq<char>, sep: char)
    requires
        !a.contains(sep),
    ensures
        pieces(a + seq![sep] + b, sep) == seq![a] + pieces(b, sep),
{
    let s = a + seq![sep] + b;
    assert forall|k: int| 0 <= k < a.len() implies s[k] != sep by {
        assert(a.contains(a[k]));
    }
    lemma_run_until_is(s, sep, a.len() as int);
    assert(s.take(a.len() as int) == a);
    assert(s.skip(a.len() + 1int) == b);
}

/// The first occurrence is the one that no other precedes.
pub proof fn lemma_first_at_is(s: Seq<char>, pat: Seq<char>, from: int, i: int)
    requires
        from <= i,
        occurs_at(s, pat, i),
        forall|k: int| from <= k < i ==> !occurs_at(s, pat, k),
    ensures
        first_at(s, pat, from) == Some(i),
    decreases i - from,
{
    if from < i {
        assert(!occurs_at(s, pat, from));
        lemma_first_at_is(s, pat, from + 1, i);
    }
}

/// A first occurrence is an occurrence, and none precedes it; where there is
/// no first occurrence there is none at all.
pub proof fn lemma_first_at(s: Seq<char>, pat: Seq<char>, from: int)
    requires
        0 <= from,
    ensures
        match first_at(s, pat, from) {
            Some(i) => from <= i && occurs_at(s, pat, i) && forall|k: int|
                from <= k < i ==> !occurs_at(s, pat, k),
            None => forall|k: int| from <= k ==> !occurs_at(s, pat, k),
        },
    decreases s.len() + 1 - from,
{
    if from + pat.len() <= s.len() && !occurs_at(s, pat, from) {
        lemma_first_at(s, pat, from + 1);
    }
}

pub proof fn lemma_trimmed_start(s: Seq<char>)
    ensures
        trimmed_start(s).len() <= s.len(),
        trimmed_start(s).len() > 0 ==> !white(trimmed_start(s)[0]),
    decreases s.len(),
{
    if s.len() > 0 && white(s[0]) {
        lemma_trimmed_start(s.skip(1));
    }
}

pub proof fn lemma_word_len(s: Seq<char>)
    ensures
        word_len(s) <= s.len(),
        s.len() > 0 && !white(s[0]) ==> word_len(s) > 0,
        forall|k: int| 0 <= k < word_len(s) ==> !white(s[k]),
        word_len(s) < s.len() ==> white(s[word_len(s) as int]),
    decreases s.len(),
{
    if s.len() > 0 && !white(s[0]) {
        let t = s.skip(1);
        lemma_word_len(t);
        assert forall|k: int| 0 <= k < word_len(s) implies !white(s[k]) by {
            if k > 0 {
                assert(s[k] == t[k - 1]);
            }
        }
    }
}

/// A nonempty list of parts begins with its first part.
pub proof fn lemma_joined_front(parts: Seq<Seq<char>>, sep: Seq<char>)
    requires
        parts.len() > 1,
    ensures
        joined_by(parts, sep) == parts[0] + sep + joined_by(parts.skip(1), sep),
    decreases parts.len(),
{
    if parts.len() == 2 {
        assert(parts.drop_last() == seq![parts[0]]);
        assert(parts.skip(1) == seq![parts[1]]);
        assert(joined_by(parts.drop_last(), sep) == parts[0]);
        assert(joined_by(parts.skip(1), sep) == parts[1]);
    } else {
        lemma_joined_front(parts.drop_last(), sep);
        assert(parts.drop_last().skip(1) == parts.skip(1).drop_last());
        assert(parts.skip(1).last() == parts.last());
        assert(joined_by(parts, sep) =~= parts[0] + sep + joined_by(parts.skip(1), sep));
    }
}

/// `w` is a word: it is not empty and holds no white space.
pub open spec fn is_word(w: Seq<char>) -> bool {
    w.len() > 0 && forall|i: int| 0 <= i < w.len() ==> !white(#[trigger] w[i])
}

/// The words of a text are words.
pub proof fn lemma_words_are_words(s: Seq<char>)
    ensures
        forall|i: int| 0 <= i < words(s).len() ==> is_word(#[trigger] words(s)[i]),
    decreases s.len(),
{
    let t = trimmed_start(s);
    lemma_trimmed_start(s);
    lemma_word_len(t);
    if t.len() > 0 {
        let n = word_len(t) as int;
        reveal_with_fuel(word_len, 2);
        lemma_words_are_words(t.skip(n));
        assert(words(s) == seq![t.take(n)] + words(t.skip(n)));
        assert forall|i: int| 0 <= i < words(s).len() implies is_word(#[trigger] words(s)[i]) by {
            if i > 0 {
                assert(words(s)[i] == words(t.skip(n))[i - 1]);
            }
        }
    }
}

/// The separator stands in none of the pieces.
pub proof fn lemma_pieces_free(s: Seq<char>, sep: char)
    ensures
        forall|i: int| 0 <= i < pieces(s, sep).len() ==> !(#[trigger] pieces(s, sep)[i]).contains(sep),
    decreases s.len(),
{
    lemma_run_until(s, sep);
    let n = run_until(s, sep) as int;
    if n < s.len() {
        lemma_pieces_free(s.skip(n + 1), sep);
        assert forall|i: int| 0 <= i < pieces(s, sep).len() implies !(#[trigger] pieces(
            s,
            sep,
        )[i]).contains(sep) by {
            if i > 0 {
                assert(pieces(s, sep)[i] == pieces(s.skip(n + 1), sep)[i - 1]);
            }
        }
    }
}

/// The word that a text begins with is as long as it is.
pub proof fn lemma_word_len_is(s: Seq<char>, n: int)
    requires
        0 <= n <= s.len(),
        forall|k: int| 0 <= k < n ==> !white(#[trigger] s[k]),
        n < s.len() ==> white(s[n]),
    ensures
        word_len(s) == n,
{
    lemma_word_len(s);
    let m = word_len(s) as int;
    if m < n {
        assert(white(s[m]));
    } else if n < m {
        assert(!white(s[n]));
    }
}

/// Splitting words undoes joining them with spaces.
pub proof fn lemma_words_joined(parts: Seq<Seq<char>>)
    requires
        forall|i: int| 0 <= i < parts.len() ==> is_word(#[trigger] parts[i]),
    ensures
        words(joined_by(parts, seq![' '])) == parts,
    decreases parts.len(),
{
    let s = joined_by(parts, seq![' ']);
    if parts.len() == 0 {
        assert(words(s) =~= parts);
    } else {
        let w = parts[0];
        assert(is_word(w));
        assert(!white(w[0]));
        if parts.len() == 1 {
            lemma_word_len_is(s, s.len() as int);
            assert(s.take(s.len() as int) == s);
            assert(s.skip(s.len() as int) == Seq::<char>::empty());
            assert(trimmed_start(Seq::<char>::empty()).len() == 0);
            assert(words(Seq::<char>::empty()) =~= Seq::<Seq<char>>::empty());
            assert(words(s) =~= parts);
        } else {
            let rest = joined_by(parts.skip(1), seq![' ']);
            lemma_joined_front(parts, seq![' ']);
            let n = w.len() as int;
            assert(s[0] == w[0]);
            assert forall|k: int| 0 <= k < n implies !white(#[trigger] s[k]) by {
                assert(s[k] == w[k]);
            }
            assert(s[n] == ' ');
            lemma_word_len_is(s, n);
            assert(s.take(n) == w);
            let u = s.skip(n);
            assert(u[0] == ' ');
            assert(u.skip(1) == rest);
            assert(trimmed_start(u) == trimmed_start(rest));
            assert(words(u) == words(rest));
            assert forall|i: int| 0 <= i < parts.skip(1).len() implies is_word(
                #[trigger] parts.skip(1)[i],
            ) by {
                assert(parts.skip(1)[i] == parts[i + 1]);
            }
            lemma_words_joined(parts.skip(1));
            assert(words(s) =~= seq![w] + parts.skip(1));
            assert(words(s) =~= parts);
        }
    }
}

/// The first position at or after `from` that holds `c`, or the length.
pub fn find_char(v: &Vec<char>, from: usize, c: char) -> (r: usize)
    requires
        from <= v.len(),
    ensures
        r == from + run_until(v@.skip(from as int), c),
        from <= r <= v.len(),
{
    let mut i: usize = from;
    while i < v.len() && v[i] != c
        invariant
            from <= i <= v.len(),
            from + run_until(v@.skip(from as int), c) == i + run_until(v@.skip(i as int), c),
        decreases v.len() - i,
    {
        assert(v@.skip(i as int).skip(1) == v@.skip(i + 1));
        i += 1;
    }
    i
}

/// Splits `s` at every `sep`.
pub fn split(s: &str, sep: char) -> (r: Vec<String>)
    ensures
        texts(r@) == pieces(s@, sep),
{
    let v: Vec<char> = chars_of(s);
    let mut r: Vec<String> = Vec::new();
    let mut start: usize = 0;
    assert(v@.skip(0) == v@);
    assert(texts(r@) + pieces(v@, sep) == pieces(v@, sep));
    loop
        invariant
            start <= v.len(),
            v@ == s@,
            texts(r@) + pieces(v@.skip(start as int), sep) == pieces(v@, sep),
        decreases v.len() - start,
    {
        let ghost rest = v@.skip(start as int);
        let end: usize = find_char(&v, start, sep);
        proof {
            lemma_run_until(rest, sep);
        }
        let ghost before = texts(r@);
        let piece: String = string_range(&v, start, end);
        assert(piece@ == rest.take(end - start));
        r.push(piece);
        assert(texts(r@) =~= before.push(piece@));
        if end == v.len() {
            assert(rest.take(end - start) == rest);
            assert(texts(r@) =~= before + pieces(rest, sep));
            return r;
        }
        assert(rest.skip(end - start + 1) == v@.skip(end + 1));
        assert(texts(r@) + pieces(v@.skip(end + 1), sep) =~= before + pieces(rest, sep));
        start = end + 1;
    }
}

/// Splits `s` around the first `pat`.
pub fn split_once(s: &str, pat: &str) -> (r: Option<(String, String)>)
    ensures
        match r {
            Some(p) => around_first(s@, pat@) == Some((p.0@, p.1@)),
            None => around_first(s@, pat@) is None,
        },
{
    let v: Vec<char> = chars_of(s);
    let p: Vec<char> = chars_of(pat);
    if v.len() < p.len() {
        return None;
    }
    let last: usize = v.len() - p.len();
    let mut i: usize = 0;
    while i <= last
        invariant
            i <= last + 1,
            last == v.len() - p.len(),
            v@ == s@,
            p@ == pat@,
            first_at(v@, p@, 0) == first_at(v@, p@, i as int),
        decreases last + 1 - i,
    {
        if stands_at(&v, &p, i) {
            let a: String = string_range(&v, 0, i);
            let b: String = string_range(&v, i + p.len(), v.len());
            assert(b@ == v@.skip(i + p@.len()));
            return Some((a, b));
        }
        if i == last {
            assert(first_at(v@, p@, i + 1) is None);
            return None;
        }
        i += 1;
    }
    None
}

/// Splits `s` into its words.
pub fn split_whitespace(s: &str) -> (r: Vec<String>)
    ensures
        texts(r@) == words(s@),
{
    let v: Vec<char> = chars_of(s);
    let mut r: Vec<String> = Vec::new();
    let mut at: usize = 0;
    assert(v@.skip(0) == v@);
    assert(texts(r@) + words(v@) == words(v@));
    loop
        invariant
            at <= v.len(),
            v@ == s@,
            texts(r@) + words(v@.skip(at as int)) == words(v@),
        decreases v.len() - at,
    {
        let start: usize = skip_white(&v, at);
        let ghost t = v@.skip(start as int);
        if start == v.len() {
            assert(texts(r@) + words(v@.skip(at as int)) =~= texts(r@));
            return r;
        }
        let mut end: usize = start;
        while end < v.len() && !is_white(v[end])
            invariant
                start <= end <= v.len(),
                start + word_len(v@.skip(start as int)) == end + word_len(v@.skip(end as int)),
            decreases v.len() - end,
        {
            assert(v@.skip(end as int).skip(1) == v@.skip(end + 1));
            end += 1;
        }
        proof {
            lemma_word_len(t);
        }
        let ghost before = texts(r@);
        let word: String = string_range(&v, start, end);
        assert(word@ == t.take(end - start));
        r.push(word);
        assert(texts(r@) =~= before.push(word@));
        assert(t.skip(end - start) == v@.skip(end as int));
        assert(texts(r@) + words(v@.skip(end as int)) =~= before + words(v@.skip(at as int)));
        at = end;
    }
}

/// Splits `s` into its lines.
pub fn lines(s: &str) -> (r: Vec<String>)
    ensures
        texts(r@) == lines_of(s@),
{
    let v: Vec<char> = chars_of(s);
    let mut r: Vec<String> = Vec::new();
    let mut start: usize = 0;
    assert(v@.skip(0) == v@);
    assert(texts(r@) + lines_of(v@) == lines_of(v@));
    while start < v.len()
        invariant
            start <= v.len(),
            v@ == s@,
            texts(r@) + lines_of(v@.skip(start as int)) == lines_of(v@),
        decreases v.len() - start,
    {
        let ghost rest = v@.skip(start as int);
        let end: usize = find_char(&v, start, '\n');
        proof {
            lemma_run_until(rest, '\n');
        }
        let ghost before = texts(r@);
        if end == v.len() {
            let line: String = string_range(&v, start, end);
            assert(line@ == rest);
            r.push(line);
            assert(texts(r@) =~= before.push(line@));
            assert(texts(r@) =~= before + lines_of(rest));
            return r;
        }
        let stop: usize = if start < end && v[end - 1] == '\r' { end - 1 } else { end };
        let line: String = string_range(&v, start, stop);
        assert(line@ =~= without_cr(rest.take(end - start)));
        r.push(line);
        assert(texts(r@) =~= before.push(line@));
        assert(rest.skip(end - start + 1) == v@.skip(end + 1));
        assert(texts(r@) + lines_of(v@.skip(end + 1)) =~= before + lines_of(rest));
        start = end + 1;
    }
    assert(texts(r@) + lines_of(v@.skip(start as int)) =~= texts(r@));
    r
}

/// Joins `parts` with `sep` between each two of them.
pub fn join(parts: &Vec<String>, sep: &str) -> (r: String)
    ensures
        r@ == joined_by(texts(parts@), sep@),
{
    let mut r: String = String::new();
    let mut i: usize = 0;
    while i < parts.len()
        invariant
            i <= parts.len(),
            r@ == joined_by(texts(parts@).take(i as int), sep@),
        decreases parts.len() - i,
    {
        if i > 0 {
            r.append(sep);
        }
        r.append(parts[i].as_str());
        i += 1;
        assert(texts(parts@).take(i as int).drop_last() == texts(parts@).take(i - 1));
        assert(r@ =~= joined_by(texts(parts@).take(i as int), sep@));
    }
    assert(texts(parts@).take(parts@.len() as int) == texts(parts@));
    r
}

/// The first separator ends the first piece, and the pieces after it are those
/// of the rest; without a separator there is one piece.
pub proof fn law_pieces(a: Seq<char>, b: Seq<char>, sep: char)
    requires
        !a.contains(sep),
    ensures
        pieces(a, sep) == seq![a],
        pieces(a + seq![sep] + b, sep) == seq![a] + pieces(b, sep),
{
    lemma_pieces_single(a, sep);
    lemma_pieces_head(a, b, sep);
}

/// A line feed ends a line, with the carriage return before it where there is
/// one; the last line needs none.
pub proof fn law_lines(line: Seq<char>, rest: Seq<char>)
    requires
        !line.contains('\n'),
    ensures
        lines_of(Seq::empty()) == Seq::<Seq<char>>::empty(),
        line.len() > 0 ==> lines_of(line) == seq![line],
        lines_of(line + seq!['\r', '\n'] + rest) == seq![line] + lines_of(rest),
        (line.len() == 0 || line.last() != '\r') ==> lines_of(line + seq!['\n'] + rest) == seq![line]
            + lines_of(rest),
{
    assert forall|k: int| 0 <= k < line.len() implies line[k] != '\n' by {
        assert(line.contains(line[k]));
    }
    let n = line.len() as int;
    lemma_run_until_is(line, '\n', n);
    let s = line + seq!['\n'] + rest;
    lemma_run_until_is(s, '\n', n);
    assert(s.take(n) =~= line);
    assert(s.skip(n + 1) =~= rest);
    let c = line + seq!['\r'];
    let t = line + seq!['\r', '\n'] + rest;
    assert(t[n] == '\r' && t[n + 1] == '\n');
    lemma_run_until_is(t, '\n', n + 1);
    assert(t.take(n + 1) =~= c);
    assert(c.drop_last() =~= line);
    assert(t.skip(n + 2) =~= rest);
}

/// What stands before and after the first copy of `pat`: the copy between them
/// is in the text, and none is in what comes before it.
pub proof fn law_around_first(s: Seq<char>, pat: Seq<char>)
    ensures
        around_first(s, pat) is Some <==> exists|i: int| occurs_at(s, pat, i),
        around_first(s, pat) matches Some((a, b)) ==> s == a + pat + b && forall|k: int|
            0 <= k < a.len() ==> !occurs_at(s, pat, k),
{
    lemma_first_at(s, pat, 0);
    if let Some(i) = first_at(s, pat, 0) {
        assert(s =~= s.take(i) + s.subrange(i, i + pat.len()) + s.skip(i + pat.len()));
        assert(s == s.take(i) + pat + s.skip(i + pat.len()));
    }
}

/// The words of a text are those before a gap of white space and those after
/// it; a word by itself is its only word, and white space holds none.
pub proof fn law_words(a: Seq<char>, gap: Seq<char>, b: Seq<char>)
    requires
        blank_text(gap),
        gap.len() > 0,
    ensures
        words(a + gap + b) == words(a) + words(b),
        words(gap) == Seq::<Seq<char>>::empty(),
    decreases a.len(),
{
    lemma_words_blank(gap, Seq::empty());
    assert(gap + Seq::<char>::empty() =~= gap);
    assert(words(Seq::<char>::empty()) =~= Seq::<Seq<char>>::empty()) by {
        assert(trimmed_start(Seq::<char>::empty()).len() == 0);
    }
    let s = a + gap + b;
    if a.len() == 0 {
        assert(s =~= gap + b);
        lemma_words_blank(gap, b);
        assert(a =~= Seq::<char>::empty());
        assert(Seq::<Seq<char>>::empty() + words(b) =~= words(b));
    } else if white(a[0]) {
        let t = a.skip(1);
        law_words(t, gap, b);
        assert(s.skip(1) =~= t + gap + b);
        assert(s[0] == a[0]);
        assert(trimmed_start(s) == trimmed_start(s.skip(1)));
        assert(trimmed_start(a) == trimmed_start(t));
        lemma_words_of_trimmed(s);
        lemma_words_of_trimmed(s.skip(1));
        lemma_words_of_trimmed(a);
        lemma_words_of_trimmed(t);
    } else {
        lemma_word_len(a);
        let n = word_len(a) as int;
        assert(s[0] == a[0]);
        assert forall|k: int| 0 <= k < n implies !white(#[trigger] s[k]) by {
            assert(s[k] == a[k]);
        }
        if n < a.len() {
            assert(s[n] == a[n]);
        } else {
            assert(s[n] == gap[0]);
        }
        lemma_word_len_is(s, n);
        assert(s.take(n) =~= a.take(n));
        assert(s.skip(n) =~= a.skip(n) + gap + b);
        law_words(a.skip(n), gap, b);
        assert(words(s) == seq![s.take(n)] + words(s.skip(n)));
        assert(words(a) == seq![a.take(n)] + words(a.skip(n)));
        assert(words(s) =~= words(a) + words(b));
    }
}

/// A word by itself is its only word.
pub proof fn law_word(w: Seq<char>)
    requires
        is_word(w),
    ensures
        words(w) == seq![w],
{
    let one = seq![w];
    assert(joined_by(one, seq![' ']) == w);
    lemma_words_joined(one);
}

proof fn lemma_words_of_trimmed(s: Seq<char>)
    ensures
        words(s) == words(trimmed_start(s)),
{
    lemma_trimmed_start(s);
    let t = trimmed_start(s);
    assert(trimmed_start(t) == t);
}

proof fn lemma_words_blank(gap: Seq<char>, b: Seq<char>)
    requires
        blank_text(gap),
    ensures
        words(gap + b) == words(b),
    decreases gap.len(),
{
    if gap.len() == 0 {
        assert(gap + b =~= b);
    } else {
        let s = gap + b;
        let g = gap.skip(1);
        assert(white(gap[0]));
        assert forall|i: int| 0 <= i < g.len() implies white(#[trigger] g[i]) by {
            assert(white(gap[i + 1]));
        }
        assert(s[0] == gap[0]);
        assert(s.skip(1) =~= g + b);
        lemma_words_blank(g, b);
        assert(trimmed_start(s) == trimmed_start(s.skip(1)));
        lemma_words_of_trimmed(s);
        lemma_words_of_trimmed(s.skip(1));
    }
}

/// Joined parts are the first ones, the separator and the last one; one part by
/// itself gets no separator.
pub proof fn law_joined(parts: Seq<Seq<char>>, last: Seq<char>, sep: Seq<char>)
    ensures
        joined_by(Seq::empty(), sep) == Seq::<char>::empty(),
        joined_by(seq![last], sep) == last,
        parts.len() > 0 ==> joined_by(parts.push(last), sep) == joined_by(parts, sep) + sep + last,
{
    assert(parts.push(last).drop_last() =~= parts);
}

/// Each part stands in the joined text.
pub proof fn law_joined_holds(parts: Seq<Seq<char>>, sep: Seq<char>, i: int)
    requires
        0 <= i < parts.len(),
    ensures
        has_part(joined_by(parts, sep), parts[i]),
    decreases parts.len(),
{
    let s = joined_by(parts, sep);
    if parts.len() == 1 {
        law_parts(Seq::empty(), parts[0], Seq::empty());
        assert(Seq::<char>::empty() + parts[0] + Seq::<char>::empty() =~= parts[0]);
    } else if i == parts.len() - 1 {
        let front = joined_by(parts.drop_last(), sep) + sep;
        law_parts(front, parts[i], Seq::empty());
        assert(front + parts[i] + Seq::<char>::empty() =~= s);
    } else {
        let init = parts.drop_last();
        law_joined_holds(init, sep, i);
        assert(init[i] == parts[i]);
        law_parts(Seq::empty(), joined_by(init, sep), sep + parts.last());
        assert(Seq::<char>::empty() + joined_by(init, sep) + (sep + parts.last()) =~= s);
        lemma_part_of_part(s, joined_by(init, sep), parts[i]);
    }
}

} // verus!
