//! Search over profile records.

use vstd::prelude::*;

use crate::data::{records, Profile, ProfileTitle, RecordView};
use crate::domain::profile::{display_name, format_names, format_with_id, join_nonempty, model_text,
    title_text, TitleView};
use crate::text::case::{ascii, ascii_lowered, ascii_raised, has_capital, lemma_capital_part,
    lemma_case_trimmed, lowercase};
use crate::text::scan::{blank_text, contains, has_part, lemma_part_of_part, lemma_trimmed_around, same,
    texts, trim, trimmed};
use crate::text::split::joined_by;

verus! {

/// The texts of a record's titles.
pub open spec fn record_titles(p: RecordView) -> Seq<Seq<char>> {
    p.titles.map_values(|t: TitleView| title_text(t))
}

/// The display names of a record, one for each title.
pub open spec fn record_names(p: RecordView) -> Seq<Seq<char>> {
    record_titles(p).map_values(|t: Seq<char>| display_name(t, p.id))
}

/// The query stands in the full title, or in vendor, model and variant, both in
/// lower case.
pub open spec fn title_hit(t: TitleView, query: Seq<char>) -> bool {
    ||| t.title matches Some(full) && has_part(lowercase(full), query)
    ||| has_part(lowercase(model_text(t)), query)
}

/// The query stands in the identifier or in one of the titles.
pub open spec fn record_matches(p: RecordView, query: Seq<char>) -> bool {
    ||| has_part(lowercase(p.id), query)
    ||| exists|i: int| 0 <= i < p.titles.len() && title_hit(#[trigger] p.titles[i], query)
}

/// The display names of the records that match.
pub open spec fn matching_records(s: Seq<RecordView>, query: Seq<char>) -> Seq<Seq<char>>
    decreases s.len(),
{
    if s.len() == 0 {
        seq![]
    } else {
        matching_records(s.drop_last(), query) + if record_matches(s.last(), query) {
            record_names(s.last())
        } else {
            seq![]
        }
    }
}

/// One of the record's display names is `name`, in lower case.
pub open spec fn record_named(p: RecordView, name: Seq<char>) -> bool {
    exists|i: int|
        0 <= i < record_names(p).len() && lowercase(#[trigger] record_names(p)[i]) == name
}

/// Vendor and model, and the variant where there is one.
pub fn format_model(t: &ProfileTitle) -> (r: String)
    ensures
        r@ == model_text(t@),
{
    format_names(&t.vendor, &t.model, &t.variant)
}

/// The texts of the titles.
fn title_strings(p: &Profile) -> (r: Vec<String>)
    ensures
        texts(r@) == record_titles(p@),
{
    let mut r: Vec<String> = Vec::new();
    let mut i: usize = 0;
    while i < p.titles.len()
        invariant
            i <= p.titles.len(),
            texts(r@) == record_titles(p@).take(i as int),
        decreases p.titles.len() - i,
    {
        let ghost r0 = texts(r@);
        r.push(p.titles[i].to_string());
        i += 1;
        assert(texts(r@) =~= r0.push(record_titles(p@)[i - 1]));
        assert(texts(r@) =~= record_titles(p@).take(i as int));
    }
    assert(texts(r@) =~= record_titles(p@));
    r
}

/// The display names, one for each title.
pub fn format_profile(p: &Profile) -> (r: Vec<String>)
    ensures
        texts(r@) == record_names(p@),
{
    format_with_id(&title_strings(p), p.id.as_str())
}

/// The titles that are not empty, with slashes between them.
pub fn get_all_models_string(p: &Profile) -> (r: String)
    ensures
        r@ == joined_by(record_titles(p@).filter(|s: Seq<char>| s.len() > 0), " / "@),
{
    join_nonempty(&title_strings(p))
}

/// Whether `text` in lower case holds `query`.
fn holds(text: &str, query: &str) -> (r: bool)
    ensures
        r == has_part(lowercase(text@), query@),
        has_capital(query@) ==> !r,
{
    let low: String = text.to_lowercase();
    let r: bool = contains(low.as_str(), query);
    proof {
        if r && has_capital(query@) {
            lemma_capital_part(low@, query@);
        }
    }
    r
}

/// Whether `query` stands in the identifier or a title. The query is to be in
/// lower case; one with a capital letter stands nowhere.
pub fn profile_matches(p: &Profile, query: &str) -> (r: bool)
    ensures
        r == record_matches(p@, query@),
        has_capital(query@) ==> !r,
{
    if holds(p.id.as_str(), query) {
        return true;
    }
    let mut i: usize = 0;
    while i < p.titles.len()
        invariant
            i <= p.titles.len(),
            !has_part(lowercase(p@.id), query@),
            forall|k: int| 0 <= k < i ==> !title_hit(#[trigger] p@.titles[k], query@),
        decreases p.titles.len() - i,
    {
        let t: &ProfileTitle = &p.titles[i];
        assert(p@.titles[i as int] == t@);
        if let Some(full) = &t.title {
            if holds(full.as_str(), query) {
                return true;
            }
        }
        if holds(format_model(t).as_str(), query) {
            return true;
        }
        i += 1;
    }
    false
}

/// The display names of the records that match `query`.
pub fn filter_profiles(profiles: &[Profile], query: &str) -> (r: Vec<String>)
    ensures
        texts(r@) == matching_records(records(profiles@), lowercase(trimmed(query@))),
        ascii(trimmed(query@)) ==> texts(r@) == matching_records(
            records(profiles@),
            ascii_lowered(trimmed(query@)),
        ),
{
    let query: String = trim(query).as_str().to_lowercase();
    let ghost all = records(profiles@);
    let mut r: Vec<String> = Vec::new();
    let mut i: usize = 0;
    while i < profiles.len()
        invariant
            i <= profiles@.len(),
            all == records(profiles@),
            texts(r@) == matching_records(all.take(i as int), query@),
        decreases profiles@.len() - i,
    {
        let ghost r0 = texts(r@);
        let p: &Profile = &profiles[i];
        assert(p@ == all[i as int]);
        if profile_matches(p, query.as_str()) {
            let mut names: Vec<String> = format_profile(p);
            let ghost n0 = texts(names@);
            r.append(&mut names);
            assert(texts(r@) =~= r0 + n0);
        }
        i += 1;
        assert(all.take(i as int).drop_last() == all.take(i - 1));
        assert(texts(r@) =~= matching_records(all.take(i as int), query@));
    }
    assert(all.take(all.len() as int) == all);
    r
}

/// Whether one of the display names is `name`. The name is to be in lower case.
fn has_name(p: &Profile, name: &str) -> (r: bool)
    ensures
        r == record_named(p@, name@),
{
    let names: Vec<String> = format_profile(p);
    let mut i: usize = 0;
    while i < names.len()
        invariant
            i <= names.len(),
            texts(names@) == record_names(p@),
            forall|k: int| 0 <= k < i ==> lowercase(#[trigger] record_names(p@)[k]) != name@,
        decreases names.len() - i,
    {
        assert(names@[i as int]@ == texts(names@)[i as int]);
        if same(names[i].as_str().to_lowercase().as_str(), name) {
            return true;
        }
        i += 1;
    }
    assert(record_names(p@).len() == names@.len());
    false
}

/// The first record with that display name.
pub fn find_profile_by_display_name(profiles: &[Profile], name: &str) -> (r: Option<Profile>)
    ensures
        match r {
            Some(p) => exists|k: int|
                0 <= k < profiles@.len() && p@ == (#[trigger] records(profiles@)[k])
                    && record_named(p@, lowercase(trimmed(name@))) && forall|j: int|
                    0 <= j < k ==> !record_named(
                        #[trigger] records(profiles@)[j],
                        lowercase(trimmed(name@)),
                    ),
            None => forall|j: int|
                0 <= j < profiles@.len() ==> !record_named(
                    #[trigger] records(profiles@)[j],
                    lowercase(trimmed(name@)),
                ),
        },
{
    let wanted: String = trim(name).as_str().to_lowercase();
    let mut i: usize = 0;
    while i < profiles.len()
        invariant
            i <= profiles@.len(),
            wanted@ == lowercase(trimmed(name@)),
            forall|j: int| 0 <= j < i ==> !record_named(#[trigger] records(profiles@)[j], wanted@),
        decreases profiles@.len() - i,
    {
        let p: &Profile = &profiles[i];
        assert(p@ == records(profiles@)[i as int]);
        if has_name(p, wanted.as_str()) {
            return Some(p.clone());
        }
        i += 1;
    }
    None
}

/// A full title hides vendor, model and variant from the display name, but not
/// from the search: the record matches a query that stands in either.
pub proof fn law_model_searchable(p: RecordView, i: int, query: Seq<char>)
    requires
        0 <= i < p.titles.len(),
        has_part(lowercase(model_text(p.titles[i])), query) || has_part(
            lowercase(title_text(p.titles[i])),
            query,
        ),
    ensures
        record_matches(p, query),
{
    assert(title_hit(p.titles[i], query));
}

/// White space around a query plays no part in a filtered list.
pub proof fn law_record_query_space(
    s: Seq<RecordView>,
    a: Seq<char>,
    query: Seq<char>,
    b: Seq<char>,
)
    requires
        blank_text(a),
        blank_text(b),
    ensures
        matching_records(s, lowercase(trimmed(a + query + b))) == matching_records(
            s,
            lowercase(trimmed(query)),
        ),
{
    lemma_trimmed_around(a, query, b);
}

/// The case of the letters of a query plays no part in a filtered list, where
/// the query is of ASCII characters.
pub proof fn law_record_query_case(s: Seq<RecordView>, query: Seq<char>)
    requires
        ascii(query),
    ensures
        ascii(trimmed(query)),
        ascii(trimmed(ascii_raised(query))),
        matching_records(s, ascii_lowered(trimmed(ascii_raised(query)))) == matching_records(
            s,
            ascii_lowered(trimmed(query)),
        ),
{
    lemma_case_trimmed(query);
}

/// A record that matches a query matches each part of the query.
pub proof fn law_record_part_of_query(p: RecordView, query: Seq<char>, part: Seq<char>)
    requires
        record_matches(p, query),
        has_part(query, part),
    ensures
        record_matches(p, part),
{
    if has_part(lowercase(p.id), query) {
        lemma_part_of_part(lowercase(p.id), query, part);
    } else {
        let i = choose|i: int| 0 <= i < p.titles.len() && title_hit(#[trigger] p.titles[i], query);
        let t = p.titles[i];
        if has_part(lowercase(model_text(t)), query) {
            lemma_part_of_part(lowercase(model_text(t)), query, part);
        } else {
            lemma_part_of_part(lowercase(t.title->0), query, part);
        }
        assert(title_hit(t, part));
    }
}

/// A record is found by what stands in its identifier, in the full title of any
/// of its titles, or in vendor, model and variant of any of them; by nothing
/// else.
pub proof fn law_record_found(p: RecordView, query: Seq<char>)
    ensures
        record_matches(p, query) <==> has_part(lowercase(p.id), query) || exists|i: int|
            0 <= i < p.titles.len() && (has_part(
                lowercase(model_text(#[trigger] p.titles[i])),
                query,
            ) || (p.titles[i].title is Some && has_part(
                lowercase(p.titles[i].title->0),
                query,
            ))),
{
    if record_matches(p, query) && !has_part(lowercase(p.id), query) {
        let i = choose|i: int| 0 <= i < p.titles.len() && title_hit(#[trigger] p.titles[i], query);
        assert(has_part(lowercase(model_text(p.titles[i])), query) || (p.titles[i].title is Some
            && has_part(lowercase(p.titles[i].title->0), query)));
    }
    if exists|i: int|
        0 <= i < p.titles.len() && (has_part(
            lowercase(model_text(#[trigger] p.titles[i])),
            query,
        ) || (p.titles[i].title is Some && has_part(lowercase(p.titles[i].title->0), query))) {
        let i = choose|i: int|
            0 <= i < p.titles.len() && (has_part(
                lowercase(model_text(#[trigger] p.titles[i])),
                query,
            ) || (p.titles[i].title is Some && has_part(lowercase(p.titles[i].title->0), query)));
        assert(title_hit(p.titles[i], query));
    }
}

/// A record has a display name for each of its titles, in their order: the text
/// of the title, and the identifier in brackets.
pub proof fn law_record_names(p: RecordView, i: int)
    requires
        0 <= i < p.titles.len(),
    ensures
        record_names(p).len() == p.titles.len(),
        record_names(p)[i] == title_text(p.titles[i]) + " ("@ + p.id + ")"@,
{
    assert(record_titles(p)[i] == title_text(p.titles[i]));
}

/// A list of records is filtered record by record, and in order.
pub proof fn law_record_filter(a: Seq<RecordView>, p: RecordView, query: Seq<char>)
    ensures
        matching_records(Seq::empty(), query) == Seq::<Seq<char>>::empty(),
        record_matches(p, query) ==> matching_records(a.push(p), query) == matching_records(
            a,
            query,
        ) + record_names(p),
        !record_matches(p, query) ==> matching_records(a.push(p), query) == matching_records(
            a,
            query,
        ),
{
    assert(a.push(p).drop_last() =~= a);
    assert(matching_records(a, query) + Seq::<Seq<char>>::empty() =~= matching_records(a, query));
}

/// A record has a name, in lower case, exactly where one of its titles with the
/// identifier behind it in brackets is that name in lower case.
pub proof fn law_record_named(p: RecordView, name: Seq<char>)
    ensures
        record_named(p, name) <==> exists|i: int|
            0 <= i < p.titles.len() && lowercase(
                title_text(#[trigger] p.titles[i]) + " ("@ + p.id + ")"@,
            ) == name,
{
    if record_named(p, name) {
        let i = choose|i: int|
            0 <= i < record_names(p).len() && lowercase(#[trigger] record_names(p)[i]) == name;
        assert(record_names(p)[i] == title_text(p.titles[i]) + " ("@ + p.id + ")"@);
    }
    if exists|i: int|
        0 <= i < p.titles.len() && lowercase(
            title_text(#[trigger] p.titles[i]) + " ("@ + p.id + ")"@,
        ) == name {
        let i = choose|i: int|
            0 <= i < p.titles.len() && lowercase(
                title_text(#[trigger] p.titles[i]) + " ("@ + p.id + ")"@,
            ) == name;
        assert(record_names(p)[i] == title_text(p.titles[i]) + " ("@ + p.id + ")"@);
    }
}

} // verus!
