//! A prefix-searchable index from words to profile numbers.
//!
//! The index keeps the profile numbers in one flat list, and in a finite state
//! transducer it maps each word to the range of that list with the word's
//! numbers.

use std::collections::BTreeSet;
use vstd::prelude::*;
use vstd::utf8::{decode_utf8_encode_utf8, encode_utf8, encode_utf8_valid_utf8, valid_utf8};

use crate::text::order::{before, bytes_lt, law_text_order, lemma_encoding_injective, text_lt};
use crate::text::prefix::{bytes_prefix, lemma_prefix_encoding};
use crate::text::scan::{has_prefix, same};

verus! {

broadcast use vstd::std_specs::btree::group_btree_axioms;

/// `fst::Map`.
#[verifier::external_type_specification]
#[verifier::external_body]
#[verifier::reject_recursive_types(D)]
pub struct ExFstMap<D>(fst::Map<D>);

/// `fst::MapBuilder`.
#[verifier::external_type_specification]
#[verifier::external_body]
#[verifier::reject_recursive_types(W)]
pub struct ExFstMapBuilder<W>(fst::MapBuilder<W>);

/// `fst::Error`.
#[verifier::external_type_specification]
#[verifier::external_body]
pub struct ExFstError(fst::Error);

/// The keys of a transducer and their values.
pub uninterp spec fn map_entries(m: fst::Map<Vec<u8>>) -> Map<Seq<u8>, u64>;

/// The keys that a transducer under construction holds, and their values.
pub uninterp spec fn builder_entries(b: fst::MapBuilder<Vec<u8>>) -> Map<Seq<u8>, u64>;

/// The keys and values of the transducer that a finished construction wrote as
/// these bytes.
pub uninterp spec fn written_entries(data: Seq<u8>) -> Option<Map<Seq<u8>, u64>>;

/// No keys at all.
pub open spec fn no_entries() -> Map<Seq<u8>, u64> {
    Map::empty()
}

/// `values` are those of the keys of `m` that begin with `prefix`, in the
/// order of the keys.
pub open spec fn lists_prefixed(
    m: Map<Seq<u8>, u64>,
    prefix: Seq<u8>,
    keys: Seq<Seq<u8>>,
    values: Seq<u64>,
) -> bool {
    &&& forall|i: int, j: int|
        0 <= i < j < keys.len() ==> bytes_lt(#[trigger] keys[i], #[trigger] keys[j])
    &&& forall|k: Seq<u8>| #[trigger]
        keys.contains(k) <==> m.contains_key(k) && bytes_prefix(prefix, k)
    &&& values == keys.map_values(|k: Seq<u8>| m[k])
}

/// `fst::MapBuilder::new` over an empty vector. Writing to a vector does not
/// fail, so there always is a builder, and it holds nothing.
#[verifier::external_body]
fn new_builder() -> (r: Result<fst::MapBuilder<Vec<u8>>, fst::Error>)
    ensures
        r is Ok,
        builder_entries(r->Ok_0) == no_entries(),
{
    fst::MapBuilder::new(Vec::new())
}

/// `fst::MapBuilder::insert`. The key goes in if every key inserted before
/// precedes it; otherwise there is an error and the builder holds what it held.
#[verifier::external_body]
fn insert_key(b: &mut fst::MapBuilder<Vec<u8>>, key: &str, value: u64) -> (r: Result<
    (),
    fst::Error,
>)
    ensures
        r is Ok <==> forall|k: Seq<u8>| #[trigger]
            builder_entries(*old(b)).contains_key(k) ==> bytes_lt(k, encode_utf8(key@)),
        builder_entries(*final(b)) == if r is Ok {
            builder_entries(*old(b)).insert(encode_utf8(key@), value)
        } else {
            builder_entries(*old(b))
        },
{
    b.insert(key, value)
}

/// `fst::MapBuilder::into_inner` over a vector. Writing to a vector does not
/// fail, and the bytes hold what the builder held.
#[verifier::external_body]
fn finish(b: fst::MapBuilder<Vec<u8>>) -> (r: Result<Vec<u8>, fst::Error>)
    ensures
        r is Ok,
        written_entries(r->Ok_0@) == Some(builder_entries(b)),
{
    b.into_inner()
}

/// `fst::Map::new` over bytes that a finished construction wrote: the map holds
/// what was written.
#[verifier::external_body]
fn open_map(data: Vec<u8>) -> (r: Result<fst::Map<Vec<u8>>, fst::Error>)
    requires
        written_entries(data@) is Some,
    ensures
        r is Ok,
        written_entries(data@) == Some(map_entries(r->Ok_0)),
{
    fst::Map::new(data)
}

/// `fst::Map::search` with the automaton `fst::automaton::Str::starts_with`,
/// its stream read by `into_values`: the values of the keys that begin with
/// `prefix`, in the order of the keys.
#[verifier::external_body]
fn prefixed_values(m: &fst::Map<Vec<u8>>, prefix: &str) -> (r: Vec<u64>)
    ensures
        exists|keys: Seq<Seq<u8>>| #[trigger]
            lists_prefixed(map_entries(*m), encode_utf8(prefix@), keys, r@),
{
    let matcher = fst::Automaton::starts_with(fst::automaton::Str::new(prefix));
    fst::IntoStreamer::into_stream(m.search(matcher)).into_values()
}

/// `fst::Map::clone`: the copy holds what the map holds.
#[verifier::external_body]
fn copy_map(m: &fst::Map<Vec<u8>>) -> (r: fst::Map<Vec<u8>>)
    ensures
        map_entries(r) == map_entries(*m),
{
    m.clone()
}

/// Two to the power of 32.
pub const HALF: u64 = 0x1_0000_0000;

/// An offset and a length in one number, of each the lower 32 bits.
pub open spec fn packed(offset: int, len: int) -> int {
    (offset % (HALF as int)) * HALF + len % (HALF as int)
}

/// The offset in a packed number.
pub open spec fn packed_offset(val: int) -> int {
    val / (HALF as int)
}

/// The length in a packed number.
pub open spec fn packed_len(val: int) -> int {
    val % (HALF as int)
}

/// A word and the profile numbers it stands for.
struct Entry {
    word: String,
    indices: Vec<u32>,
}

/// A compressed, prefix-searchable index.
///
/// Its view is the set of the pairs of a word and a profile number in it.
pub struct SearchIndex {
    map: Option<fst::Map<Vec<u8>>>,
    values: Vec<u32>,
}

/// `x` is in the range of `values` that `packed` stands for.
pub open spec fn in_range(values: Seq<u32>, packed: u64, x: u32) -> bool {
    exists|i: int|
        packed / HALF <= i < packed / HALF + packed % HALF && i < values.len() && #[trigger] values[i]
            == x
}

impl View for SearchIndex {
    type V = Set<(Seq<char>, u32)>;

    closed spec fn view(&self) -> Set<(Seq<char>, u32)> {
        match self.map {
            Some(m) => Set::new(
                |p: (Seq<char>, u32)|
                    map_entries(m).contains_key(encode_utf8(p.0)) && in_range(
                        self.values@,
                        map_entries(m)[encode_utf8(p.0)],
                        p.1,
                    ),
            ),
            None => Set::empty(),
        }
    }
}

impl SearchIndex {
    /// Every word's range lies within the list of numbers.
    #[verifier::type_invariant]
    spec fn wf(self) -> bool {
        match self.map {
            Some(m) => forall|k: Seq<u8>| #[trigger]
                map_entries(m).contains_key(k) ==> valid_utf8(k) && map_entries(m)[k] / HALF
                    + map_entries(m)[k] % HALF <= self.values@.len(),
            None => true,
        }
    }

    /// Packs an offset and a length, both below two to the power of 32.
    pub fn pack_val(offset: u64, len: u64) -> (r: u64)
        ensures
            r == packed(offset as int, len as int),
    {
        let r: u64 = (offset << 32) | (len & 0xFFFF_FFFF);
        assert(r == (offset % 0x1_0000_0000) * 0x1_0000_0000 + len % 0x1_0000_0000) by (bit_vector)
            requires
                r == (offset << 32) | (len & 0xFFFF_FFFF),
        ;
        r
    }

    /// Unpacks an offset and a length.
    pub fn unpack_val(val: u64) -> (r: (usize, usize))
        ensures
            r.0 == packed_offset(val as int),
            r.1 == packed_len(val as int),
    {
        assert(val >> 32 == val / 0x1_0000_0000) by (bit_vector);
        assert(val >> 32 <= 0xffff_ffff) by (bit_vector);
        let low: u32 = (val & 0xFFFF_FFFF) as u32;
        assert(val & 0xFFFF_FFFF == val % 0x1_0000_0000) by (bit_vector);
        assert(val & 0xFFFF_FFFF <= 0xffff_ffff) by (bit_vector);
        ((val >> 32) as usize, low as usize)
    }

    /// The profile numbers of all words that begin with `prefix`.
    pub fn search(&self, prefix: &str) -> (r: BTreeSet<u32>)
        ensures
            r@ == found(self@, prefix@),
    {
        proof {
            use_type_invariant(self);
        }
        let m: &fst::Map<Vec<u8>> = match &self.map {
            Some(m) => m,
            None => {
                proof {
                    law_empty_index(prefix@);
                }
                return BTreeSet::new();
            },
        };
        let ranges: Vec<u64> = prefixed_values(m, prefix);
        let ghost entries = map_entries(*m);
        let ghost keys = choose|keys: Seq<Seq<u8>>| #[trigger]
            lists_prefixed(entries, encode_utf8(prefix@), keys, ranges@);
        assert forall|j: int| 0 <= j < ranges@.len() implies #[trigger] ranges@[j] / HALF
            + ranges@[j] % HALF <= self.values@.len() by {
            assert(ranges@[j] == entries[keys[j]]);
            assert(keys.contains(keys[j]));
            assert(entries.contains_key(keys[j]));
        }
        let results: BTreeSet<u32> = Self::collect(&self.values, &ranges);
        proof {
            assert forall|x: u32| #[trigger] results@.contains(x) == (exists|w: Seq<char>|
                has_prefix(w, prefix@) && #[trigger] self@.contains((w, x))) by {
                if results@.contains(x) {
                    let j = choose|j: int|
                        0 <= j < ranges@.len() && in_range(self.values@, #[trigger] ranges@[j], x);
                    let key = keys[j];
                    assert(keys.contains(key));
                    assert(ranges@[j] == entries[key]);
                    let w = vstd::utf8::decode_utf8(key);
                    decode_utf8_encode_utf8(key);
                    lemma_prefix_encoding(prefix@, w);
                    assert(has_prefix(w, prefix@) && self@.contains((w, x)));
                }
                if exists|w: Seq<char>|
                    has_prefix(w, prefix@) && #[trigger] self@.contains((w, x)) {
                    let w = choose|w: Seq<char>|
                        has_prefix(w, prefix@) && #[trigger] self@.contains((w, x));
                    lemma_prefix_encoding(prefix@, w);
                    let key = encode_utf8(w);
                    assert(keys.contains(key));
                    let j = choose|j: int| 0 <= j < keys.len() && keys[j] == key;
                    assert(ranges@[j] == entries[key]);
                    assert(in_range(self.values@, ranges@[j], x));
                }
            }
            assert(results@ =~= found(self@, prefix@));
        }
        results
    }

    /// The numbers in the ranges of `values` that `ranges` stand for.
    pub fn collect(values: &Vec<u32>, ranges: &Vec<u64>) -> (r: BTreeSet<u32>)
        requires
            forall|j: int|
                0 <= j < ranges@.len() ==> #[trigger] ranges@[j] / HALF + ranges@[j] % HALF
                    <= values@.len(),
        ensures
            forall|x: u32| #[trigger]
                r@.contains(x) <==> exists|j: int|
                    0 <= j < ranges@.len() && in_range(values@, #[trigger] ranges@[j], x),
    {
        let mut results: BTreeSet<u32> = BTreeSet::new();
        let mut i: usize = 0;
        while i < ranges.len()
            invariant
                i <= ranges.len(),
                forall|j: int|
                    0 <= j < ranges@.len() ==> #[trigger] ranges@[j] / HALF + ranges@[j] % HALF
                        <= values@.len(),
                forall|x: u32| #[trigger]
                    results@.contains(x) <==> exists|j: int|
                        0 <= j < i && in_range(values@, #[trigger] ranges@[j], x),
            decreases ranges.len() - i,
        {
            let (offset, len): (usize, usize) = Self::unpack_val(ranges[i]);
            let ghost packed = ranges@[i as int];
            let ghost r0 = results@;
            assert(packed / HALF + packed % HALF <= values@.len());
            let mut k: usize = 0;
            while k < len
                invariant
                    k <= len,
                    offset == packed / HALF,
                    len == packed % HALF,
                    offset + len <= values.len(),
                    forall|x: u32| #[trigger]
                        results@.contains(x) <==> r0.contains(x) || exists|t: int|
                            offset <= t < offset + k && #[trigger] values@[t] == x,
                decreases len - k,
            {
                let ghost r1 = results@;
                let v: u32 = values[offset + k];
                results.insert(v);
                assert forall|x: u32| #[trigger] results@.contains(x) == (r0.contains(x)
                    || exists|t: int|
                    offset <= t < offset + k + 1 && #[trigger] values@[t] == x) by {
                    assert(results@.contains(x) == (r1.contains(x) || x == v));
                    if x == v {
                        assert(values@[offset + k] == x);
                    }
                    if r1.contains(x) && !r0.contains(x) {
                        let t = choose|t: int|
                            offset <= t < offset + k && #[trigger] values@[t] == x;
                        assert(offset <= t < offset + k + 1 && values@[t] == x);
                    }
                }
                k += 1;
            }
            assert forall|x: u32| #[trigger] results@.contains(x) == (exists|j: int|
                0 <= j < i + 1 && in_range(values@, #[trigger] ranges@[j], x)) by {
                assert(in_range(values@, packed, x) == (exists|t: int|
                    offset <= t < offset + len && #[trigger] values@[t] == x));
                if in_range(values@, packed, x) {
                    assert(in_range(values@, ranges@[i as int], x));
                }
                if r0.contains(x) {
                    let j = choose|j: int|
                        0 <= j < i && in_range(values@, #[trigger] ranges@[j], x);
                    assert(0 <= j < i + 1 && in_range(values@, ranges@[j], x));
                }
            }
            i += 1;
        }
        results
    }
}

impl Clone for SearchIndex {
    fn clone(&self) -> (r: SearchIndex)
        ensures
            r@ == self@,
    {
        proof {
            use_type_invariant(self);
        }
        let map: Option<fst::Map<Vec<u8>>> = match &self.map {
            Some(m) => Some(copy_map(m)),
            None => None,
        };
        let values: Vec<u32> = self.values.clone();
        assert(values@ =~= self.values@);
        let r = SearchIndex { map, values };
        assert(r@ =~= self@);
        r
    }
}

impl Default for SearchIndex {
    fn default() -> (r: SearchIndex)
        ensures
            r@ == Set::<(Seq<char>, u32)>::empty(),
    {
        SearchIndex { map: None, values: Vec::new() }
    }
}

/// The pairs that entries stand for, in order.
spec fn flat(data: Seq<Entry>) -> Seq<(Seq<char>, u32)>
    decreases data.len(),
{
    if data.len() == 0 {
        Seq::empty()
    } else {
        flat(data.drop_last()) + entry_pairs(data.last())
    }
}

/// The pairs that an entry stands for, in order.
spec fn entry_pairs(e: Entry) -> Seq<(Seq<char>, u32)> {
    Seq::new(e.indices@.len(), |k: int| (e.word@, e.indices@[k]))
}

spec fn holds(data: Seq<Entry>, p: (Seq<char>, u32)) -> bool {
    exists|i: int|
        0 <= i < data.len() && (#[trigger] data[i]).word@ == p.0 && data[i].indices@.contains(p.1)
}

/// The words are in strictly ascending order, and so are the numbers of each.
spec fn ascending(data: Seq<Entry>) -> bool {
    &&& forall|i: int, j: int|
        #![trigger data[i], data[j]]
        0 <= i < j < data.len() ==> text_lt(data[i].word@, data[j].word@)
    &&& forall|i: int| 0 <= i < data.len() ==> rising((#[trigger] data[i]).indices@)
}

spec fn rising(s: Seq<u32>) -> bool {
    forall|i: int, j: int| 0 <= i < j < s.len() ==> #[trigger] s[i] < #[trigger] s[j]
}

proof fn lemma_flat_holds(data: Seq<Entry>, p: (Seq<char>, u32))
    ensures
        flat(data).contains(p) <==> holds(data, p),
    decreases data.len(),
{
    if data.len() > 0 {
        let init = data.drop_last();
        let last = data.last();
        let tail = entry_pairs(last);
        let n = flat(init).len();
        lemma_flat_holds(init, p);
        assert(flat(data) == flat(init) + tail);
        if flat(data).contains(p) {
            let k = choose|k: int| 0 <= k < flat(data).len() && flat(data)[k] == p;
            if k < n {
                assert(flat(init)[k] == p);
                assert(flat(init).contains(p));
                let i = choose|i: int|
                    0 <= i < init.len() && (#[trigger] init[i]).word@ == p.0
                        && init[i].indices@.contains(p.1);
                assert(data[i] == init[i]);
            } else {
                assert(tail[k - n] == p);
                assert(last.indices@[k - n] == p.1);
                assert(data[data.len() - 1].word@ == p.0);
            }
            assert(holds(data, p));
        }
        if holds(data, p) {
            let i = choose|i: int|
                0 <= i < data.len() && (#[trigger] data[i]).word@ == p.0
                    && data[i].indices@.contains(p.1);
            if i < init.len() {
                assert(init[i] == data[i]);
                assert(flat(init).contains(p));
                let k = choose|k: int| 0 <= k < n && flat(init)[k] == p;
                assert(flat(data)[k] == p);
            } else {
                let k = choose|k: int| 0 <= k < last.indices@.len() && last.indices@[k] == p.1;
                assert(tail[k] == p);
                assert(flat(data)[n + k] == p);
            }
            assert(flat(data).contains(p));
        }
    }
}

proof fn lemma_flat(data: Seq<Entry>)
    requires
        ascending(data),
    ensures
        flat(data).no_duplicates(),
    decreases data.len(),
{
    if data.len() > 0 {
        let init = data.drop_last();
        let last = data.last();
        let tail = entry_pairs(last);
        let n = flat(init).len();
        assert(ascending(init)) by {
            assert forall|i: int| 0 <= i < init.len() implies rising(
                (#[trigger] init[i]).indices@,
            ) by {
                assert(init[i] == data[i]);
            }
        }
        lemma_flat(init);
        assert(flat(data) == flat(init) + tail);
        assert forall|a: int, b: int| 0 <= a < b < flat(data).len() implies flat(data)[a]
            != flat(data)[b] by {
            if b < n {
                assert(flat(init)[a] != flat(init)[b]);
            } else if a < n {
                let p = flat(init)[a];
                lemma_flat_holds(init, p);
                assert(flat(init).contains(p));
                let i = choose|i: int|
                    0 <= i < init.len() && (#[trigger] init[i]).word@ == p.0
                        && init[i].indices@.contains(p.1);
                assert(data[i] == init[i]);
                assert(text_lt(data[i].word@, data[data.len() - 1].word@));
                law_text_order(last.word@, last.word@, last.word@);
                assert(tail[b - n].0 == last.word@);
            } else {
                assert(rising(data[data.len() - 1].indices@));
                assert(tail[a - n].1 < tail[b - n].1);
            }
        }
    }
}

/// The first entries of a list hold no more pairs than the list.
proof fn lemma_flat_bound(data: Seq<Entry>, n: int)
    requires
        ascending(data),
        0 <= n <= data.len(),
    ensures
        Set::new(|p: (Seq<char>, u32)| holds(data, p)).finite(),
        flat(data.take(n)).len() <= Set::new(|p: (Seq<char>, u32)| holds(data, p)).len(),
{
    let all = Set::new(|p: (Seq<char>, u32)| holds(data, p));
    let part = data.take(n);
    assert(ascending(part)) by {
        assert forall|i: int| 0 <= i < part.len() implies rising((#[trigger] part[i]).indices@) by {
            assert(part[i] == data[i]);
        }
    }
    lemma_flat(part);
    lemma_flat(data);
    flat(part).unique_seq_to_set();
    flat(data).unique_seq_to_set();
    vstd::seq_lib::seq_to_set_is_finite(flat(data));
    assert forall|p: (Seq<char>, u32)| flat(data).to_set().contains(p) <==> all.contains(p) by {
        lemma_flat_holds(data, p);
    }
    assert(flat(data).to_set() =~= all);
    assert(flat(part).to_set().subset_of(all)) by {
        assert forall|p: (Seq<char>, u32)| flat(part).to_set().contains(p) implies all.contains(
            p,
        ) by {
            lemma_flat_holds(part, p);
            assert(flat(part).contains(p));
            let i = choose|i: int|
                0 <= i < part.len() && (#[trigger] part[i]).word@ == p.0
                    && part[i].indices@.contains(p.1);
            assert(data[i] == part[i]);
        }
    }
    vstd::set_lib::lemma_len_subset(flat(part).to_set(), all);
}

/// Collects the words of an index and the profile numbers of each.
///
/// Its view is the set of the pairs inserted.
pub struct SearchIndexBuilder {
    data: Vec<Entry>,
}

impl View for SearchIndexBuilder {
    type V = Set<(Seq<char>, u32)>;

    closed spec fn view(&self) -> Set<(Seq<char>, u32)> {
        Set::new(|p: (Seq<char>, u32)| holds(self.data@, p))
    }
}

impl Default for SearchIndexBuilder {
    fn default() -> (r: SearchIndexBuilder)
        ensures
            r@ == Set::<(Seq<char>, u32)>::empty(),
    {
        let r = SearchIndexBuilder { data: Vec::new() };
        assert(r@ =~= Set::<(Seq<char>, u32)>::empty());
        r
    }
}

/// Puts a number in its place among ascending numbers, unless it is there.
fn insert_number(indices: &mut Vec<u32>, index: u32)
    requires
        rising(old(indices)@),
    ensures
        rising(final(indices)@),
        forall|x: u32| #[trigger]
            final(indices)@.contains(x) <==> old(indices)@.contains(x) || x == index,
{
    let ghost s0 = indices@;
    let mut at: usize = 0;
    while at < indices.len() && indices[at] < index
        invariant
            at <= indices.len(),
            indices@ == s0,
            forall|j: int| 0 <= j < at ==> #[trigger] s0[j] < index,
        decreases indices.len() - at,
    {
        at += 1;
    }
    if at < indices.len() && indices[at] == index {
        assert(s0.contains(s0[at as int]));
    } else {
        indices.insert(at, index);
        let ghost s1 = indices@;
        assert(s1 == s0.insert(at as int, index));
        assert forall|x: u32| #[trigger] s1.contains(x) <==> s0.contains(x) || x == index by {
            if s0.contains(x) {
                let j = choose|j: int| 0 <= j < s0.len() && s0[j] == x;
                assert(s1[if j < at { j } else { j + 1 }] == x);
            }
            if x == index {
                assert(s1[at as int] == x);
            }
            if s1.contains(x) {
                let j = choose|j: int| 0 <= j < s1.len() && s1[j] == x;
                if j != at {
                    assert(s0[if j < at { j } else { j - 1 }] == x);
                }
            }
        }
    }
}

impl SearchIndexBuilder {
    #[verifier::type_invariant]
    spec fn wf(self) -> bool {
        ascending(self.data@)
    }

    /// Associates a profile number with a word.
    pub fn insert(&mut self, word: &str, index: u32)
        ensures
            final(self)@ == old(self)@.insert((word@, index)),
    {
        proof {
            use_type_invariant(&*self);
        }
        let ghost v0 = self@;
        let mut data: Vec<Entry> = Vec::new();
        std::mem::swap(&mut data, &mut self.data);
        let ghost d0 = data@;
        let mut at: usize = 0;
        let mut end: usize = data.len();
        while at < end
            invariant
                at <= end <= data.len(),
                data@ == d0,
                ascending(d0),
                forall|j: int| 0 <= j < at ==> text_lt((#[trigger] d0[j]).word@, word@),
                forall|j: int|
                    end <= j < d0.len() ==> !text_lt((#[trigger] d0[j]).word@, word@),
            decreases end - at,
        {
            let mid: usize = at + (end - at) / 2;
            let ghost m = d0[mid as int].word@;
            if before(data[mid].word.as_str(), word) {
                assert forall|j: int| 0 <= j < mid + 1 implies text_lt(
                    (#[trigger] d0[j]).word@,
                    word@,
                ) by {
                    law_text_order(d0[j].word@, m, word@);
                    if j < mid {
                        assert(text_lt(d0[j].word@, d0[mid as int].word@));
                    }
                }
                at = mid + 1;
            } else {
                assert forall|j: int| mid <= j < d0.len() implies !text_lt(
                    (#[trigger] d0[j]).word@,
                    word@,
                ) by {
                    law_text_order(m, d0[j].word@, word@);
                    if j > mid {
                        assert(text_lt(d0[mid as int].word@, d0[j].word@));
                    }
                }
                end = mid;
            }
        }
        if at < data.len() && same(data[at].word.as_str(), word) {
            let mut indices: Vec<u32> = Vec::new();
            std::mem::swap(&mut indices, &mut data[at].indices);
            let ghost i0 = indices@;
            assert(i0 == d0[at as int].indices@);
            insert_number(&mut indices, index);
            data[at].indices = indices;
            let ghost d1 = data@;
            assert(d1[at as int].word@ == word@);
            assert(forall|j: int| 0 <= j < d0.len() && j != at ==> d1[j] == d0[j]);
            assert(forall|j: int| 0 <= j < d0.len() ==> (#[trigger] d1[j]).word@ == d0[j].word@);
            assert forall|p: (Seq<char>, u32)| #[trigger] holds(d1, p) <==> holds(d0, p) || p == (
                word@,
                index,
            ) by {
                if holds(d1, p) {
                    let j = choose|j: int|
                        0 <= j < d1.len() && (#[trigger] d1[j]).word@ == p.0
                            && d1[j].indices@.contains(p.1);
                    assert(d0[j].word@ == p.0);
                }
                if holds(d0, p) {
                    let j = choose|j: int|
                        0 <= j < d0.len() && (#[trigger] d0[j]).word@ == p.0
                            && d0[j].indices@.contains(p.1);
                    assert(d1[j].word@ == p.0);
                }
                if p == (word@, index) {
                    assert(d1[at as int].indices@.contains(index));
                }
            }
        } else {
            let mut indices: Vec<u32> = Vec::new();
            indices.push(index);
            assert(indices@[0] == index);
            let entry = Entry { word: word.to_string(), indices };
            assert(at < d0.len() ==> text_lt(word@, d0[at as int].word@)) by {
                if at < d0.len() {
                    law_text_order(d0[at as int].word@, word@, word@);
                }
            }
            data.insert(at, entry);
            let ghost d1 = data@;
            assert(d1 == d0.insert(at as int, entry));
            assert forall|i: int, j: int|
                #![trigger d1[i], d1[j]]
                0 <= i < j < d1.len() implies text_lt(d1[i].word@, d1[j].word@) by {
                let i0 = if i < at { i } else { i - 1 };
                let j0 = if j < at { j } else { j - 1 };
                if i != at && j != at {
                    assert(d1[i] == d0[i0] && d1[j] == d0[j0]);
                } else if j == at {
                    assert(d1[i] == d0[i]);
                } else {
                    assert(d1[j] == d0[j0]);
                    if j0 > at {
                        assert(text_lt(d0[at as int].word@, d0[j0].word@));
                        law_text_order(word@, d0[at as int].word@, d0[j0].word@);
                    }
                }
            }
            assert forall|p: (Seq<char>, u32)| #[trigger] holds(d1, p) <==> holds(d0, p) || p == (
                word@,
                index,
            ) by {
                if holds(d1, p) {
                    let j = choose|j: int|
                        0 <= j < d1.len() && (#[trigger] d1[j]).word@ == p.0
                            && d1[j].indices@.contains(p.1);
                    if j != at {
                        assert(d0[if j < at { j } else { j - 1 }] == d1[j]);
                    } else {
                        assert(entry.indices@ =~= seq![index]);
                    }
                }
                if holds(d0, p) {
                    let j = choose|j: int|
                        0 <= j < d0.len() && (#[trigger] d0[j]).word@ == p.0
                            && d0[j].indices@.contains(p.1);
                    assert(d1[if j < at { j } else { j + 1 }] == d0[j]);
                }
                if p == (word@, index) {
                    assert(d1[at as int] == entry);
                }
            }
        }
        self.data = data;
        assert(self@ =~= v0.insert((word@, index)));
    }

    /// Turns what was collected into an index.
    pub fn build(self) -> (r: SearchIndex)
        requires
            self@.len() <= u32::MAX,
        ensures
            r@ == self@,
    {
        proof {
            use_type_invariant(&self);
        }
        let data: &Vec<Entry> = &self.data;
        let ghost d = data@;
        if data.len() == 0 {
            assert(self@ =~= Set::<(Seq<char>, u32)>::empty());
            return SearchIndex::default();
        }
        let mut builder = new_builder().expect("Failed to create FST builder");
        let mut values: Vec<u32> = Vec::new();
        assert(flat(d.take(0)) =~= Seq::empty());
        let mut i: usize = 0;
        while i < data.len()
            invariant
                i <= data.len(),
                data@ == d,
                ascending(d),
                Set::new(|p: (Seq<char>, u32)| holds(d, p)).len() <= u32::MAX,
                values@.len() == flat(d.take(i as int)).len(),
                filled(d.take(i as int), builder_entries(builder), values@),
            decreases data.len() - i,
        {
            let ghost e0 = builder_entries(builder);
            let ghost n0 = values@;
            proof {
                lemma_flat_bound(d, i + 1);
                assert(d.take(i + 1).drop_last() == d.take(i as int));
                assert(d.take(i + 1).last() == d[i as int]);
            }
            let offset: u64 = values.len() as u64;
            let len: u64 = data[i].indices.len() as u64;
            values.extend_from_slice(data[i].indices.as_slice());
            assert(values@ =~= n0 + d[i as int].indices@);
            let val: u64 = SearchIndex::pack_val(offset, len);
            assert forall|k: Seq<u8>| #[trigger] e0.contains_key(k) implies bytes_lt(
                k,
                encode_utf8(d[i as int].word@),
            ) by {
                let j = choose|j: int|
                    0 <= j < i && encode_utf8((#[trigger] d.take(i as int)[j]).word@) == k;
                assert(text_lt(d[j].word@, d[i as int].word@));
            }
            insert_key(&mut builder, data[i].word.as_str(), val).expect("FST insertion failed");
            proof {
                lemma_filled(d.take(i as int), d[i as int], e0, n0, val);
                assert(d.take(i as int).push(d[i as int]) =~= d.take(i + 1));
            }
            i += 1;
        }
        assert(d.take(i as int) =~= d);
        let ghost entries = builder_entries(builder);
        let bytes: Vec<u8> = finish(builder).expect("FST finalization failed");
        let map: fst::Map<Vec<u8>> = open_map(bytes).expect("FST map creation failed");
        assert forall|k: Seq<u8>| #[trigger] entries.contains_key(k) implies valid_utf8(k)
            && entries[k] / HALF + entries[k] % HALF <= values@.len() by {
            let j = choose|j: int|
                0 <= j < d.len() && encode_utf8((#[trigger] d[j]).word@) == k;
            encode_utf8_valid_utf8(d[j].word@);
            assert(range_of(entries[k], d[j].indices@, values@));
        }
        let r = SearchIndex { map: Some(map), values };
        proof {
            assert forall|p: (Seq<char>, u32)| r@.contains(p) <==> self@.contains(p) by {
                lemma_filled_view(d, entries, values@, p);
            }
            assert(r@ =~= self@);
        }
        r
    }
}

/// Each word of `data` has an entry with the range of its numbers in `values`,
/// and nothing else has one.
spec fn filled(data: Seq<Entry>, entries: Map<Seq<u8>, u64>, values: Seq<u32>) -> bool {
    &&& forall|k: Seq<u8>| #[trigger]
        entries.contains_key(k) <==> exists|j: int|
            0 <= j < data.len() && encode_utf8((#[trigger] data[j]).word@) == k
    &&& forall|j: int|
        0 <= j < data.len() ==> range_of(
            entries[encode_utf8((#[trigger] data[j]).word@)],
            data[j].indices@,
            values,
        )
}

/// The range that `packed` stands for lies within `values` and holds `part`.
spec fn range_of(packed: u64, part: Seq<u32>, values: Seq<u32>) -> bool {
    &&& packed % HALF == part.len()
    &&& packed / HALF + packed % HALF <= values.len()
    &&& values.subrange((packed / HALF) as int, packed / HALF + packed % HALF) == part
}

proof fn lemma_range_extended(packed: u64, part: Seq<u32>, values: Seq<u32>, more: Seq<u32>)
    requires
        range_of(packed, part, values),
    ensures
        range_of(packed, part, values + more),
{
    let a = (packed / HALF) as int;
    let b = packed / HALF + packed % HALF;
    assert((values + more).subrange(a, b) =~= values.subrange(a, b));
}

proof fn lemma_filled(
    data: Seq<Entry>,
    e: Entry,
    entries: Map<Seq<u8>, u64>,
    values: Seq<u32>,
    packed: u64,
)
    requires
        filled(data, entries, values),
        values.len() < HALF,
        e.indices@.len() < HALF,
        packed == values.len() * HALF + e.indices@.len(),
        forall|j: int| 0 <= j < data.len() ==> text_lt((#[trigger] data[j]).word@, e.word@),
    ensures
        filled(
            data.push(e),
            entries.insert(encode_utf8(e.word@), packed),
            values + e.indices@,
        ),
{
    let key = encode_utf8(e.word@);
    let entries1 = entries.insert(key, packed);
    let values1 = values + e.indices@;
    let data1 = data.push(e);
    assert(packed / HALF == values.len());
    assert(packed % HALF == e.indices@.len());
    assert(values1.subrange(values.len() as int, (values.len() + e.indices@.len()) as int)
        =~= e.indices@);
    assert forall|k: Seq<u8>| #[trigger] entries1.contains_key(k) <==> exists|j: int|
        0 <= j < data1.len() && encode_utf8((#[trigger] data1[j]).word@) == k by {
        if entries1.contains_key(k) {
            if k == key {
                assert(encode_utf8(data1[data.len() as int].word@) == k);
            } else {
                assert(entries.contains_key(k));
                let j = choose|j: int|
                    0 <= j < data.len() && encode_utf8((#[trigger] data[j]).word@) == k;
                assert(encode_utf8(data1[j].word@) == k);
            }
        }
        if exists|j: int| 0 <= j < data1.len() && encode_utf8((#[trigger] data1[j]).word@) == k {
            let j = choose|j: int|
                0 <= j < data1.len() && encode_utf8((#[trigger] data1[j]).word@) == k;
            if j < data.len() {
                assert(encode_utf8(data[j].word@) == k);
                assert(entries.contains_key(k));
            }
        }
    }
    assert forall|j: int| 0 <= j < data1.len() implies range_of(
        entries1[encode_utf8((#[trigger] data1[j]).word@)],
        data1[j].indices@,
        values1,
    ) by {
        if j < data.len() {
            assert(data1[j] == data[j]);
            assert(text_lt(data[j].word@, e.word@));
            if encode_utf8(data[j].word@) == key {
                lemma_encoding_injective(data[j].word@, e.word@);
                law_text_order(e.word@, e.word@, e.word@);
            }
            lemma_range_extended(
                entries[encode_utf8(data[j].word@)],
                data[j].indices@,
                values,
                e.indices@,
            );
        }
    }
}

proof fn lemma_filled_view(
    data: Seq<Entry>,
    entries: Map<Seq<u8>, u64>,
    values: Seq<u32>,
    p: (Seq<char>, u32),
)
    requires
        filled(data, entries, values),
    ensures
        holds(data, p) <==> entries.contains_key(encode_utf8(p.0)) && in_range(
            values,
            entries[encode_utf8(p.0)],
            p.1,
        ),
{
    let key = encode_utf8(p.0);
    let packed = entries[key];
    if holds(data, p) {
        let j = choose|j: int|
            0 <= j < data.len() && (#[trigger] data[j]).word@ == p.0 && data[j].indices@.contains(
                p.1,
            );
        assert(entries.contains_key(key));
        assert(range_of(packed, data[j].indices@, values));
        let k = choose|k: int| 0 <= k < data[j].indices@.len() && data[j].indices@[k] == p.1;
        assert(values[packed / HALF + k] == p.1);
    }
    if entries.contains_key(key) && in_range(values, packed, p.1) {
        let j = choose|j: int|
            0 <= j < data.len() && encode_utf8((#[trigger] data[j]).word@) == key;
        lemma_encoding_injective(data[j].word@, p.0);
        assert(range_of(packed, data[j].indices@, values));
        let i = choose|i: int|
            packed / HALF <= i < packed / HALF + packed % HALF && i < values.len()
                && #[trigger] values[i] == p.1;
        assert(data[j].indices@[i - packed / HALF] == p.1);
    }
}

/// An offset and a length below two to the power of 32 come out of the packed
/// number as they went in.
pub proof fn law_pack(offset: int, len: int)
    requires
        0 <= offset < HALF,
        0 <= len < HALF,
    ensures
        packed_offset(packed(offset, len)) == offset,
        packed_len(packed(offset, len)) == len,
{
}

/// The profile numbers of the words that begin with `prefix`.
pub open spec fn found(pairs: Set<(Seq<char>, u32)>, prefix: Seq<char>) -> Set<u32> {
    Set::new(
        |x: u32|
            exists|w: Seq<char>| has_prefix(w, prefix) && #[trigger] pairs.contains((w, x)),
    )
}

/// The empty prefix finds every number of the index.
pub proof fn law_empty_prefix(pairs: Set<(Seq<char>, u32)>, w: Seq<char>, x: u32)
    requires
        pairs.contains((w, x)),
    ensures
        found(pairs, Seq::empty()).contains(x),
{
    assert(w.subrange(0, 0) =~= Seq::empty());
    assert(has_prefix(w, Seq::empty()));
}

/// A number inserted with a word is found by each prefix of the word, and the
/// insertion takes nothing away.
pub proof fn law_insert_found(
    pairs: Set<(Seq<char>, u32)>,
    w: Seq<char>,
    x: u32,
    prefix: Seq<char>,
)
    ensures
        has_prefix(w, prefix) ==> found(pairs.insert((w, x)), prefix) == found(
            pairs,
            prefix,
        ).insert(x),
        !has_prefix(w, prefix) ==> found(pairs.insert((w, x)), prefix) == found(pairs, prefix),
{
    let more = pairs.insert((w, x));
    assert forall|y: u32| found(more, prefix).contains(y) <==> found(pairs, prefix).contains(y)
        || (has_prefix(w, prefix) && y == x) by {
        if found(pairs, prefix).contains(y) {
            let v = choose|v: Seq<char>|
                has_prefix(v, prefix) && #[trigger] pairs.contains((v, y));
            assert(more.contains((v, y)));
        }
        if has_prefix(w, prefix) && y == x {
            assert(more.contains((w, y)));
        }
        if found(more, prefix).contains(y) {
            let v = choose|v: Seq<char>| has_prefix(v, prefix) && #[trigger] more.contains((v, y));
            if (v, y) != (w, x) {
                assert(pairs.contains((v, y)));
            }
        }
    }
    if has_prefix(w, prefix) {
        assert(found(more, prefix) =~= found(pairs, prefix).insert(x));
    } else {
        assert(found(more, prefix) =~= found(pairs, prefix));
    }
}

/// A longer prefix finds nothing that a shorter one does not.
pub proof fn law_narrowing(pairs: Set<(Seq<char>, u32)>, prefix: Seq<char>, more: Seq<char>)
    ensures
        found(pairs, prefix + more).subset_of(found(pairs, prefix)),
{
    assert forall|x: u32| found(pairs, prefix + more).contains(x) implies found(
        pairs,
        prefix,
    ).contains(x) by {
        let w = choose|w: Seq<char>|
            has_prefix(w, prefix + more) && #[trigger] pairs.contains((w, x));
        assert(w.subrange(0, prefix.len() as int) =~= (prefix + more).subrange(
            0,
            prefix.len() as int,
        ));
        assert((prefix + more).subrange(0, prefix.len() as int) =~= prefix);
        assert(has_prefix(w, prefix));
    }
}

/// An index without words finds nothing.
pub proof fn law_empty_index(prefix: Seq<char>)
    ensures
        found(Set::empty(), prefix) == Set::<u32>::empty(),
{
    assert(found(Set::empty(), prefix) =~= Set::<u32>::empty());
}

} // verus!
