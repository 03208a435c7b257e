use bouwer::search::{SearchIndex, SearchIndexBuilder};
use std::collections::BTreeSet;

#[test]
fn test_search_index_basic() {
    let mut builder = SearchIndexBuilder::default();
    builder.insert("apple", 1);
    builder.insert("apply", 2);
    builder.insert("banana", 3);
    builder.insert("applet", 4);

    let index = builder.build();

    // Exact match
    assert_eq!(index.search("apple"), BTreeSet::from([1, 4]));

    // Prefix match
    assert_eq!(index.search("app"), BTreeSet::from([1, 2, 4]));
    assert_eq!(index.search("ban"), BTreeSet::from([3]));

    // No match
    assert!(index.search("cherry").is_empty());
}

#[test]
fn test_empty_index() {
    let builder = SearchIndexBuilder::default();
    let index = builder.build();
    assert!(index.search("anything").is_empty());
}

#[test]
fn test_search_empty_prefix() {
    let mut builder = SearchIndexBuilder::default();
    builder.insert("a", 1);
    builder.insert("b", 2);
    let index = builder.build();

    // Empty prefix should return everything
    assert_eq!(index.search(""), BTreeSet::from([1, 2]));
}

#[test]
fn words_may_share_numbers_and_come_twice() {
    let mut builder = SearchIndexBuilder::default();
    builder.insert("zoo", 9);
    builder.insert("alpha", 7);
    builder.insert("zoo", 7);
    builder.insert("zoo", 9);
    builder.insert("", 1);
    let index = builder.build();
    assert_eq!(index.search("zoo"), BTreeSet::from([7, 9]));
    assert_eq!(index.search("a"), BTreeSet::from([7]));
    assert_eq!(index.search(""), BTreeSet::from([1, 7, 9]));
}

#[test]
fn words_outside_ascii_are_found_by_whole_characters() {
    let mut builder = SearchIndexBuilder::default();
    builder.insert("\u{e9}t\u{e9}", 1);
    builder.insert("\u{ea}tre", 2);
    builder.insert("\u{1f600}", 3);
    let index = builder.build();
    assert_eq!(index.search("\u{e9}"), BTreeSet::from([1]));
    assert_eq!(index.search("\u{ea}"), BTreeSet::from([2]));
    assert_eq!(index.search("\u{1f600}"), BTreeSet::from([3]));
}

#[test]
fn a_copy_of_an_index_finds_the_same() {
    let mut builder = SearchIndexBuilder::default();
    builder.insert("one", 1);
    let index = builder.build();
    assert_eq!(index.clone().search("o"), BTreeSet::from([1]));
    assert!(SearchIndex::default().clone().search("").is_empty());
}

#[test]
fn ranges_are_collected() {
    let values = vec![5, 6, 7, 5];
    let ranges = vec![SearchIndex::pack_val(0, 1), SearchIndex::pack_val(2, 2)];
    assert_eq!(
        SearchIndex::collect(&values, &ranges),
        BTreeSet::from([5, 7])
    );
    assert!(SearchIndex::collect(&values, &Vec::new()).is_empty());
}

#[test]
fn ranges_are_packed_in_halves() {
    assert_eq!(SearchIndex::pack_val(3, 5), (3 << 32) + 5);
    assert_eq!(SearchIndex::unpack_val((3 << 32) + 5), (3, 5));
    assert_eq!(
        SearchIndex::unpack_val(SearchIndex::pack_val(0xffff_ffff, 0xffff_ffff)),
        (0xffff_ffff, 0xffff_ffff)
    );
    assert_eq!(SearchIndex::pack_val(1 << 32, 1 << 32), 0);
}
