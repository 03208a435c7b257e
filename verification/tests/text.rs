use bouwer::text::number::{
    parse_failure, parse_u32, parse_u8, to_decimal, to_decimal2, NumberError,
};
use bouwer::text::order::{before, compare};
use bouwer::text::scan::{
    contains, given, is_white, nonempty, replace_char, same, starts_with, strip_prefix,
    strip_suffix, trim, trim_end_of,
};
use bouwer::text::sort::stable_sort;
use bouwer::text::split::{join, lines, split, split_once, split_whitespace};

fn all_chars() -> impl Iterator<Item = char> {
    (0..=0x10_ffffu32).filter_map(char::from_u32)
}

const SAMPLES: [&str; 14] = [
    "",
    " ",
    "a",
    "a b",
    "  a  b ",
    "\u{a0}x\u{2003}",
    "a-b-c",
    "--",
    "a\nb\r\nc",
    "a\r\n",
    "\n\n",
    "a\r",
    "\u{e9}t\u{e9} \u{1f600}",
    "x::y::",
];

#[test]
fn white_space_is_that_of_unicode() {
    for c in all_chars() {
        assert_eq!(is_white(c), c.is_whitespace(), "{c:?}");
    }
}

#[test]
fn trimming_agrees_with_std() {
    for s in SAMPLES {
        assert_eq!(trim(s), s.trim());
        assert_eq!(trim_end_of(s, '-'), s.trim_end_matches('-'));
    }
}

#[test]
fn searching_agrees_with_std() {
    for s in SAMPLES {
        for p in SAMPLES {
            assert_eq!(contains(s, p), s.contains(p), "{s:?} {p:?}");
            assert_eq!(starts_with(s, p), s.starts_with(p), "{s:?} {p:?}");
            assert_eq!(strip_prefix(s, p).as_deref(), s.strip_prefix(p));
            assert_eq!(strip_suffix(s, p).as_deref(), s.strip_suffix(p));
            assert_eq!(same(s, p), s == p);
            assert_eq!(before(s, p), s < p);
            assert_eq!(compare(s, p), s.cmp(p));
        }
        assert_eq!(replace_char(s, '-', '/'), s.replace('-', "/"));
    }
}

#[test]
fn splitting_agrees_with_std() {
    for s in SAMPLES {
        assert_eq!(split(s, '-'), s.split('-').collect::<Vec<_>>());
        assert_eq!(split(s, ':'), s.split(':').collect::<Vec<_>>());
        assert_eq!(lines(s), s.lines().collect::<Vec<_>>(), "{s:?}");
        assert_eq!(
            split_whitespace(s),
            s.split_whitespace().collect::<Vec<_>>()
        );
        for p in [" ", "::", "-", "b"] {
            let want = s
                .split_once(p)
                .map(|(a, b)| (a.to_string(), b.to_string()));
            assert_eq!(split_once(s, p), want, "{s:?} {p:?}");
        }
    }
}

#[test]
fn joining_agrees_with_std() {
    let parts: Vec<String> = ["a", "", "b"].iter().map(|s| s.to_string()).collect();
    assert_eq!(join(&parts, ", "), "a, , b");
    assert_eq!(join(&Vec::new(), ", "), "");
}

#[test]
fn numerals_agree_with_std() {
    for n in [0u32, 7, 9, 10, 42, 99, 100, 65535, 4294967295] {
        assert_eq!(to_decimal(n), n.to_string());
        assert_eq!(parse_u32(&n.to_string()), Some(n));
    }
    for n in 0..=255u8 {
        assert_eq!(to_decimal2(n), format!("{n:02}"));
        assert_eq!(parse_u8(&n.to_string()), Some(n));
    }
    for s in [
        "", "+", "-", "-1", "+7", "007", "256", "1a", " 1", "4294967296", "\u{663}",
        "99999999999999999999999x", "x99999999999999999999", "+4294967295", "12.5",
    ] {
        assert_eq!(parse_u32(s), s.parse::<u32>().ok(), "{s:?}");
        assert_eq!(parse_u8(s), s.parse::<u8>().ok(), "{s:?}");
        if let Err(e) = s.parse::<u32>() {
            let ours = parse_failure(s);
            if !s.is_empty() {
                assert_eq!(ours.to_string(), e.to_string(), "{s:?}");
            }
        }
    }
}

#[test]
fn number_errors_tell_why() {
    assert_eq!(parse_failure("4294967296"), NumberError::TooLarge);
    assert_eq!(parse_failure("4x"), NumberError::InvalidDigit);
    assert_eq!(
        NumberError::TooLarge.to_string(),
        "number too large to fit in target type"
    );
    assert_eq!(
        NumberError::InvalidDigit.to_string(),
        "invalid digit found in string"
    );
}

#[test]
fn empty_text_is_not_given() {
    assert_eq!(given(""), None);
    assert_eq!(given("x"), Some("x"));
    assert_eq!(nonempty(""), None);
    assert_eq!(nonempty("x"), Some("x".to_string()));
}

#[test]
fn sorting_agrees_with_std() {
    let v: Vec<String> = ["b", "a", "\u{e9}", "B", "", "a", "ab"]
        .iter()
        .map(|s| s.to_string())
        .collect();
    let mut want = v.clone();
    want.sort();
    assert_eq!(stable_sort(v), want);
    assert!(stable_sort(Vec::<String>::new()).is_empty());
}
