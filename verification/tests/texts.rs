//! Texts: white space, words, order and search.
use proteus::order::{at_or_before, insert_text, sorted_set};
use proteus::search::{parse_u32, split_once, starts_with, take_bytes};
use proteus::text::{
    decimal_text, is_blank, is_white_space, join, optional_trimmed, same_text, split_words, trimmed,
};

#[test]
fn white_space_is_what_rust_calls_white_space() {
    for n in 0..=0x10ffffu32 {
        if let Some(c) = char::from_u32(n) {
            assert_eq!(is_white_space(c), c.is_whitespace(), "{n:x}");
        }
    }
}

#[test]
fn texts_are_trimmed_as_rust_trims_them() {
    for s in ["", "  ", " a ", "a b", "\u{2003}é\u{a0}", "\t\n x\r"] {
        assert_eq!(trimmed(s), s.trim());
        assert_eq!(is_blank(s), s.trim().is_empty());
        let words: Vec<String> = s.split_whitespace().map(str::to_string).collect();
        assert_eq!(split_words(s), words);
    }
    assert_eq!(optional_trimmed(&Some(" a ".into())).as_deref(), Some("a"));
    assert_eq!(optional_trimmed(&Some("  ".into())), None);
    assert_eq!(optional_trimmed(&None), None);
}

#[test]
fn texts_are_joined_and_split() {
    assert_eq!(join(&vec!["a".to_string(), "b".to_string()], ", "), "a, b");
    assert_eq!(join(&vec![], ", "), "");
    assert_eq!(split_once("a: b: c", ": "), Some(("a".to_string(), "b: c".to_string())));
    assert_eq!(split_once("abc", ": "), None);
    assert!(starts_with("HTTP 400", "HTTP "));
    assert!(!starts_with("HTT", "HTTP "));
    assert!(same_text("é", "é") && !same_text("a", "b"));
}

#[test]
fn byte_prefixes_keep_whole_characters() {
    for s in ["02:00:00Z", "ab", "abcdé", "abcd\u{1f600}", "éééé"] {
        for n in 0..8u32 {
            assert_eq!(take_bytes(s, n), s.get(..n as usize).unwrap_or(s), "{s} {n}");
        }
    }
}

#[test]
fn numbers_are_written_and_read() {
    for n in [0u64, 7, 10, 1234567890, u64::MAX] {
        assert_eq!(decimal_text(n), n.to_string());
    }
    for s in ["0", "7", "+7", "007", "4294967295", "4294967296", "", "+", "-1", "1a", "99999999999999"] {
        assert_eq!(parse_u32(s), s.parse::<u32>().ok(), "{s}");
    }
}

#[test]
fn texts_are_ordered_as_rust_orders_them() {
    let list = ["", "a", "ab", "b", "é", "z", "node-10", "node-2"];
    for a in list {
        for b in list {
            assert_eq!(at_or_before(a, b), a <= b, "{a} {b}");
        }
    }
    let set = sorted_set(&vec!["b".to_string(), "a".to_string(), "b".to_string()]);
    assert_eq!(set, vec!["a".to_string(), "b".to_string()]);
    let mut set = set;
    insert_text(&mut set, "aa");
    assert_eq!(set, vec!["a".to_string(), "aa".to_string(), "b".to_string()]);
}
