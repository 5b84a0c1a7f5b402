use blindkopie::text::{
    chars_of, decimal_text, eq_ignore_ascii_case, is_white, rsplit_once, same_text, split_once, trim,
};

fn both(head: &str, tail: &str) -> Option<(String, String)> {
    Some((head.to_owned(), tail.to_owned()))
}

#[test]
fn white_space_is_what_unicode_says() {
    for n in 0..=0x10ffff_u32 {
        if let Some(c) = char::from_u32(n) {
            assert_eq!(is_white(c), c.is_whitespace(), "{:x}", n);
        }
    }
}

#[test]
fn trim_takes_space_from_both_ends() {
    for text in ["", " ", "a", " a", "a ", "\t a b\u{2003}\n", "\u{85}x\u{a0}", "\u{3000}ä ö\u{2028}", "\u{200b}z"] {
        assert_eq!(trim(text), text.trim());
        assert_eq!(trim(&trim(text)), text.trim());
    }
}

#[test]
fn split_once_takes_the_first_pattern() {
    assert_eq!(split_once("a?b?c", "?"), both("a", "b?c"));
    assert_eq!(split_once("abc", "?"), None);
    assert_eq!(split_once("?", "?"), both("", ""));
    assert_eq!(split_once("", "?"), None);
    assert_eq!(split_once("äxöxü", "x"), both("ä", "öxü"));
    assert_eq!(split_once("aaab", "aab"), both("a", ""));
    assert_eq!(split_once("abab", "abc"), None);
}

#[test]
fn rsplit_once_takes_the_last_pattern() {
    assert_eq!(rsplit_once("a?b?c", "?"), both("a?b", "c"));
    assert_eq!(rsplit_once("abc", "?"), None);
    assert_eq!(rsplit_once("x?rev_t=1&x?rev_t=2&y", "?rev_t="), both("x?rev_t=1&x", "2&y"));
    assert_eq!(rsplit_once("aaa", "aa"), both("a", ""));
}

#[test]
fn splitting_agrees_with_the_standard_library() {
    for text in ["", "a", "ab", "aab", "aba", "bab", "ääb", "abcabcab", "cab?&=cab"] {
        for pattern in ["a", "b", "ab", "ba", "abc", "ä", "?&"] {
            let first = text.split_once(pattern).map(|(a, b)| (a.to_owned(), b.to_owned()));
            let last = text.rsplit_once(pattern).map(|(a, b)| (a.to_owned(), b.to_owned()));
            assert_eq!(split_once(text, pattern), first);
            assert_eq!(rsplit_once(text, pattern), last);
        }
    }
}

#[test]
fn case_counts_only_outside_of_ascii() {
    assert!(eq_ignore_ascii_case("HTTPS", "https"));
    assert!(eq_ignore_ascii_case("wSs", "WsS"));
    assert!(!eq_ignore_ascii_case("http", "https"));
    assert!(!eq_ignore_ascii_case("Ä", "ä"));
    assert!(!eq_ignore_ascii_case("[", "{"));
    assert!(!eq_ignore_ascii_case("@", "`"));
    assert!(eq_ignore_ascii_case("", ""));
}

#[test]
fn numbers_are_written_in_decimal() {
    for n in [0, 7, 10, 99, 100, -1, -10, 1577880000, i64::MAX, i64::MIN] {
        assert_eq!(decimal_text(n), n.to_string());
    }
}

#[test]
fn texts_are_compared_by_their_characters() {
    assert!(same_text("link", "link"));
    assert!(!same_text("link", "Link"));
    assert!(!same_text("link", "links"));
    assert!(same_text("", ""));
    assert_eq!(chars_of("aäß"), vec!['a', 'ä', 'ß']);
}
