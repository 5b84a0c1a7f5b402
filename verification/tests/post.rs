use std::cmp::Ordering;

use blindkopie::post::{IdError, RedditId, RedditPost};
use blindkopie::timestamp::Timestamp;

fn id(text: &str) -> RedditId {
    RedditId::try_from(text).unwrap()
}

fn post(created: i64, name: &str) -> RedditPost {
    RedditPost { created: Timestamp::try_from(created).unwrap(), id: id(name), url: "u".to_owned() }
}

#[test]
fn identifiers_come_back_as_text() {
    for text in ["a", ".", "n8a3kx", "0123456789abcdef", "~ !\u{1}\u{7f}"] {
        assert_eq!(id(text).text(), text);
    }
}

#[test]
fn identifiers_have_a_limited_size() {
    assert_eq!(RedditId::try_from("").unwrap_err(), IdError::InvalidSize);
    assert_eq!(RedditId::try_from("0123456789abcdefg").unwrap_err(), IdError::InvalidSize);
    assert_eq!(RedditId::try_from("\u{0}123456789abcdefg").unwrap_err(), IdError::InvalidSize);
}

#[test]
fn identifiers_are_ascii_without_nul() {
    assert_eq!(RedditId::try_from("a\u{0}").unwrap_err(), IdError::InvalidNull);
    assert_eq!(RedditId::try_from("ä").unwrap_err(), IdError::NonAscii);
    assert_eq!(RedditId::try_from("\u{0}ä").unwrap_err(), IdError::NonAscii);
}

#[test]
fn identifiers_stand_in_dictionary_order() {
    let names = ["!", "0", "00", "01", "1", "A", "a", "aa", "ab", "b", "n8a3kw", "n8a3kx", "zzzzzzzzzzzzzzzz"];
    for (i, a) in names.iter().enumerate() {
        for (j, b) in names.iter().enumerate() {
            assert_eq!(id(a).code().cmp(&id(b).code()), i.cmp(&j));
            assert_eq!(id(a).cmp(&id(b)), i.cmp(&j));
            assert_eq!(id(a) == id(b), i == j);
        }
    }
}

#[test]
fn identifiers_agree_with_tiny_strings() {
    let names = ["a", "ab", "b", "n8a3kx", "zz", "Z"];
    for a in names {
        for b in names {
            let x: tinystr::TinyStr16 = a.parse().unwrap();
            let y: tinystr::TinyStr16 = b.parse().unwrap();
            assert_eq!(id(a).cmp(&id(b)), x.cmp(&y));
        }
    }
}

#[test]
fn default_identifier_is_a_full_stop() {
    assert_eq!(RedditId::default().text(), ".");
    assert_eq!(RedditPost::default().id, id("."));
    assert_eq!(RedditPost::default().created.unix_ts, 1577880000);
    assert_eq!(RedditPost::default().url, "");
}

#[test]
fn posts_are_ordered_by_time_and_identifier() {
    let a = post(10, "b");
    let b = post(11, "a");
    let c = post(11, "c");
    assert_eq!(a.cmp(&b), Ordering::Less);
    assert_eq!(b.cmp(&a), Ordering::Greater);
    assert_eq!(b.cmp(&c), Ordering::Less);
    assert_eq!(b.cmp(&b), Ordering::Equal);
    assert!(a.is_before(&c) && !c.is_before(&a) && !a.is_before(&a));
    assert_eq!(a.partial_cmp(&c), Some(Ordering::Less));
}

#[test]
fn posts_are_the_same_by_their_identifiers() {
    let mut other = post(99, "x");
    other.url = "elsewhere".to_owned();
    assert!(post(10, "x") == other);
    assert!(post(10, "x") != post(10, "y"));
    let copy = other.clone();
    assert_eq!((copy.created.unix_ts, copy.id, copy.url.as_str()), (99, id("x"), "elsewhere"));
}
