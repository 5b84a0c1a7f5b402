use std::collections::BTreeMap;

use blindkopie::query::{escape, is_unsafe_byte, query_field, query_string};

#[test]
fn query_fields_are_escaped() {
    assert_eq!(query_field("url", "http://a.b/?c=d&e"), "url=http%3A%2F%2Fa.b%2F%3Fc%3Dd%26e");
    assert_eq!(query_field("q", "a b"), "q=a+b");
    assert_eq!(query_field("q", ""), "q=");
    assert_eq!(query_field("ä", "ß"), "%C3%A4=%C3%9F");
    assert_eq!(query_field("a-b", "*-._~"), "a-b=*-._%7E");
}

fn form(text: &str) -> String {
    let mut out = String::new();
    for byte in text.bytes() {
        match byte {
            b' ' => out.push('+'),
            b'0'..=b'9' | b'A'..=b'Z' | b'a'..=b'z' | b'*' | b'-' | b'.' | b'_' => out.push(byte as char),
            _ => out.push_str(&format!("%{:02X}", byte)),
        }
    }
    out
}

#[test]
fn every_character_is_written_byte_by_byte() {
    for n in 0..0x3000_u32 {
        if let Some(c) = char::from_u32(n) {
            let text = format!("x{}y", c);
            assert_eq!(query_field(&text, &text), format!("{}={}", form(&text), form(&text)));
        }
    }
}

#[test]
fn query_fields_can_be_read_back() {
    let values = ["", "a&b=c", "http://x/?y#z", "100% ä+ö", "\u{1f600}"];
    for value in values {
        let text = query_field("key", value);
        let back: BTreeMap<String, String> = serde_qs::from_str(&text).unwrap();
        assert_eq!(back.get("key").map(|v| v.as_str()), Some(value));
    }
}

#[test]
fn query_strings_join_their_fields() {
    assert_eq!(query_string(&[]), "");
    assert_eq!(query_string(&[("a", "b")]), "a=b");
    assert_eq!(query_string(&[("z", "1&2"), ("a", "ü"), ("m", "")]), "z=1%262&a=%C3%BC&m=");
}

#[test]
fn different_fields_make_different_query_strings() {
    let pairs = [[("a", "b"), ("c", "d")], [("a", "b&c"), ("", "d")], [("a=b", ""), ("c", "d")]];
    for (i, one) in pairs.iter().enumerate() {
        for (j, other) in pairs.iter().enumerate() {
            assert_eq!(query_string(one) == query_string(other), i == j);
        }
    }
}

#[test]
fn addresses_are_escaped() {
    assert_eq!(escape("http://a.b/c d(e)"), "http://a.b/c%20d%28e%29");
    assert_eq!(escape("http://a.b/ä?x=%20#y"), "http://a.b/%C3%A4?x=%20#y");
    assert_eq!(escape("\u{7f}\u{0}\n"), "%7F%00%0A");
    assert_eq!(escape(""), "");
}

#[test]
fn escaping_agrees_with_the_escape_set() {
    let set = Box::leak(Box::new(
        percent_encoding::CONTROLS.add(b' ').add(b'\x7f').add(b'(').add(b')'),
    ));
    for n in 0..=0xff_u32 {
        let text = char::from_u32(n).unwrap().to_string();
        let expected: String = text
            .bytes()
            .map(|byte| {
                if is_unsafe_byte(byte) {
                    format!("%{:02X}", byte)
                } else {
                    (byte as char).to_string()
                }
            })
            .collect();
        assert_eq!(escape(&text), expected);
        if n < 0x80 {
            let shown = percent_encoding::percent_encode(&[n as u8], set).to_string();
            assert_eq!(escape(&text), shown);
        }
    }
}

#[test]
fn escaping_twice_changes_nothing_more() {
    for text in ["http://a.b/c d(e)", "ä ö ü", "%", "a%20b"] {
        assert_eq!(escape(&escape(text)), escape(text));
    }
}
