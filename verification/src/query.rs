//! Writing texts into URLs: percent escapes and the fields of query strings.
use vstd::prelude::*;
use vstd::utf8::encode_utf8;

verus! {

/// A hexadecimal digit, in upper case.
pub open spec fn hex_digit(n: int) -> char {
    if n < 10 {
        (48 + n) as char
    } else {
        (55 + n) as char
    }
}

/// A byte as a percent escape.
pub open spec fn percent_byte(byte: u8) -> Seq<char> {
    seq!['%', hex_digit(byte as int / 16), hex_digit(byte as int % 16)]
}

/// `percent_encoding::percent_encode_byte`: a percent sign and the byte's two hexadecimal digits
/// in upper case, whatever the byte.
pub assume_specification[ percent_encoding::percent_encode_byte ](byte: u8) -> (text: &'static str)
    ensures
        text@ == percent_byte(byte),
;

/// The byte cannot stand for itself in an address: it is a control character, a space, a
/// parenthesis, or part of a character outside of ASCII.
pub open spec fn needs_escape(byte: u8) -> bool {
    byte <= 0x20 || byte >= 0x7f || byte == 0x28 || byte == 0x29
}

/// The bytes, each as its ASCII character or as a percent escape where it needs one.
pub open spec fn escaped_bytes(bytes: Seq<u8>) -> Seq<char>
    decreases bytes.len(),
{
    if bytes.len() == 0 {
        seq![]
    } else {
        (if needs_escape(bytes[0]) {
            percent_byte(bytes[0])
        } else {
            seq![bytes[0] as char]
        }) + escaped_bytes(bytes.skip(1))
    }
}

/// `text` with percent escapes for what cannot stand in an address.
pub open spec fn escaped(text: Seq<char>) -> Seq<char> {
    escaped_bytes(encode_utf8(text))
}

/// The byte stands for itself in a query string.
pub open spec fn form_literal(byte: u8) -> bool {
    ||| 0x30 <= byte <= 0x39
    ||| 0x41 <= byte <= 0x5a
    ||| 0x61 <= byte <= 0x7a
    ||| byte == 0x2a || byte == 0x2d || byte == 0x2e || byte == 0x5f
}

/// A byte as it is written in a query string.
pub open spec fn form_byte(byte: u8) -> Seq<char> {
    if byte == 0x20 {
        seq!['+']
    } else if form_literal(byte) {
        seq![byte as char]
    } else {
        percent_byte(byte)
    }
}

pub open spec fn form_bytes(bytes: Seq<u8>) -> Seq<char>
    decreases bytes.len(),
{
    if bytes.len() == 0 {
        seq![]
    } else {
        form_byte(bytes[0]) + form_bytes(bytes.skip(1))
    }
}

/// `text` as it is written in a query string.
pub open spec fn form(text: Seq<char>) -> Seq<char> {
    form_bytes(encode_utf8(text))
}

/// A field of a query string.
pub open spec fn field(key: Seq<char>, value: Seq<char>) -> Seq<char> {
    form(key) + seq!['='] + form(value)
}

/// `serde_qs::to_string` of a map with one entry: the key, an equals sign and the value, both as
/// they are written in a query string; it never fails on two texts.
#[verifier::external_body]
fn query_entry(key: &str, value: &str) -> (text: Result<String, ()>)
    ensures
        text matches Ok(text) && text@ == field(key@, value@),
{
    serde_qs::to_string(&std::collections::BTreeMap::from([(key, value)])).map_err(|_| ())
}

/// One field of a query string.
pub fn query_field(key: &str, value: &str) -> (text: String)
    ensures
        text@ == field(key@, value@),
{
    query_entry(key, value).unwrap()
}

/// A query string with the fields, in their order.
pub open spec fn fields(pairs: Seq<(Seq<char>, Seq<char>)>) -> Seq<char>
    decreases pairs.len(),
{
    if pairs.len() == 0 {
        seq![]
    } else if pairs.len() == 1 {
        field(pairs[0].0, pairs[0].1)
    } else {
        fields(pairs.drop_last()) + seq!['&'] + field(pairs.last().0, pairs.last().1)
    }
}

/// What pairs of texts say.
pub open spec fn pairs_of(pairs: Seq<(&str, &str)>) -> Seq<(Seq<char>, Seq<char>)> {
    pairs.map_values(|pair: (&str, &str)| (pair.0@, pair.1@))
}

/// A query string with the fields, in their order.
pub fn query_string(pairs: &[(&str, &str)]) -> (text: String)
    ensures
        text@ == fields(pairs_of(pairs@)),
{
    let ghost all = pairs_of(pairs@);
    let mut text = String::new();
    let mut i: usize = 0;
    while i < pairs.len()
        invariant
            i <= pairs@.len(),
            all == pairs_of(pairs@),
            text@ == fields(all.take(i as int)),
        decreases pairs@.len() - i,
    {
        let (key, value) = pairs[i];
        let ghost before = text@;
        if i > 0 {
            text.append("&");
        }
        text.append(query_field(key, value).as_str());
        proof {
            reveal_strlit("&");
            assert("&"@ =~= seq!['&']);
            let more = all.take(i + 1);
            assert(more.drop_last() =~= all.take(i as int));
            assert(more.last() == (key@, value@));
            if i == 0 {
                assert(text@ =~= field(key@, value@));
            }
        }
        i = i + 1;
    }
    assert(all.take(i as int) =~= all);
    text
}

/// Whether the byte needs an escape in an address.
pub fn is_unsafe_byte(byte: u8) -> (needs: bool)
    ensures
        needs == needs_escape(byte),
        needs == (byte <= 0x20 || byte >= 0x7f || byte == 0x28 || byte == 0x29),
{
    byte <= 0x20 || byte >= 0x7f || byte == 0x28 || byte == 0x29
}

/// `text` with percent escapes for what cannot stand in an address.
pub fn escape(text: &str) -> (out: String)
    ensures
        out@ == escaped(text@),
{
    let bytes = text.as_bytes();
    let mut out = String::new();
    let mut i: usize = 0;
    assert(bytes@.skip(0) =~= bytes@);
    while i < bytes.len()
        invariant
            i <= bytes@.len(),
            bytes@ == encode_utf8(text@),
            out@ + escaped_bytes(bytes@.skip(i as int)) == escaped(text@),
        decreases bytes@.len() - i,
    {
        let byte: u8 = bytes[i];
        proof {
            assert(bytes@.skip(i as int).skip(1) =~= bytes@.skip(i + 1));
            assert(bytes@.skip(i as int)[0] == byte);
        }
        let ghost before = out@;
        let ghost rest = escaped_bytes(bytes@.skip(i + 1));
        if is_unsafe_byte(byte) {
            out.append(percent_encoding::percent_encode_byte(byte));
            assert(before + (percent_byte(byte) + rest) =~= out@ + rest);
        } else {
            out.push(byte as char);
            assert(before + (seq![byte as char] + rest) =~= out@ + rest);
        }
        i = i + 1;
    }
    assert(bytes@.skip(i as int) =~= Seq::<u8>::empty());
    assert(out@ + Seq::<char>::empty() =~= out@);
    out
}

/// The character separates the parts of an address or of a query string.
pub open spec fn separator(c: char) -> bool {
    c == '&' || c == '=' || c == '?' || c == '#' || c == '/' || c == ' '
}

proof fn hex_digit_plain(n: int)
    requires
        0 <= n < 16,
    ensures
        !separator(hex_digit(n)),
        !needs_escape(hex_digit(n) as u8),
        (hex_digit(n) as int) < 0x7f,
{
}

proof fn form_bytes_plain(bytes: Seq<u8>)
    ensures
        forall|i: int| 0 <= i < form_bytes(bytes).len() ==> !separator(#[trigger] form_bytes(bytes)[i]),
    decreases bytes.len(),
{
    if bytes.len() > 0 {
        form_bytes_plain(bytes.skip(1));
        hex_digit_plain(bytes[0] as int / 16);
        hex_digit_plain(bytes[0] as int % 16);
        let head = form_byte(bytes[0]);
        let tail = form_bytes(bytes.skip(1));
        assert forall|i: int| 0 <= i < form_bytes(bytes).len() implies !separator(
            #[trigger] form_bytes(bytes)[i],
        ) by {
            if i < head.len() {
                assert(form_bytes(bytes)[i] == head[i]);
            } else {
                assert(form_bytes(bytes)[i] == tail[i - head.len()]);
            }
        }
    }
}

/// A text that was written into a query string cannot end its field or its address: no separator
/// stands in it.
pub proof fn form_has_no_separator(text: Seq<char>)
    ensures
        forall|i: int| 0 <= i < form(text).len() ==> !separator(#[trigger] form(text)[i]),
{
    form_bytes_plain(encode_utf8(text));
}

proof fn form_byte_injective(a: u8, b: u8)
    requires
        form_byte(a) == form_byte(b),
    ensures
        a == b,
{
    let x = form_byte(a);
    let y = form_byte(b);
    assert(x[0] == y[0]);
    if x.len() == 3 {
        assert(x[1] == y[1]);
        assert(x[2] == y[2]);
        assert(a as int / 16 == b as int / 16);
        assert(a as int % 16 == b as int % 16);
    }
}

proof fn form_bytes_injective(a: Seq<u8>, b: Seq<u8>)
    requires
        form_bytes(a) == form_bytes(b),
    ensures
        a == b,
    decreases a.len(),
{
    if a.len() == 0 {
        if b.len() > 0 {
            assert(form_bytes(b).len() >= form_byte(b[0]).len());
        }
        assert(a =~= b);
    } else if b.len() == 0 {
        assert(form_bytes(a).len() >= form_byte(a[0]).len());
    } else {
        let x = form_byte(a[0]);
        let y = form_byte(b[0]);
        let s = form_bytes(a);
        let t = form_bytes(b);
        assert(s[0] == x[0]);
        assert(t[0] == y[0]);
        assert(x[0] == '%' <==> x.len() == 3);
        assert(y[0] == '%' <==> y.len() == 3);
        assert(x.len() == y.len());
        assert(s.take(x.len() as int) =~= x);
        assert(t.take(x.len() as int) =~= y);
        form_byte_injective(a[0], b[0]);
        assert(s.skip(x.len() as int) =~= form_bytes(a.skip(1)));
        assert(t.skip(x.len() as int) =~= form_bytes(b.skip(1)));
        form_bytes_injective(a.skip(1), b.skip(1));
        assert(a =~= seq![a[0]] + a.skip(1));
        assert(b =~= seq![b[0]] + b.skip(1));
    }
}

/// No two texts are written alike in a query string.
pub proof fn form_injective(a: Seq<char>, b: Seq<char>)
    requires
        form(a) == form(b),
    ensures
        a == b,
{
    form_bytes_injective(encode_utf8(a), encode_utf8(b));
    vstd::utf8::encode_utf8_decode_utf8(a);
    vstd::utf8::encode_utf8_decode_utf8(b);
}

proof fn escaped_bytes_clean(bytes: Seq<u8>)
    ensures
        forall|i: int|
            0 <= i < escaped_bytes(bytes).len() ==> {
                let c = #[trigger] escaped_bytes(bytes)[i];
                (c as int) < 0x7f && !needs_escape(c as u8)
            },
    decreases bytes.len(),
{
    if bytes.len() > 0 {
        escaped_bytes_clean(bytes.skip(1));
        hex_digit_plain(bytes[0] as int / 16);
        hex_digit_plain(bytes[0] as int % 16);
        let head = if needs_escape(bytes[0]) {
            percent_byte(bytes[0])
        } else {
            seq![bytes[0] as char]
        };
        let tail = escaped_bytes(bytes.skip(1));
        assert forall|i: int| 0 <= i < escaped_bytes(bytes).len() implies {
            let c = #[trigger] escaped_bytes(bytes)[i];
            (c as int) < 0x7f && !needs_escape(c as u8)
        } by {
            if i < head.len() {
                assert(escaped_bytes(bytes)[i] == head[i]);
            } else {
                assert(escaped_bytes(bytes)[i] == tail[i - head.len()]);
            }
        }
    }
}

/// Nothing that needs an escape is left in an escaped text.
pub proof fn escaped_is_clean(text: Seq<char>)
    ensures
        forall|i: int|
            0 <= i < escaped(text).len() ==> {
                let c = #[trigger] escaped(text)[i];
                &&& (c as int) < 0x7f && !needs_escape(c as u8)
                &&& 0x20 < c as int && c != '(' && c != ')'
            },
{
    escaped_bytes_clean(encode_utf8(text));
    assert forall|i: int| 0 <= i < escaped(text).len() implies {
        let c = #[trigger] escaped(text)[i];
        &&& (c as int) < 0x7f && !needs_escape(c as u8)
        &&& 0x20 < c as int && c != '(' && c != ')'
    } by {
        let c = escaped_bytes(encode_utf8(text))[i];
        assert((c as int) < 0x7f && !needs_escape(c as u8));
        char_is_natural(c);
    }
}

proof fn clean_bytes_unchanged(bytes: Seq<u8>)
    requires
        forall|i: int| 0 <= i < bytes.len() ==> !needs_escape(#[trigger] bytes[i]),
    ensures
        escaped_bytes(bytes) == bytes.map_values(|byte: u8| byte as char),
    decreases bytes.len(),
{
    if bytes.len() > 0 {
        assert forall|i: int| 0 <= i < bytes.skip(1).len() implies !needs_escape(
            #[trigger] bytes.skip(1)[i],
        ) by {
            assert(bytes.skip(1)[i] == bytes[i + 1]);
        }
        clean_bytes_unchanged(bytes.skip(1));
    }
    assert(escaped_bytes(bytes) =~= bytes.map_values(|byte: u8| byte as char));
}

proof fn char_is_natural(c: char)
    ensures
        '\0' <= c,
{
}

/// Escaping an escaped text changes nothing.
pub proof fn escaped_twice(text: Seq<char>)
    ensures
        escaped(escaped(text)) == escaped(text),
{
    let once = escaped(text);
    escaped_is_clean(text);
    assert(vstd::utf8::is_ascii_chars(once)) by {
        assert forall|i: int| 0 <= i < once.len() implies '\0' <= #[trigger] once[i] <= '\u{7f}' by {
            assert((escaped(text)[i] as int) < 0x7f);
            char_is_natural(escaped(text)[i]);
        }
    }
    vstd::utf8::is_ascii_chars_encode_utf8(once);
    let bytes = encode_utf8(once);
    assert forall|i: int| 0 <= i < bytes.len() implies !needs_escape(#[trigger] bytes[i]) by {
        assert(bytes[i] == escaped(text)[i] as u8);
    }
    clean_bytes_unchanged(bytes);
    assert(escaped(once) =~= once) by {
        assert forall|i: int| 0 <= i < once.len() implies escaped(once)[i] == once[i] by {
            assert(bytes[i] == escaped(text)[i] as u8);
        }
    }
}

proof fn split_unique(a: Seq<char>, x: Seq<char>, b: Seq<char>, y: Seq<char>, mark: char)
    requires
        a + seq![mark] + x == b + seq![mark] + y,
        forall|i: int| 0 <= i < x.len() ==> #[trigger] x[i] != mark,
        forall|i: int| 0 <= i < y.len() ==> #[trigger] y[i] != mark,
    ensures
        a == b,
        x == y,
{
    let left = a + seq![mark] + x;
    let right = b + seq![mark] + y;
    assert(left.len() == a.len() + 1 + x.len());
    assert(right.len() == b.len() + 1 + y.len());
    if a.len() < b.len() {
        let i = b.len() as int;
        assert(right[i] == mark);
        assert(left[i] == x[i - a.len() - 1]);
    }
    if b.len() < a.len() {
        let i = a.len() as int;
        assert(left[i] == mark);
        assert(right[i] == y[i - b.len() - 1]);
    }
    assert(a =~= left.take(a.len() as int));
    assert(b =~= right.take(b.len() as int));
    assert(x =~= left.skip(a.len() as int + 1));
    assert(y =~= right.skip(b.len() as int + 1));
}

proof fn field_injective(key: Seq<char>, value: Seq<char>, other_key: Seq<char>, other: Seq<char>)
    requires
        field(key, value) == field(other_key, other),
    ensures
        key == other_key,
        value == other,
{
    form_has_no_separator(value);
    form_has_no_separator(other);
    split_unique(form(key), form(value), form(other_key), form(other), '=');
    form_injective(key, other_key);
    form_injective(value, other);
}

proof fn field_has_no_ampersand(key: Seq<char>, value: Seq<char>)
    ensures
        forall|i: int| 0 <= i < field(key, value).len() ==> #[trigger] field(key, value)[i] != '&',
{
    form_has_no_separator(key);
    form_has_no_separator(value);
    let text = field(key, value);
    assert forall|i: int| 0 <= i < text.len() implies #[trigger] text[i] != '&' by {
        let at = form(key).len() as int;
        if i < at {
            assert(text[i] == form(key)[i]);
        } else if i > at {
            assert(text[i] == form(value)[i - at - 1]);
        }
    }
}

/// A query string says one thing only: two query strings with as many fields are the same only if
/// all their keys and values are.
pub proof fn fields_injective(a: Seq<(Seq<char>, Seq<char>)>, b: Seq<(Seq<char>, Seq<char>)>)
    requires
        a.len() == b.len(),
        fields(a) == fields(b),
    ensures
        a == b,
    decreases a.len(),
{
    if a.len() > 0 {
        let (key, value) = a.last();
        let (other_key, other) = b.last();
        if a.len() > 1 {
            field_has_no_ampersand(key, value);
            field_has_no_ampersand(other_key, other);
            split_unique(
                fields(a.drop_last()),
                field(key, value),
                fields(b.drop_last()),
                field(other_key, other),
                '&',
            );
            fields_injective(a.drop_last(), b.drop_last());
        }
        field_injective(key, value, other_key, other);
        if a.len() == 1 {
            assert(a.drop_last() =~= b.drop_last());
        }
        assert(a =~= a.drop_last().push(a.last()));
        assert(b =~= b.drop_last().push(b.last()));
    } else {
        assert(a =~= b);
    }
}

proof fn escaped_bytes_in_turn(a: Seq<u8>, b: Seq<u8>)
    ensures
        escaped_bytes(a + b) == escaped_bytes(a) + escaped_bytes(b),
    decreases a.len(),
{
    if a.len() == 0 {
        assert(a + b =~= b);
        assert(escaped_bytes(a) + escaped_bytes(b) =~= escaped_bytes(b));
    } else {
        escaped_bytes_in_turn(a.skip(1), b);
        assert((a + b).skip(1) =~= a.skip(1) + b);
        assert((a + b)[0] == a[0]);
        let head = if needs_escape(a[0]) {
            percent_byte(a[0])
        } else {
            seq![a[0] as char]
        };
        assert(head + (escaped_bytes(a.skip(1)) + escaped_bytes(b)) =~= head + escaped_bytes(
            a.skip(1),
        ) + escaped_bytes(b));
    }
}

proof fn visible_bytes_stay(bytes: Seq<u8>)
    requires
        forall|i: int|
            0 <= i < bytes.len() ==> 0x20 < #[trigger] bytes[i] < 0x7f && bytes[i] != 0x28
                && bytes[i] != 0x29,
    ensures
        escaped_bytes(bytes) == bytes.map_values(|byte: u8| byte as char),
    decreases bytes.len(),
{
    if bytes.len() > 0 {
        assert(0x20 < bytes[0] < 0x7f);
        assert forall|i: int| 0 <= i < bytes.skip(1).len() implies 0x20 < #[trigger] bytes.skip(
            1,
        )[i] < 0x7f && bytes.skip(1)[i] != 0x28 && bytes.skip(1)[i] != 0x29 by {
            assert(bytes[i + 1] < 0x7f);
        }
        visible_bytes_stay(bytes.skip(1));
        assert(escaped_bytes(bytes) =~= bytes.map_values(|byte: u8| byte as char));
    } else {
        assert(escaped_bytes(bytes) =~= bytes.map_values(|byte: u8| byte as char));
    }
}

/// What can stand in an address is not escaped: a text of visible ASCII characters other than
/// parentheses stays as it is.
pub proof fn visible_text_stays(text: Seq<char>)
    requires
        forall|i: int|
            0 <= i < text.len() ==> 0x20 < (#[trigger] text[i]) as int && (text[i] as int) < 0x7f
                && text[i] != '(' && text[i] != ')',
    ensures
        escaped(text) == text,
{
    assert(vstd::utf8::is_ascii_chars(text)) by {
        assert forall|i: int| 0 <= i < text.len() implies '\0' <= #[trigger] text[i]
            <= '\u{7f}' by {
            assert((text[i] as int) < 0x7f);
        }
    }
    vstd::utf8::is_ascii_chars_encode_utf8(text);
    let bytes = encode_utf8(text);
    assert forall|i: int| 0 <= i < bytes.len() implies 0x20 < #[trigger] bytes[i] < 0x7f && bytes[i]
        != 0x28 && bytes[i] != 0x29 by {
        assert(bytes[i] as int == text[i] as int);
    }
    visible_bytes_stay(bytes);
    assert(escaped(text) =~= text) by {
        assert forall|i: int| 0 <= i < text.len() implies escaped(text)[i] == text[i] by {
            assert(bytes[i] as int == text[i] as int);
        }
    }
}

/// Every byte is written in a query string in its own way, by itself: as one character, or as a
/// percent sign and two digits that tell the byte.
pub proof fn bytes_are_told_apart(byte: u8)
    ensures
        form_byte(byte).len() == 1 || form_byte(byte).len() == 3,
        form_byte(byte).len() == 3 ==> form_byte(byte)[0] == '%',
        form_byte(byte).len() == 1 ==> form_byte(byte)[0] as int == byte || byte == 0x20
            && form_byte(byte)[0] == '+',
        forall|other: u8| #[trigger] form_byte(other) == form_byte(byte) ==> other == byte,
{
    assert forall|other: u8| #[trigger] form_byte(other) == form_byte(byte) implies other
        == byte by {
        if form_byte(byte).len() == 3 {
            assert(form_byte(other)[1] == form_byte(byte)[1]);
            assert(form_byte(other)[2] == form_byte(byte)[2]);
        } else {
            assert(form_byte(other)[0] == form_byte(byte)[0]);
        }
    }
}

proof fn encoded_in_turn(a: Seq<char>, b: Seq<char>)
    ensures
        encode_utf8(a + b) == encode_utf8(a) + encode_utf8(b),
    decreases a.len(),
{
    if a.len() == 0 {
        assert(a + b =~= b);
        assert(encode_utf8(a) + encode_utf8(b) =~= encode_utf8(b));
    } else {
        encoded_in_turn(a.drop_first(), b);
        assert((a + b).drop_first() =~= a.drop_first() + b);
        assert((a + b)[0] == a[0]);
        assert(encode_utf8(a + b) =~= encode_utf8(a) + encode_utf8(b));
    }
}

/// Escaping goes through an address from its beginning to its end.
pub proof fn escaped_in_turn(a: Seq<char>, b: Seq<char>)
    ensures
        escaped(a + b) == escaped(a) + escaped(b),
{
    encoded_in_turn(a, b);
    escaped_bytes_in_turn(encode_utf8(a), encode_utf8(b));
}

proof fn escaped_bytes_injective(a: Seq<u8>, b: Seq<u8>)
    requires
        !a.contains(0x25),
        !b.contains(0x25),
        escaped_bytes(a) == escaped_bytes(b),
    ensures
        a == b,
    decreases a.len(),
{
    if a.len() == 0 || b.len() == 0 {
        if a.len() > 0 {
            assert(escaped_bytes(a).len() > 0);
        }
        if b.len() > 0 {
            assert(escaped_bytes(b).len() > 0);
        }
        assert(a =~= b);
    } else {
        let s = escaped_bytes(a);
        let t = escaped_bytes(b);
        assert(a.contains(a[0]) && b.contains(b[0]));
        let long = s[0] == '%';
        let size: int = if long {
            3
        } else {
            1
        };
        assert(needs_escape(a[0]) <==> long);
        assert(needs_escape(b[0]) <==> long);
        if long {
            assert(s[1] == hex_digit(a[0] as int / 16) && t[1] == hex_digit(b[0] as int / 16));
            assert(s[2] == hex_digit(a[0] as int % 16) && t[2] == hex_digit(b[0] as int % 16));
            assert(a[0] as int / 16 == b[0] as int / 16);
            assert(a[0] as int % 16 == b[0] as int % 16);
        } else {
            assert(s[0] == a[0] as char && t[0] == b[0] as char);
        }
        assert(a[0] == b[0]);
        assert(s.skip(size) =~= escaped_bytes(a.skip(1)));
        assert(t.skip(size) =~= escaped_bytes(b.skip(1)));
        assert(!a.skip(1).contains(0x25)) by {
            if a.skip(1).contains(0x25) {
                let i = choose|i: int| 0 <= i < a.skip(1).len() && a.skip(1)[i] == 0x25;
                assert(a[i + 1] == 0x25);
            }
        }
        assert(!b.skip(1).contains(0x25)) by {
            if b.skip(1).contains(0x25) {
                let i = choose|i: int| 0 <= i < b.skip(1).len() && b.skip(1)[i] == 0x25;
                assert(b[i + 1] == 0x25);
            }
        }
        escaped_bytes_injective(a.skip(1), b.skip(1));
        assert(a =~= seq![a[0]] + a.skip(1));
        assert(b =~= seq![b[0]] + b.skip(1));
    }
}

/// Nothing is lost by escaping: texts whose bytes hold no percent sign can be told from what they
/// are escaped to.
pub proof fn escaped_tells_the_text(a: Seq<char>, b: Seq<char>)
    requires
        !encode_utf8(a).contains(0x25),
        !encode_utf8(b).contains(0x25),
        escaped(a) == escaped(b),
    ensures
        a == b,
{
    escaped_bytes_injective(encode_utf8(a), encode_utf8(b));
    vstd::utf8::encode_utf8_decode_utf8(a);
    vstd::utf8::encode_utf8_decode_utf8(b);
}

/// Query strings are put together field by field: behind the fields of one come those of another,
/// in their order, with an ampersand in between.
pub proof fn fields_in_turn(a: Seq<(Seq<char>, Seq<char>)>, b: Seq<(Seq<char>, Seq<char>)>)
    requires
        a.len() > 0,
        b.len() > 0,
    ensures
        fields(a + b) == fields(a) + seq!['&'] + fields(b),
        a.len() == 1 ==> fields(a) == form(a[0].0) + seq!['='] + form(a[0].1),
    decreases b.len(),
{
    assert((a + b).drop_last() =~= a + b.drop_last());
    assert((a + b).last() == b.last());
    if b.len() == 1 {
        assert(a + b.drop_last() =~= a);
        assert(b.last() == b[0]);
    } else {
        fields_in_turn(a, b.drop_last());
        let last = field(b.last().0, b.last().1);
        assert(fields(a) + seq!['&'] + fields(b.drop_last()) + seq!['&'] + last =~= fields(a)
            + seq!['&'] + (fields(b.drop_last()) + seq!['&'] + last));
    }
}

} // verus!
