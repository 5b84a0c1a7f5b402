//! Text operations that the rest of the library is built from: searching and splitting, trimming,
//! comparing without regard to ASCII case, and writing numbers in decimal.
use vstd::prelude::*;

verus! {

/// `std::string::String::push`: the character is appended, what stood before it is kept.
pub assume_specification[ String::push ](text: &mut String, c: char)
    ensures
        final(text)@ == old(text)@.push(c),
;

/// What `String::from_utf8_lossy` makes of a byte sequence.
pub uninterp spec fn lossy_utf8(bytes: Seq<u8>) -> Seq<char>;

/// `std::string::String::from_utf8_lossy`: the text depends on the bytes alone. How ill-formed
/// sequences are replaced is left unsaid; bytes that are well-formed UTF-8 are decoded.
#[verifier::external_body]
pub(crate) fn text_from_utf8_lossy(bytes: &[u8]) -> (text: String)
    ensures
        text@ == lossy_utf8(bytes@),
        vstd::utf8::valid_utf8(bytes@) ==> text@ == vstd::utf8::decode_utf8(bytes@),
{
    String::from_utf8_lossy(bytes).into_owned()
}

/// `std::string::String::from_utf8`: bytes that are well-formed UTF-8 are decoded; there is no text
/// for any others.
#[verifier::external_body]
pub(crate) fn text_from_utf8(bytes: Vec<u8>) -> (text: Option<String>)
    ensures
        match text {
            Some(text) => vstd::utf8::valid_utf8(bytes@) && text@ == vstd::utf8::decode_utf8(
                bytes@,
            ),
            None => !vstd::utf8::valid_utf8(bytes@),
        },
{
    String::from_utf8(bytes).ok()
}

/// `pattern` stands in `text` at position `i`.
pub open spec fn occurs_at(text: Seq<char>, pattern: Seq<char>, i: int) -> bool {
    &&& 0 <= i <= text.len() - pattern.len()
    &&& text.subrange(i, i + pattern.len()) == pattern
}

/// `i` is the first position at which `pattern` stands in `text`.
pub open spec fn first_at(text: Seq<char>, pattern: Seq<char>, i: int) -> bool {
    &&& occurs_at(text, pattern, i)
    &&& forall|j: int| occurs_at(text, pattern, j) ==> i <= j
}

/// `i` is the last position at which `pattern` stands in `text`.
pub open spec fn last_at(text: Seq<char>, pattern: Seq<char>, i: int) -> bool {
    &&& occurs_at(text, pattern, i)
    &&& forall|j: int| occurs_at(text, pattern, j) ==> j <= i
}

/// What stands before and after the first `pattern` in `text`.
pub open spec fn split_at_first(text: Seq<char>, pattern: Seq<char>) -> Option<
    (Seq<char>, Seq<char>),
> {
    if exists|i: int| first_at(text, pattern, i) {
        let i = choose|i: int| first_at(text, pattern, i);
        Some((text.take(i), text.skip(i + pattern.len())))
    } else {
        None
    }
}

/// What stands before and after the last `pattern` in `text`.
pub open spec fn split_at_last(text: Seq<char>, pattern: Seq<char>) -> Option<
    (Seq<char>, Seq<char>),
> {
    if exists|i: int| last_at(text, pattern, i) {
        let i = choose|i: int| last_at(text, pattern, i);
        Some((text.take(i), text.skip(i + pattern.len())))
    } else {
        None
    }
}

/// The Unicode `White_Space` property.
pub open spec fn white(c: char) -> bool {
    let n = c as int;
    ||| 0x9 <= n <= 0xd
    ||| n == 0x20 || n == 0x85 || n == 0xa0 || n == 0x1680
    ||| 0x2000 <= n <= 0x200a
    ||| n == 0x2028 || n == 0x2029 || n == 0x202f || n == 0x205f || n == 0x3000
}

/// `text` without its leading white space.
pub open spec fn trimmed_front(text: Seq<char>) -> Seq<char>
    decreases text.len(),
{
    if text.len() > 0 && white(text[0]) {
        trimmed_front(text.skip(1))
    } else {
        text
    }
}

/// `text` without its trailing white space.
pub open spec fn trimmed_back(text: Seq<char>) -> Seq<char>
    decreases text.len(),
{
    if text.len() > 0 && white(text.last()) {
        trimmed_back(text.drop_last())
    } else {
        text
    }
}

/// `text` without leading and trailing white space.
pub open spec fn trimmed(text: Seq<char>) -> Seq<char> {
    trimmed_back(trimmed_front(text))
}

/// `c`, in lower case where it is an ASCII capital.
pub open spec fn ascii_lower(c: char) -> int {
    if 'A' <= c <= 'Z' {
        c as int + 32
    } else {
        c as int
    }
}

/// The two texts differ at most in the case of ASCII letters.
pub open spec fn same_but_case(a: Seq<char>, b: Seq<char>) -> bool {
    &&& a.len() == b.len()
    &&& forall|i: int| 0 <= i < a.len() ==> ascii_lower(a[i]) == ascii_lower(b[i])
}

/// The digits of `n`.
pub open spec fn digits(n: nat) -> Seq<char>
    decreases n,
{
    let last = (48 + n % 10) as char;
    if n < 10 {
        seq![last]
    } else {
        digits(n / 10).push(last)
    }
}

/// `n` in decimal, with a minus sign where it is negative.
pub open spec fn decimal(n: int) -> Seq<char> {
    if n < 0 {
        seq!['-'] + digits((-n) as nat)
    } else {
        digits(n as nat)
    }
}

/// The two texts are the same.
pub fn same_text(a: &str, b: &str) -> (same: bool)
    ensures
        same == (a@ == b@),
{
    a.to_owned() == b.to_owned()
}

/// The characters of `text`, in order.
pub fn chars_of(text: &str) -> (chars: Vec<char>)
    ensures
        chars@ == text@,
{
    let mut chars: Vec<char> = Vec::new();
    for c in it: text.chars()
        invariant
            chars@ == it.seq().take(it.index() as int),
            it.seq() == text@,
    {
        chars.push(c);
        assert(it.seq().take(it.index() as int + 1) =~= it.seq().take(it.index() as int).push(c));
    }
    assert(text@.take(text@.len() as int) =~= text@);
    chars
}

/// `pattern` stands in `text` at `i`.
fn stands_at(text: &Vec<char>, pattern: &Vec<char>, i: usize) -> (stands: bool)
    requires
        i + pattern@.len() <= text@.len(),
    ensures
        stands == occurs_at(text@, pattern@, i as int),
{
    let size: usize = text.len();
    let mut k: usize = 0;
    while k < pattern.len()
        invariant
            k <= pattern@.len(),
            size == text@.len(),
            i + pattern@.len() <= text@.len(),
            forall|j: int| 0 <= j < k ==> text@[i + j] == pattern@[j],
        decreases pattern@.len() - k,
    {
        if text[i + k] != pattern[k] {
            assert(text@.subrange(i as int, i + pattern@.len())[k as int] != pattern@[k as int]);
            return false;
        }
        k = k + 1;
    }
    assert(text@.subrange(i as int, i + pattern@.len()) =~= pattern@);
    true
}

/// Splits `text` at the first `pattern` in it.
pub fn split_once(text: &str, pattern: &str) -> (parts: Option<(String, String)>)
    ensures
        match parts {
            Some((before, after)) => split_at_first(text@, pattern@) == Some((before@, after@)),
            None => split_at_first(text@, pattern@) is None,
        },
{
    let chars = chars_of(text);
    let wanted = chars_of(pattern);
    if wanted.len() > chars.len() {
        return None;
    }
    let size: usize = chars.len();
    let last: usize = size - wanted.len();
    let mut i: usize = 0;
    loop
        invariant
            i <= last,
            size == chars@.len(),
            last == size - wanted@.len(),
            chars@ == text@,
            wanted@ == pattern@,
            forall|j: int| 0 <= j < i ==> !occurs_at(text@, pattern@, j),
        decreases last - i,
    {
        if stands_at(&chars, &wanted, i) {
            proof {
                assert(first_at(text@, pattern@, i as int));
            }
            let before = text.substring_char(0, i).to_owned();
            let after = text.substring_char(i + wanted.len(), size).to_owned();
            assert(before@ =~= text@.take(i as int));
            assert(after@ =~= text@.skip(i + pattern@.len()));
            return Some((before, after));
        }
        if i == last {
            return None;
        }
        i = i + 1;
    }
}

/// Splits `text` at the last `pattern` in it.
pub fn rsplit_once(text: &str, pattern: &str) -> (parts: Option<(String, String)>)
    ensures
        match parts {
            Some((before, after)) => split_at_last(text@, pattern@) == Some((before@, after@)),
            None => split_at_last(text@, pattern@) is None,
        },
{
    let chars = chars_of(text);
    let wanted = chars_of(pattern);
    if wanted.len() > chars.len() {
        return None;
    }
    let size: usize = chars.len();
    let mut i: usize = size - wanted.len();
    loop
        invariant
            i <= size - wanted@.len(),
            size == chars@.len(),
            chars@ == text@,
            wanted@ == pattern@,
            forall|j: int| i < j ==> !occurs_at(text@, pattern@, j),
        decreases i,
    {
        if stands_at(&chars, &wanted, i) {
            proof {
                assert(last_at(text@, pattern@, i as int));
            }
            let before = text.substring_char(0, i).to_owned();
            let after = text.substring_char(i + wanted.len(), size).to_owned();
            assert(before@ =~= text@.take(i as int));
            assert(after@ =~= text@.skip(i + pattern@.len()));
            return Some((before, after));
        }
        if i == 0 {
            return None;
        }
        i = i - 1;
    }
}

/// Whether `c` is white space.
pub fn is_white(c: char) -> (is: bool)
    ensures
        is == white(c),
{
    let n: u32 = c as u32;
    (0x9 <= n && n <= 0xd) || n == 0x20 || n == 0x85 || n == 0xa0 || n == 0x1680 || (0x2000 <= n
        && n <= 0x200a) || n == 0x2028 || n == 0x2029 || n == 0x202f || n == 0x205f || n == 0x3000
}

/// `text` without leading and trailing white space.
pub fn trim(text: &str) -> (inner: String)
    ensures
        inner@ == trimmed(text@),
{
    let chars = chars_of(text);
    let mut from: usize = 0;
    assert(text@.skip(0) =~= text@);
    while from < chars.len() && is_white(chars[from])
        invariant
            from <= chars@.len(),
            chars@ == text@,
            trimmed_front(text@) == trimmed_front(text@.skip(from as int)),
        decreases chars@.len() - from,
    {
        assert(text@.skip(from as int).skip(1) =~= text@.skip(from + 1));
        from = from + 1;
    }
    assert(trimmed_front(text@) == text@.skip(from as int));
    let mut to: usize = chars.len();
    assert(text@.skip(from as int) =~= text@.subrange(from as int, to as int));
    while from < to && is_white(chars[to - 1])
        invariant
            from <= to <= chars@.len(),
            chars@ == text@,
            trimmed(text@) == trimmed_back(text@.subrange(from as int, to as int)),
        decreases to,
    {
        assert(text@.subrange(from as int, to as int).drop_last() =~= text@.subrange(
            from as int,
            to - 1,
        ));
        to = to - 1;
    }
    text.substring_char(from, to).to_owned()
}

/// `c`, in lower case where it is an ASCII capital.
fn lower(c: char) -> (n: u32)
    ensures
        n == ascii_lower(c),
{
    if 'A' <= c && c <= 'Z' {
        c as u32 + 32
    } else {
        c as u32
    }
}

/// Whether the two texts differ at most in the case of ASCII letters.
pub fn eq_ignore_ascii_case(a: &str, b: &str) -> (same: bool)
    ensures
        same == same_but_case(a@, b@),
{
    let left = chars_of(a);
    let right = chars_of(b);
    if left.len() != right.len() {
        return false;
    }
    let mut i: usize = 0;
    while i < left.len()
        invariant
            i <= left@.len(),
            left@ == a@,
            right@ == b@,
            left@.len() == right@.len(),
            forall|j: int| 0 <= j < i ==> ascii_lower(a@[j]) == ascii_lower(b@[j]),
        decreases left@.len() - i,
    {
        if lower(left[i]) != lower(right[i]) {
            return false;
        }
        i = i + 1;
    }
    true
}

/// Appends the digits of `n` to `text`.
fn push_digits(text: &mut String, n: u64)
    ensures
        final(text)@ == old(text)@ + digits(n as nat),
    decreases n,
{
    let last: u8 = (n % 10) as u8;
    if n >= 10 {
        push_digits(text, n / 10);
    }
    text.push((48u8 + last) as char);
    assert(text@ =~= old(text)@ + digits(n as nat));
}

/// `n` in decimal.
pub fn decimal_text(n: i64) -> (text: String)
    ensures
        text@ == decimal(n as int),
{
    let mut text = String::new();
    if n < 0 {
        text.push('-');
        let magnitude: u64 = (-(n as i128)) as u64;
        push_digits(&mut text, magnitude);
        assert(text@ =~= decimal(n as int));
    } else {
        push_digits(&mut text, n as u64);
        assert(text@ =~= decimal(n as int));
    }
    text
}

proof fn trimmed_front_begins_black(text: Seq<char>)
    ensures
        trimmed_front(text).len() > 0 ==> !white(trimmed_front(text)[0]),
    decreases text.len(),
{
    if text.len() > 0 && white(text[0]) {
        trimmed_front_begins_black(text.skip(1));
    }
}

proof fn trimmed_back_keeps_front(text: Seq<char>)
    ensures
        trimmed_back(text).len() <= text.len(),
        trimmed_back(text).len() > 0 ==> trimmed_back(text)[0] == text[0],
        trimmed_back(text).len() > 0 ==> !white(trimmed_back(text).last()),
    decreases text.len(),
{
    if text.len() > 0 && white(text.last()) {
        trimmed_back_keeps_front(text.drop_last());
    }
}

/// A text that was trimmed has nothing left to trim.
pub proof fn trimmed_twice(text: Seq<char>)
    ensures
        trimmed(trimmed(text)) == trimmed(text),
        trimmed(text).len() > 0 ==> !white(trimmed(text)[0]) && !white(trimmed(text).last()),
{
    trimmed_front_begins_black(text);
    trimmed_back_keeps_front(trimmed_front(text));
}

proof fn first_occurrence(text: Seq<char>, pattern: Seq<char>, i: int)
    requires
        occurs_at(text, pattern, i),
    ensures
        exists|k: int| first_at(text, pattern, k),
    decreases i,
{
    if exists|j: int| occurs_at(text, pattern, j) && j < i {
        let j = choose|j: int| occurs_at(text, pattern, j) && j < i;
        first_occurrence(text, pattern, j);
    } else {
        assert(first_at(text, pattern, i));
    }
}

proof fn last_occurrence(text: Seq<char>, pattern: Seq<char>, i: int)
    requires
        occurs_at(text, pattern, i),
    ensures
        exists|k: int| last_at(text, pattern, k),
    decreases text.len() - i,
{
    if exists|j: int| occurs_at(text, pattern, j) && j > i {
        let j = choose|j: int| occurs_at(text, pattern, j) && j > i;
        last_occurrence(text, pattern, j);
    } else {
        assert(last_at(text, pattern, i));
    }
}

/// A text that is split at the first pattern falls into what stands before it, the pattern and what
/// stands behind it, and the pattern does not begin any earlier. A text in which the pattern stands
/// anywhere is split.
pub proof fn split_at_first_is_first(text: Seq<char>, pattern: Seq<char>, i: int)
    ensures
        match split_at_first(text, pattern) {
            Some((head, tail)) => {
                &&& text == head + pattern + tail
                &&& 0 <= i < head.len() ==> text.subrange(i, i + pattern.len()) != pattern
            },
            None => 0 <= i <= text.len() - pattern.len() ==> text.subrange(i, i + pattern.len())
                != pattern,
        },
{
    if exists|k: int| first_at(text, pattern, k) {
        let k = choose|k: int| first_at(text, pattern, k);
        assert(text =~= text.take(k) + text.subrange(k, k + pattern.len()) + text.skip(
            k + pattern.len(),
        ));
        if 0 <= i < k && text.subrange(i, i + pattern.len()) == pattern {
            assert(occurs_at(text, pattern, i));
        }
    } else if 0 <= i <= text.len() - pattern.len() && text.subrange(i, i + pattern.len())
        == pattern {
        first_occurrence(text, pattern, i);
    }
}

/// A text that is split at the last pattern falls into what stands before it, the pattern and what
/// stands behind it, and the pattern does not begin any later. A text in which the pattern stands
/// anywhere is split.
pub proof fn split_at_last_is_last(text: Seq<char>, pattern: Seq<char>, i: int)
    ensures
        match split_at_last(text, pattern) {
            Some((head, tail)) => {
                &&& text == head + pattern + tail
                &&& head.len() < i <= text.len() - pattern.len() ==> text.subrange(
                    i,
                    i + pattern.len(),
                ) != pattern
            },
            None => 0 <= i <= text.len() - pattern.len() ==> text.subrange(i, i + pattern.len())
                != pattern,
        },
{
    if exists|k: int| last_at(text, pattern, k) {
        let k = choose|k: int| last_at(text, pattern, k);
        assert(text =~= text.take(k) + text.subrange(k, k + pattern.len()) + text.skip(
            k + pattern.len(),
        ));
        if k < i <= text.len() - pattern.len() && text.subrange(i, i + pattern.len()) == pattern {
            assert(occurs_at(text, pattern, i));
        }
    } else if 0 <= i <= text.len() - pattern.len() && text.subrange(i, i + pattern.len())
        == pattern {
        last_occurrence(text, pattern, i);
    }
}

/// All characters are white space.
pub open spec fn all_white(text: Seq<char>) -> bool {
    forall|i: int| 0 <= i < text.len() ==> white(#[trigger] text[i])
}

proof fn front_is_white(text: Seq<char>) -> (front: Seq<char>)
    ensures
        text == front + trimmed_front(text),
        all_white(front),
    decreases text.len(),
{
    if text.len() > 0 && white(text[0]) {
        let rest = front_is_white(text.skip(1));
        let front = seq![text[0]] + rest;
        assert(text =~= seq![text[0]] + text.skip(1));
        assert(text =~= front + trimmed_front(text));
        front
    } else {
        assert(text =~= Seq::<char>::empty() + text);
        Seq::empty()
    }
}

proof fn back_is_white(text: Seq<char>) -> (back: Seq<char>)
    ensures
        text == trimmed_back(text) + back,
        all_white(back),
    decreases text.len(),
{
    if text.len() > 0 && white(text.last()) {
        let rest = back_is_white(text.drop_last());
        let back = rest.push(text.last());
        assert(text =~= text.drop_last().push(text.last()));
        assert(text =~= trimmed_back(text) + back);
        back
    } else {
        assert(text =~= text + Seq::<char>::empty());
        Seq::empty()
    }
}

/// Trimming takes away nothing but white space, from both ends.
pub proof fn only_white_space_is_trimmed(text: Seq<char>)
    ensures
        exists|front: Seq<char>, back: Seq<char>|
            #![trigger all_white(front), all_white(back)]
            all_white(front) && all_white(back) && text == front + trimmed(text) + back,
{
    let front = front_is_white(text);
    let back = back_is_white(trimmed_front(text));
    assert(text =~= front + trimmed(text) + back);
}

/// Texts differ at most in case exactly when they are as long and every character of one is that of
/// the other, or one of both is an ASCII capital and the other its small letter.
pub proof fn only_the_case_may_differ(a: Seq<char>, b: Seq<char>)
    ensures
        same_but_case(a, b) <==> a.len() == b.len() && forall|i: int|
            0 <= i < a.len() ==> {
                ||| #[trigger] a[i] == b[i]
                ||| 65 <= a[i] as int <= 90 && b[i] as int == a[i] as int + 32
                ||| 65 <= b[i] as int <= 90 && a[i] as int == b[i] as int + 32
            },
{
    if same_but_case(a, b) {
        assert forall|i: int| 0 <= i < a.len() implies {
            ||| #[trigger] a[i] == b[i]
            ||| 65 <= a[i] as int <= 90 && b[i] as int == a[i] as int + 32
            ||| 65 <= b[i] as int <= 90 && a[i] as int == b[i] as int + 32
        } by {
            assert(ascii_lower(a[i]) == ascii_lower(b[i]));
        }
    }
}

/// Whether texts differ at most in case does not depend on which one comes first, nor on the case
/// in which a third one is written.
pub proof fn same_but_case_is_an_equivalence(a: Seq<char>, b: Seq<char>, c: Seq<char>)
    ensures
        same_but_case(a, a),
        same_but_case(a, b) ==> same_but_case(b, a),
        same_but_case(a, b) && same_but_case(b, c) ==> same_but_case(a, c),
{
    if same_but_case(a, b) && same_but_case(b, c) {
        assert forall|i: int| 0 <= i < a.len() implies ascii_lower(a[i]) == ascii_lower(c[i]) by {
            assert(ascii_lower(a[i]) == ascii_lower(b[i]));
            assert(ascii_lower(b[i]) == ascii_lower(c[i]));
        }
    }
}

/// The number that digits stand for.
pub open spec fn read_digits(text: Seq<char>) -> int
    decreases text.len(),
{
    if text.len() == 0 {
        0
    } else {
        read_digits(text.drop_last()) * 10 + (text.last() as int - 48)
    }
}

/// A number can be read back from its digits, of which there is at least one, all are between 0 and
/// 9, and the first one is 0 only where it stands alone.
pub proof fn digits_read_back(n: nat)
    ensures
        read_digits(digits(n)) == n,
        digits(n).len() > 0,
        forall|i: int| 0 <= i < digits(n).len() ==> '0' <= #[trigger] digits(n)[i] <= '9',
        n > 0 ==> digits(n)[0] != '0',
        n == 0 ==> digits(n).len() == 1,
    decreases n,
{
    let last = (48 + n % 10) as char;
    if n < 10 {
        assert(digits(n) =~= seq![last]);
        assert(digits(n).drop_last() =~= Seq::<char>::empty());
        assert(read_digits(digits(n).drop_last()) == 0);
    } else {
        digits_read_back(n / 10);
        assert(digits(n).drop_last() =~= digits(n / 10));
        assert forall|i: int| 0 <= i < digits(n).len() implies '0' <= #[trigger] digits(n)[i]
            <= '9' by {
            if i < digits(n / 10).len() {
                assert(digits(n)[i] == digits(n / 10)[i]);
            }
        }
        assert(digits(n)[0] == digits(n / 10)[0]);
    }
}

/// Different numbers are written differently.
pub proof fn decimals_differ(a: int, b: int)
    ensures
        decimal(a) == decimal(b) ==> a == b,
        a < 0 <==> decimal(a)[0] == '-',
        a >= 0 ==> read_digits(decimal(a)) == a,
        a < 0 ==> read_digits(decimal(a).skip(1)) == -a,
{
    digits_read_back(if a < 0 {
        (-a) as nat
    } else {
        a as nat
    });
    digits_read_back(if b < 0 {
        (-b) as nat
    } else {
        b as nat
    });
    if a < 0 {
        assert(decimal(a).skip(1) =~= digits((-a) as nat));
    }
    if b < 0 {
        assert(decimal(b).skip(1) =~= digits((-b) as nat));
    }
    assert(a >= 0 ==> '0' <= decimal(a)[0] <= '9');
    assert(b >= 0 ==> '0' <= decimal(b)[0] <= '9');
}

/// Within ASCII, white space is what separates words and lines. Outside of it, no white space
/// stands beyond the ideographic space, and the space without a width is none.
pub proof fn white_space_separates(c: char)
    ensures
        (c as int) < 0x80 ==> (white(c) <==> c == ' ' || c == '\t' || c == '\n' || c == '\r' || c
            as int == 0xb || c as int == 0xc),
        c as int > 0x3000 ==> !white(c),
        c as int == 0x200b ==> !white(c),
        c as int == 0xa0 || c as int == 0x3000 ==> white(c),
{
}

} // verus!
