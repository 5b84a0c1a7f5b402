//! Posts on reddit and the identifiers that tell them apart.
use std::cmp::Ordering;
use std::str::FromStr;

use vstd::prelude::*;
use vstd::std_specs::cmp::{PartialEqSpecImpl, PartialOrdSpecImpl};
use vstd::std_specs::convert::TryFromSpecImpl;
use vstd::utf8::encode_utf8;

use crate::timestamp::Timestamp;

verus! {

/// The number that the bytes write in base 256, the first byte counting most.
pub open spec fn base256(bytes: Seq<u8>) -> nat
    decreases bytes.len(),
{
    if bytes.len() == 0 {
        0
    } else {
        base256(bytes.drop_last()) * 256 + bytes.last() as nat
    }
}

/// The bytes, filled up with NUL bytes to the width of an identifier.
pub open spec fn padded(bytes: Seq<u8>) -> Seq<u8> {
    Seq::new(
        16,
        |i: int|
            if i < bytes.len() {
                bytes[i]
            } else {
                0
            },
    )
}

/// The bytes are those of an identifier: one to sixteen ASCII characters, none of them NUL.
pub open spec fn id_bytes(bytes: Seq<u8>) -> bool {
    &&& 1 <= bytes.len() <= 16
    &&& forall|i: int| 0 <= i < bytes.len() ==> 1 <= #[trigger] bytes[i] < 128
}

/// Why a text is no identifier.
#[derive(Debug, Clone, Copy, PartialEq, Eq, Structural)]
pub enum IdError {
    /// It is empty or too long.
    InvalidSize,
    /// A NUL character stands in it.
    InvalidNull,
    /// A character outside of ASCII stands in it.
    NonAscii,
}

/// What is wrong with a text that is no identifier. Its size counts first, then its characters.
pub open spec fn id_fault(bytes: Seq<u8>) -> IdError {
    if !(1 <= bytes.len() <= 16) {
        IdError::InvalidSize
    } else if exists|i: int| 0 <= i < bytes.len() && #[trigger] bytes[i] >= 128 {
        IdError::NonAscii
    } else {
        IdError::InvalidNull
    }
}

/// `tinystr::TinyStr16::from_str`: a tiny string is made of one to sixteen bytes between 1 and 127,
/// and holds them in order, filled up with NUL bytes. Any other text is refused, for its size first,
/// then for a byte above 127, then for a NUL byte.
#[verifier::external_body]
fn tiny_bytes(text: &str) -> (bytes: Result<[u8; 16], IdError>)
    ensures
        match bytes {
            Ok(bytes) => id_bytes(encode_utf8(text@)) && bytes@ == padded(encode_utf8(text@)),
            Err(fault) => !id_bytes(encode_utf8(text@)) && fault == id_fault(encode_utf8(text@)),
        },
{
    match tinystr::TinyStr16::from_str(text) {
        Ok(tiny) => Ok(u128::from(tiny).to_le_bytes()),
        Err(tinystr::Error::InvalidSize) => Err(IdError::InvalidSize),
        Err(tinystr::Error::InvalidNull) => Err(IdError::InvalidNull),
        Err(tinystr::Error::NonAscii) => Err(IdError::NonAscii),
    }
}

/// How many numbers can be written with `width` bytes.
spec fn room(width: nat) -> nat
    decreases width,
{
    if width == 0 {
        1
    } else {
        room((width - 1) as nat) * 256
    }
}

proof fn base256_fits(bytes: Seq<u8>)
    ensures
        base256(bytes) < room(bytes.len()),
    decreases bytes.len(),
{
    if bytes.len() > 0 {
        base256_fits(bytes.drop_last());
    }
}

proof fn room_grows(narrow: nat, wide: nat)
    requires
        narrow <= wide,
    ensures
        room(narrow) <= room(wide),
    decreases wide,
{
    if narrow < wide {
        room_grows(narrow, (wide - 1) as nat);
    }
}

proof fn room_of_sixteen()
    ensures
        room(16) == u128::MAX + 1,
{
    reveal_with_fuel(room, 17);
}

/// The number that sixteen bytes write.
fn pack(bytes: &[u8; 16]) -> (code: u128)
    ensures
        code == base256(bytes@),
{
    let mut code: u128 = 0;
    let mut i: usize = 0;
    while i < 16
        invariant
            i <= 16,
            bytes@.len() == 16,
            code == base256(bytes@.take(i as int)),
        decreases 16 - i,
    {
        proof {
            let next = bytes@.take(i + 1);
            assert(next.drop_last() =~= bytes@.take(i as int));
            base256_fits(next);
            room_grows((i + 1) as nat, 16);
            room_of_sixteen();
        }
        code = code * 256 + bytes[i] as u128;
        i = i + 1;
    }
    assert(bytes@.take(16) =~= bytes@);
    code
}

/// The identifier of a post, held as the number that its characters write.
#[derive(Debug, Clone, Copy, PartialEq, Eq, PartialOrd, Ord, Hash, Structural)]
pub struct RedditId {
    code: u128,
}

impl View for RedditId {
    type V = u128;

    /// The number that the characters write.
    closed spec fn view(&self) -> u128 {
        self.code
    }
}

impl RedditId {
    /// The identifier that the bytes write.
    pub closed spec fn of(bytes: Seq<u8>) -> RedditId {
        RedditId { code: base256(padded(bytes)) as u128 }
    }

    /// The identifier is written with the bytes.
    pub open spec fn written(self, bytes: Seq<u8>) -> bool {
        id_bytes(bytes) && self@ == base256(padded(bytes))
    }

    /// The number is that of some text.
    #[verifier::type_invariant]
    pub open spec fn wf(self) -> bool {
        exists|bytes: Seq<u8>| self.written(bytes)
    }

    /// The number that the characters write.
    pub fn code(&self) -> (code: u128)
        ensures
            code == self@,
    {
        self.code
    }

    /// The text of the identifier.
    pub fn text(&self) -> (text: String)
        ensures
            self.written(encode_utf8(text@)),
    {
        proof {
            use_type_invariant(self);
        }
        let ghost bytes = choose|bytes: Seq<u8>| self.written(bytes);
        let ghost full = padded(bytes);
        let mut reversed: Vec<u8> = Vec::new();
        let mut rest: u128 = self.code;
        assert(full.take(16) =~= full);
        while reversed.len() < 16
            invariant
                full.len() == 16,
                reversed@.len() <= 16,
                rest == base256(full.take(16 - reversed@.len())),
                forall|i: int| 0 <= i < reversed@.len() ==> reversed@[i] == full[15 - i],
            decreases 16 - reversed@.len(),
        {
            proof {
                let whole = full.take(16 - reversed@.len());
                assert(whole.drop_last() =~= full.take(15 - reversed@.len()));
            }
            reversed.push((rest % 256) as u8);
            rest = rest / 256;
        }
        let mut text = String::new();
        let mut i: usize = 0;
        while i < 16 && reversed[15 - i] != 0
            invariant
                i <= 16,
                reversed@.len() == 16,
                full == padded(bytes),
                id_bytes(bytes),
                i <= bytes.len(),
                forall|k: int| 0 <= k < 16 ==> reversed@[k] == full[15 - k],
                text@.len() == i,
                forall|k: int| 0 <= k < i ==> text@[k] == bytes[k] as char,
            ensures
                i == bytes.len(),
            decreases 16 - i,
        {
            assert(reversed@[15 - i] == full[i as int]);
            text.push(reversed[15 - i] as char);
            i = i + 1;
        }
        proof {
            assert(vstd::utf8::is_ascii_chars(text@)) by {
                assert forall|k: int| 0 <= k < text@.len() implies '\0' <= #[trigger] text@[k]
                    <= '\u{7f}' by {
                    assert(1 <= bytes[k] < 128);
                }
            }
            vstd::utf8::is_ascii_chars_encode_utf8(text@);
            assert(encode_utf8(text@) =~= bytes) by {
                assert forall|k: int| 0 <= k < bytes.len() implies encode_utf8(text@)[k]
                    == bytes[k] by {
                    assert(1 <= bytes[k] < 128);
                }
            }
        }
        text
    }
}

impl TryFrom<&str> for RedditId {
    type Error = IdError;

    /// The identifier that the text writes, if it is one.
    fn try_from(text: &str) -> (id: Result<Self, IdError>) {
        match tiny_bytes(text) {
            Ok(bytes) => {
                proof {
                    read_id_is_written(encode_utf8(text@));
                }
                Ok(RedditId { code: pack(&bytes) })
            },
            Err(fault) => Err(fault),
        }
    }
}

impl TryFromSpecImpl<&str> for RedditId {
    open spec fn obeys_try_from_spec() -> bool {
        true
    }

    open spec fn try_from_spec(text: &str) -> Result<Self, IdError> {
        let bytes = encode_utf8(text@);
        if id_bytes(bytes) {
            Ok(RedditId::of(bytes))
        } else {
            Err(id_fault(bytes))
        }
    }
}

impl Default for RedditId {
    /// The identifier that is written with a full stop.
    fn default() -> (id: Self)
        ensures
            id.written(seq![46u8]),
            id.wf(),
    {
        proof {
            reveal_strlit(".");
            assert("."@ =~= seq!['.']);
            assert(vstd::utf8::is_ascii_chars("."@));
            vstd::utf8::is_ascii_chars_encode_utf8("."@);
            assert(encode_utf8("."@) =~= seq![46u8]);
            base256_fits(padded(seq![46u8]));
            room_of_sixteen();
            assert(id_bytes(encode_utf8("."@)));
        }
        let id = RedditId::try_from(".").unwrap();
        assert(id.written(seq![46u8]));
        id
    }
}

/// A link that was posted on reddit. Two posts are the same when their identifiers are.
#[derive(Debug)]
pub struct RedditPost {
    /// When it was posted.
    pub created: Timestamp,
    pub id: RedditId,
    /// Where it links to.
    pub url: String,
}

impl RedditPost {
    /// The post was made before `other`; posts of one second are ordered by their identifiers.
    pub open spec fn before(self, other: RedditPost) -> bool {
        self.created.unix_ts < other.created.unix_ts || self.created.unix_ts
            == other.created.unix_ts && self.id@ < other.id@
    }

    /// Whether the post was made before `other`.
    pub fn is_before(&self, other: &RedditPost) -> (before: bool)
        ensures
            before == self.before(*other),
    {
        self.created.unix_ts < other.created.unix_ts || self.created.unix_ts
            == other.created.unix_ts && self.id.code() < other.id.code()
    }

    /// How the post is ordered against `other`: by the second, then by the identifier.
    pub fn cmp(&self, other: &Self) -> (order: Ordering)
        ensures
            order == (if self.before(*other) {
                Ordering::Less
            } else if other.before(*self) {
                Ordering::Greater
            } else {
                Ordering::Equal
            }),
    {
        if self.is_before(other) {
            Ordering::Less
        } else if other.is_before(self) {
            Ordering::Greater
        } else {
            Ordering::Equal
        }
    }
}

impl Clone for RedditPost {
    fn clone(&self) -> (copy: Self)
        ensures
            copy == *self,
    {
        RedditPost { created: self.created, id: self.id, url: self.url.clone() }
    }
}

impl Default for RedditPost {
    fn default() -> (post: Self)
        ensures
            post.created.unix_ts == 1577880000,
            post.created.nanos == 0,
            post.id.written(seq![46u8]),
            post.url@.len() == 0,
    {
        RedditPost { created: Timestamp::default(), id: RedditId::default(), url: String::new() }
    }
}

impl PartialEq for RedditPost {
    fn eq(&self, other: &Self) -> (same: bool) {
        self.id.code() == other.id.code()
    }
}

impl PartialEqSpecImpl for RedditPost {
    open spec fn obeys_eq_spec() -> bool {
        true
    }

    open spec fn eq_spec(&self, other: &Self) -> bool {
        self.id@ == other.id@
    }
}

impl Eq for RedditPost {

}

impl PartialOrd for RedditPost {
    fn partial_cmp(&self, other: &Self) -> (order: Option<Ordering>) {
        Some(self.cmp(other))
    }
}

impl PartialOrdSpecImpl for RedditPost {
    open spec fn obeys_partial_cmp_spec() -> bool {
        true
    }

    open spec fn partial_cmp_spec(&self, other: &Self) -> Option<Ordering> {
        if self.before(*other) {
            Some(Ordering::Less)
        } else if other.before(*self) {
            Some(Ordering::Greater)
        } else {
            Some(Ordering::Equal)
        }
    }
}

/// Posts with different identifiers are strictly ordered: of any two of them one was made before
/// the other, and the order is transitive.
pub proof fn posts_are_ordered(a: RedditPost, b: RedditPost, c: RedditPost)
    requires
        a.id@ != b.id@,
    ensures
        a.before(b) != b.before(a),
        a.before(b) && b.before(c) ==> a.before(c),
        !a.before(a),
{
}

/// Of two byte sequences of the same length, the first one stands before the second one in the
/// dictionary.
pub open spec fn dictionary_before(a: Seq<u8>, b: Seq<u8>) -> bool {
    exists|k: int|
        0 <= k < a.len() && #[trigger] a[k] < b[k] && forall|j: int|
            0 <= j < k ==> #[trigger] a[j] == b[j]
}

proof fn base256_ordered(a: Seq<u8>, b: Seq<u8>)
    requires
        a.len() == b.len(),
    ensures
        base256(a) < base256(b) <==> dictionary_before(a, b),
        base256(a) == base256(b) <==> a == b,
    decreases a.len(),
{
    if a.len() == 0 {
        assert(a =~= b);
    } else {
        let p = a.drop_last();
        let q = b.drop_last();
        base256_ordered(p, q);
        assert(a =~= p.push(a.last()));
        assert(b =~= q.push(b.last()));
        if dictionary_before(p, q) {
            let k = choose|k: int|
                0 <= k < p.len() && #[trigger] p[k] < q[k] && forall|j: int|
                    0 <= j < k ==> #[trigger] p[j] == q[j];
            assert(a[k] < b[k]);
            assert forall|j: int| 0 <= j < k implies #[trigger] a[j] == b[j] by {
                assert(p[j] == q[j]);
            }
        }
        if p == q && a.last() < b.last() {
            let k = a.len() - 1;
            assert(a[k] < b[k]);
            assert forall|j: int| 0 <= j < k implies #[trigger] a[j] == b[j] by {
                assert(p[j] == q[j]);
            }
        }
        if dictionary_before(a, b) {
            let k = choose|k: int|
                0 <= k < a.len() && #[trigger] a[k] < b[k] && forall|j: int|
                    0 <= j < k ==> #[trigger] a[j] == b[j];
            if k < p.len() {
                assert(p[k] < q[k]);
                assert forall|j: int| 0 <= j < k implies #[trigger] p[j] == q[j] by {
                    assert(a[j] == b[j]);
                }
            } else {
                assert forall|j: int| 0 <= j < p.len() implies #[trigger] p[j] == q[j] by {
                    assert(a[j] == b[j]);
                }
                assert(p =~= q);
            }
        }
    }
}

proof fn padding_injective(a: Seq<u8>, b: Seq<u8>)
    requires
        id_bytes(a),
        id_bytes(b),
        padded(a) == padded(b),
    ensures
        a == b,
{
    if a.len() < b.len() {
        assert(padded(a)[a.len() as int] == 0);
        assert(padded(b)[a.len() as int] == b[a.len() as int]);
    }
    if b.len() < a.len() {
        assert(padded(b)[b.len() as int] == 0);
        assert(padded(a)[b.len() as int] == a[b.len() as int]);
    }
    assert forall|i: int| 0 <= i < a.len() implies a[i] == b[i] by {
        assert(padded(a)[i] == a[i]);
        assert(padded(b)[i] == b[i]);
    }
    assert(a =~= b);
}

/// An identifier is its number: no two identifiers have the same one.
pub proof fn id_is_its_number(a: RedditId, b: RedditId)
    ensures
        a == b <==> a@ == b@,
{
}

/// An identifier has one text: no two texts make the same identifier.
pub proof fn id_has_one_text(id: RedditId, a: Seq<u8>, b: Seq<u8>)
    requires
        id.written(a),
        id.written(b),
    ensures
        a == b,
{
    base256_ordered(padded(a), padded(b));
    padding_injective(a, b);
}

/// Identifiers are ordered as their texts stand in the dictionary, a text before its extensions.
pub proof fn ids_in_dictionary_order(a: RedditId, b: RedditId, x: Seq<u8>, y: Seq<u8>)
    requires
        a.written(x),
        b.written(y),
    ensures
        a@ < b@ <==> dictionary_before(padded(x), padded(y)),
        a == b <==> x == y,
{
    base256_ordered(padded(x), padded(y));
    if a == b {
        padding_injective(x, y);
    }
}

/// What is read from the bytes of an identifier is written with those bytes.
pub proof fn read_id_is_written(bytes: Seq<u8>)
    requires
        id_bytes(bytes),
    ensures
        RedditId::of(bytes).written(bytes),
        RedditId::of(bytes).wf(),
{
    base256_fits(padded(bytes));
    room_of_sixteen();
    assert(RedditId::of(bytes).written(bytes));
}

/// A text that is an identifier comes back from it.
pub proof fn id_round_trip(text: &str, back: &str)
    requires
        id_bytes(encode_utf8(text@)),
        RedditId::of(encode_utf8(text@)).written(encode_utf8(back@)),
    ensures
        back@ == text@,
{
    let id = RedditId::of(encode_utf8(text@));
    read_id_is_written(encode_utf8(text@));
    id_has_one_text(id, encode_utf8(text@), encode_utf8(back@));
    vstd::utf8::encode_utf8_decode_utf8(text@);
    vstd::utf8::encode_utf8_decode_utf8(back@);
}

/// A post that was made in an earlier second is before any that was made in a later one; within one
/// second, the identifiers decide.
pub proof fn earlier_posts_come_first(a: RedditPost, b: RedditPost)
    ensures
        a.created.unix_ts < b.created.unix_ts ==> a.before(b) && !b.before(a),
        a.created.unix_ts == b.created.unix_ts ==> (a.before(b) <==> a.id@ < b.id@),
        a.before(b) ==> a.created.unix_ts <= b.created.unix_ts,
{
}

/// Posts are the same just if their identifiers are, whatever else differs, and are ordered by when
/// they were made.
pub proof fn posts_go_by_their_identifiers(a: RedditPost, b: RedditPost)
    ensures
        vstd::std_specs::cmp::PartialEqSpec::eq_spec(&a, &b) <==> a.id@ == b.id@,
        vstd::std_specs::cmp::PartialOrdSpec::partial_cmp_spec(&a, &b) == Some(Ordering::Less)
            <==> a.before(b),
        vstd::std_specs::cmp::PartialOrdSpec::partial_cmp_spec(&a, &b) == Some(Ordering::Greater)
            <==> b.before(a),
        vstd::std_specs::cmp::PartialOrdSpec::partial_cmp_spec(&a, &b) is Some,
{
}

} // verus!
