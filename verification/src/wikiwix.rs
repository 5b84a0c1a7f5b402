//! The archive at wikiwix.com.
use vstd::prelude::*;
use vstd::utf8::{decode_utf8, valid_utf8};

use crate::networking::{plain_get, Request};
use crate::query::{field, fields, fields_injective, pairs_of, query_field, query_string};
use crate::text::{
    lossy_utf8, rsplit_once, split_at_first, split_at_first_is_first, split_at_last,
    split_at_last_is_last, split_once, text_from_utf8_lossy,
};

verus! {

/// Why a page was not archived.
#[derive(Debug, Clone, Copy, PartialEq, Eq, Structural)]
pub enum WikiwixError {
    UnexpectedStatus,
    NoRedirect,
    /// The redirect is not made of visible ASCII characters.
    UnreadableRedirect,
    UnexpectedRedirect,
    NoRevision,
}

impl WikiwixError {
    /// What went wrong, for a reader.
    pub fn message(&self) -> (text: &'static str)
        ensures
            text@ == (match self {
                WikiwixError::UnexpectedStatus => "Unexpected status code != 302"@,
                WikiwixError::NoRedirect => "No redirect found"@,
                WikiwixError::UnreadableRedirect => "failed to convert header to a str"@,
                WikiwixError::UnexpectedRedirect => "Unexpected redirect format"@,
                WikiwixError::NoRevision => "No rev_t found"@,
            }),
    {
        match self {
            WikiwixError::UnexpectedStatus => "Unexpected status code != 302",
            WikiwixError::NoRedirect => "No redirect found",
            WikiwixError::UnreadableRedirect => "failed to convert header to a str",
            WikiwixError::UnexpectedRedirect => "Unexpected redirect format",
            WikiwixError::NoRevision => "No rev_t found",
        }
    }
}

/// Asks to archive a page.
pub fn archive_request(url: &str) -> (request: Request)
    ensures
        request@ == plain_get(
            "http://archive.wikiwix.com/cache/?"@ + fields(
                seq![("url"@, url@), ("apiresponse"@, "1"@)],
            ),
        ),
{
    let pairs = [("url", url), ("apiresponse", "1")];
    assert(pairs_of(pairs@) =~= seq![("url"@, url@), ("apiresponse"@, "1"@)]);
    let mut uri = "http://archive.wikiwix.com/cache/?".to_owned();
    uri.append(query_string(&pairs).as_str());
    Request::get(uri)
}

/// The byte is a visible ASCII character, a space or a tab.
pub open spec fn visible(byte: u8) -> bool {
    32 <= byte < 127 || byte == 9
}

/// All bytes are visible.
pub open spec fn all_visible(bytes: Seq<u8>) -> bool {
    forall|i: int| 0 <= i < bytes.len() ==> visible(#[trigger] bytes[i])
}

/// `hyper::header::HeaderValue::to_str`: the text of a header whose bytes are all visible; there is
/// none for any other header. `HeaderValue::from_bytes`, which makes the header, refuses only bytes
/// that are not visible.
#[verifier::external_body]
fn header_text(bytes: &[u8]) -> (text: Option<String>)
    ensures
        text is Some <==> all_visible(bytes@),
        text matches Some(text) ==> text@ == bytes@.map_values(|byte: u8| byte as char),
{
    let header = hyper::header::HeaderValue::from_bytes(bytes).ok()?;
    header.to_str().ok().map(|text| text.to_owned())
}

/// The redirect leads to what was archived.
pub open spec fn good_redirect(redirect: Seq<char>) -> bool {
    split_at_first(redirect, "index2.php?url="@) matches Some((head, tail)) && head.len() == 0
        && tail.len() > 0
}

/// Whether a page was archived, by the status of the answer and where it redirects to.
pub fn check_redirect(status: u16, location: Option<&[u8]>) -> (result: Result<(), WikiwixError>)
    ensures
        match result {
            Ok(_) => {
                &&& status == 302
                &&& location matches Some(bytes)
                &&& all_visible(bytes@)
                &&& good_redirect(bytes@.map_values(|byte: u8| byte as char))
            },
            Err(WikiwixError::UnexpectedStatus) => status != 302,
            Err(WikiwixError::NoRedirect) => {
                &&& status == 302
                &&& location matches Some(bytes) ==> bytes@.len() == 0
            },
            Err(WikiwixError::UnreadableRedirect) => {
                &&& status == 302
                &&& location matches Some(bytes)
                &&& bytes@.len() > 0
                &&& !all_visible(bytes@)
            },
            Err(WikiwixError::UnexpectedRedirect) => {
                &&& status == 302
                &&& location matches Some(bytes)
                &&& bytes@.len() > 0
                &&& all_visible(bytes@)
                &&& !good_redirect(bytes@.map_values(|byte: u8| byte as char))
            },
            Err(WikiwixError::NoRevision) => false,
        },
{
    if status != 302 {
        return Err(WikiwixError::UnexpectedStatus);
    }
    let bytes = match location {
        Some(bytes) => bytes,
        None => {
            return Err(WikiwixError::NoRedirect);
        },
    };
    if bytes.len() == 0 {
        return Err(WikiwixError::NoRedirect);
    }
    let redirect = match header_text(bytes) {
        Some(redirect) => redirect,
        None => {
            return Err(WikiwixError::UnreadableRedirect);
        },
    };
    match split_once(redirect.as_str(), "index2.php?url=") {
        Some((head, tail)) => {
            if head.as_str().is_empty() && !tail.as_str().is_empty() {
                Ok(())
            } else {
                Err(WikiwixError::UnexpectedRedirect)
            }
        },
        None => Err(WikiwixError::UnexpectedRedirect),
    }
}

/// Asks for the archived page.
pub fn read_request(url: &str) -> (request: Request)
    ensures
        request@ == plain_get(
            "http://archive.wikiwix.com/cache/index2.php?"@ + field("url"@, url@),
        ),
{
    let mut uri = "http://archive.wikiwix.com/cache/index2.php?".to_owned();
    uri.append(query_field("url", url).as_str());
    Request::get(uri)
}

/// The revision that an archived page names: what stands between the last `?rev_t=` and the next
/// `&`, if anything does.
pub open spec fn revision(page: Seq<char>) -> Option<Seq<char>> {
    match split_at_last(page, "?rev_t="@) {
        Some((_, tail)) => match split_at_first(tail, "&"@) {
            Some((revision, _)) if revision.len() > 0 => Some(revision),
            _ => None,
        },
        None => None,
    }
}

/// Where a revision of a page is kept.
pub open spec fn cached_at(revision: Seq<char>, url: Seq<char>) -> Seq<char> {
    "http://archive.wikiwix.com/cache/index2.php?"@ + fields(
        seq![("rev_t"@, revision), ("url"@, url)],
    )
}

/// Where the page is kept, by the text of the archived page.
pub fn cached_url_in_text(url: &str, page: &str) -> (cached: Result<String, WikiwixError>)
    ensures
        match cached {
            Ok(cached) => revision(page@) matches Some(revision) && cached@ == cached_at(
                revision,
                url@,
            ),
            Err(error) => revision(page@) is None && error == WikiwixError::NoRevision,
        },
        cached matches Ok(cached) ==> cached@ == "http://archive.wikiwix.com/cache/index2.php?"@
            + fields(seq![("rev_t"@, revision(page@)->0), ("url"@, url@)]),
{
    let tail = match rsplit_once(page, "?rev_t=") {
        Some((_, tail)) => tail,
        None => {
            return Err(WikiwixError::NoRevision);
        },
    };
    let revision = match split_once(tail.as_str(), "&") {
        Some((revision, _)) => revision,
        None => {
            return Err(WikiwixError::NoRevision);
        },
    };
    if revision.as_str().is_empty() {
        return Err(WikiwixError::NoRevision);
    }
    let pairs = [("rev_t", revision.as_str()), ("url", url)];
    assert(pairs_of(pairs@) =~= seq![("rev_t"@, revision@), ("url"@, url@)]);
    let mut cached = "http://archive.wikiwix.com/cache/index2.php?".to_owned();
    cached.append(query_string(&pairs).as_str());
    Ok(cached)
}

/// Where the page is kept, by the bytes of the archived page.
pub fn cached_url(url: &str, page: &[u8]) -> (cached: Result<String, WikiwixError>)
    ensures
        match cached {
            Ok(cached) => revision(lossy_utf8(page@)) matches Some(revision) && cached@
                == cached_at(revision, url@),
            Err(error) => revision(lossy_utf8(page@)) is None && error == WikiwixError::NoRevision,
        },
        valid_utf8(page@) ==> match cached {
            Ok(cached) => revision(decode_utf8(page@)) matches Some(revision) && cached@
                == cached_at(revision, url@),
            Err(_) => revision(decode_utf8(page@)) is None,
        },
{
    cached_url_in_text(url, text_from_utf8_lossy(page).as_str())
}

/// A revision that is found in a page is what stands between a `?rev_t=` and the next ampersand. It
/// is not empty, holds no ampersand, and no `?rev_t=` stands any later in the page.
pub proof fn revision_stands_in_the_page(page: Seq<char>) -> (sides: (Seq<char>, Seq<char>))
    requires
        revision(page) is Some,
    ensures
        revision(page)->0.len() > 0,
        !revision(page)->0.contains('&'),
        page == sides.0 + "?rev_t="@ + revision(page)->0 + seq!['&'] + sides.1,
        forall|i: int|
            sides.0.len() < i <= page.len() - 7 ==> #[trigger] page.subrange(i, i + 7)
                != "?rev_t="@,
{
    reveal_strlit("?rev_t=");
    reveal_strlit("&");
    let mark = "?rev_t="@;
    assert("&"@ =~= seq!['&']);
    let (front, tail) = split_at_last(page, mark)->0;
    let (found, rest) = split_at_first(tail, "&"@)->0;
    split_at_last_is_last(page, mark, 0);
    split_at_first_is_first(tail, "&"@, 0);
    assert(page =~= front + mark + found + seq!['&'] + rest);
    if found.contains('&') {
        let k = choose|k: int| 0 <= k < found.len() && found[k] == '&';
        split_at_first_is_first(tail, "&"@, k);
        assert(tail[k] == '&');
        assert(tail.subrange(k, k + 1) =~= "&"@);
    }
    assert forall|i: int| front.len() < i <= page.len() - 7 implies #[trigger] page.subrange(
        i,
        i + 7,
    ) != mark by {
        split_at_last_is_last(page, mark, i);
    }
    (front, rest)
}

/// A page names the revision behind its last `?rev_t=`, up to the next ampersand.
pub proof fn last_revision_is_found(front: Seq<char>, found: Seq<char>, rest: Seq<char>)
    requires
        found.len() > 0,
        !found.contains('&'),
        forall|i: int|
            front.len() < i <= front.len() + 1 + found.len() + rest.len() ==> #[trigger] (front
                + "?rev_t="@ + found + seq!['&'] + rest).subrange(i, i + 7) != "?rev_t="@,
    ensures
        revision(front + "?rev_t="@ + found + seq!['&'] + rest) == Some(found),
{
    reveal_strlit("?rev_t=");
    reveal_strlit("&");
    let mark = "?rev_t="@;
    let amp = "&"@;
    assert(amp =~= seq!['&']);
    let page = front + mark + found + seq!['&'] + rest;
    let at = front.len() as int;
    assert(page.subrange(at, at + 7) =~= mark);
    split_at_last_is_last(page, mark, at);
    let (head, tail) = split_at_last(page, mark)->0;
    assert(head.len() == at) by {
        assert(page.subrange(head.len() as int, head.len() as int + 7) =~= mark);
    }
    assert(tail =~= found + seq!['&'] + rest);
    let end = found.len() as int;
    assert(tail.subrange(end, end + 1) =~= amp);
    split_at_first_is_first(tail, amp, end);
    let (name, other) = split_at_first(tail, amp)->0;
    assert(tail[name.len() as int] == '&');
    if name.len() < end {
        assert(found[name.len() as int] == '&');
    }
    assert(name =~= found);
}

/// A page without `?rev_t=`, or without an ampersand behind the last one, names no revision.
pub proof fn no_revision_without_its_marks(page: Seq<char>)
    ensures
        revision(page) is Some ==> page.contains('&') && page.len() >= 9,
        (forall|i: int| 0 <= i <= page.len() - 7 ==> #[trigger] page.subrange(i, i + 7)
            != "?rev_t="@) ==> revision(page) is None,
{
    reveal_strlit("?rev_t=");
    if revision(page) is Some {
        let found = revision(page)->0;
        let (front, rest) = revision_stands_in_the_page(page);
        let k = front.len() + 7 + found.len();
        assert(page[k as int] == '&');
        let at = front.len() as int;
        assert(page.subrange(at, at + 7) =~= "?rev_t="@);
    }
}

/// A redirect leads to what was archived exactly when it begins with `index2.php?url=` and goes on.
pub proof fn good_redirect_begins_right(redirect: Seq<char>, tail: Seq<char>)
    ensures
        good_redirect("index2.php?url="@ + tail) <==> tail.len() > 0,
        good_redirect(redirect) ==> redirect.len() > 15 && redirect.take(15) == "index2.php?url="@,
{
    reveal_strlit("index2.php?url=");
    let mark = "index2.php?url="@;
    let text = mark + tail;
    assert(text.subrange(0, 15) =~= mark);
    split_at_first_is_first(text, mark, 0);
    if let Some((head, rest)) = split_at_first(text, mark) {
        assert(head.len() == 0);
        assert(rest =~= tail);
    }
    split_at_first_is_first(redirect, mark, 0);
    if good_redirect(redirect) {
        let (head, rest) = split_at_first(redirect, mark)->0;
        assert(redirect =~= mark + rest);
        assert(redirect.take(15) =~= mark);
    }
}

/// Every revision of every page is kept at a place of its own.
pub proof fn cached_revisions_are_told_apart(
    revision: Seq<char>,
    url: Seq<char>,
    other: Seq<char>,
    another: Seq<char>,
)
    requires
        cached_at(revision, url) == cached_at(other, another),
    ensures
        revision == other,
        url == another,
{
    let host = "http://archive.wikiwix.com/cache/index2.php?"@;
    let first = seq![("rev_t"@, revision), ("url"@, url)];
    let second = seq![("rev_t"@, other), ("url"@, another)];
    assert(fields(first) =~= (host + fields(first)).skip(host.len() as int));
    assert(fields(second) =~= (host + fields(second)).skip(host.len() as int));
    fields_injective(first, second);
    assert(first[0] == second[0] && first[1] == second[1]);
}

} // verus!
