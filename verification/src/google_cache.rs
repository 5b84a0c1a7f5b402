//! The cache of Google.
use vstd::prelude::*;

use crate::networking::{HeaderName, Method, Request, RequestView};
use crate::query::{field, fields, fields_injective, query_field};
use crate::text::{first_at, occurs_at, split_at_first, split_once};

verus! {

/// The cache did not answer with the page.
#[derive(Debug, Clone, Copy, PartialEq, Eq, Structural)]
pub struct UnexpectedStatus;

impl UnexpectedStatus {
    /// What went wrong, for a reader.
    pub fn message(&self) -> (text: &'static str)
        ensures
            text@ == "Unexpected status code != 200"@,
    {
        "Unexpected status code != 200"
    }
}

/// Where the cache keeps a page.
pub open spec fn cached_at(source_url: Seq<char>) -> Seq<char> {
    "https://webcache.googleusercontent.com/search?"@ + field("q"@, "cache:"@ + source_url)
}

/// Where the cache keeps a page.
pub fn cache_url(source_url: &str) -> (url: String)
    ensures
        url@ == cached_at(source_url@),
        url@ == "https://webcache.googleusercontent.com/search?"@ + field(
            "q"@,
            "cache:"@ + source_url@,
        ),
{
    let mut entry = "cache:".to_owned();
    entry.append(source_url);
    let mut url = "https://webcache.googleusercontent.com/search?".to_owned();
    url.append(query_field("q", entry.as_str()).as_str());
    url
}

/// Asks the cache for a page, so that nothing is tracked and nobody has to consent.
pub fn cache_request(source_url: &str) -> (request: Request)
    ensures
        request@ == (RequestView {
            method: Method::Get,
            uri: cached_at(source_url@),
            headers: seq![
                (HeaderName::Dnt, "1"@),
                (HeaderName::Cookie, "CONSENT=YES+GB.de+V13+BX"@),
            ],
            body: seq![],
        }),
{
    let mut request = Request::get(cache_url(source_url));
    request.header(HeaderName::Dnt, "1".to_owned());
    request.header(HeaderName::Cookie, "CONSENT=YES+GB.de+V13+BX".to_owned());
    assert(request@.headers =~= seq![
        (HeaderName::Dnt, "1"@),
        (HeaderName::Cookie, "CONSENT=YES+GB.de+V13+BX"@),
    ]);
    request
}

/// Where the page is kept, if the cache answered with it.
pub fn cached_url(source_url: &str, status: u16) -> (url: Result<String, UnexpectedStatus>)
    ensures
        match url {
            Ok(url) => status == 200 && url@ == cached_at(source_url@),
            Err(_) => status != 200,
        },
{
    if status == 200 {
        Ok(cache_url(source_url))
    } else {
        Err(UnexpectedStatus)
    }
}

/// What to do after an attempt to find a page.
#[derive(Debug)]
pub enum Next<E> {
    /// It is over.
    Done(Result<String, E>),
    /// Try once more, with this address.
    Retry(String),
}

/// What to do after the first attempt to find a page: where it failed, the page is looked for once
/// more without the query of its address, if there is one.
pub fn after_first_attempt<E>(source_url: &str, result: Result<String, E>) -> (next: Next<E>)
    ensures
        match (result, split_at_first(source_url@, "?"@)) {
            (Err(_), Some((base, _))) => next matches Next::Retry(url) && url@ == base,
            _ => next == Next::Done(result),
        },
{
    match result {
        Ok(url) => Next::Done(Ok(url)),
        Err(error) => match split_once(source_url, "?") {
            Some((base, _)) => Next::Retry(base),
            None => Next::Done(Err(error)),
        },
    }
}

/// The address with which a page is looked for once more has no query.
pub proof fn retry_has_no_query(source_url: Seq<char>, base: Seq<char>, query: Seq<char>)
    requires
        split_at_first(source_url, "?"@) == Some((base, query)),
    ensures
        split_at_first(base, "?"@) is None,
        source_url == base + "?"@ + query,
{
    reveal_strlit("?");
    let mark = "?"@;
    let i = choose|i: int| first_at(source_url, mark, i);
    assert(source_url.subrange(i, i + 1) == mark);
    assert(source_url =~= base + mark + query);
    if exists|j: int| first_at(base, mark, j) {
        let j = choose|j: int| first_at(base, mark, j);
        assert(source_url.subrange(j, j + 1) =~= base.subrange(j, j + 1));
        assert(occurs_at(source_url, mark, j));
    }
}

/// The cache keeps every page at a place of its own: the whole address of the page, its query
/// included, can be told from where it is kept.
pub proof fn cached_pages_are_told_apart(a: Seq<char>, b: Seq<char>)
    requires
        cached_at(a) == cached_at(b),
    ensures
        a == b,
{
    let host = "https://webcache.googleusercontent.com/search?"@;
    let x = field("q"@, "cache:"@ + a);
    let y = field("q"@, "cache:"@ + b);
    assert(x =~= (host + x).skip(host.len() as int));
    assert(y =~= (host + y).skip(host.len() as int));
    let first = seq![("q"@, "cache:"@ + a)];
    let second = seq![("q"@, "cache:"@ + b)];
    assert(fields(first) == x);
    assert(fields(second) == y);
    fields_injective(first, second);
    assert(first[0] == second[0]);
    let prefix = "cache:"@;
    assert(a =~= (prefix + a).skip(prefix.len() as int));
    assert(b =~= (prefix + b).skip(prefix.len() as int));
}

} // verus!
