//! What is sent over the network, as plain values: addresses, requests, and how a wait ends.
use std::ops::ControlFlow;
use std::str::FromStr;

use vstd::prelude::*;

use crate::query::escape;
use crate::text::{ascii_lower, eq_ignore_ascii_case, same_but_case, split_once};

verus! {

/// The characters of a text, if there is one.
pub open spec fn chars_if_any(text: Option<String>) -> Option<Seq<char>> {
    match text {
        Some(text) => Some(text@),
        None => None,
    }
}

/// The parts of an address: scheme, authority, path with query.
pub type UriParts = (Option<Seq<char>>, Option<Seq<char>>, Option<Seq<char>>);

/// An address.
#[derive(Debug)]
pub struct Uri {
    pub scheme: Option<String>,
    pub authority: Option<String>,
    pub path_and_query: Option<String>,
}

/// The address that a text is read as, if it is one.
pub uninterp spec fn parsed_uri(text: Seq<char>) -> Option<UriParts>;

/// The text is no address.
#[derive(Debug, Clone, Copy, PartialEq, Eq, Structural)]
pub struct InvalidUrl;

/// `hyper::Uri::from_str`: whether the text is an address, and into which parts it falls, depends
/// on the text alone. An address with a scheme has all three parts; one without has either an
/// authority or a path.
#[verifier::external_body]
fn parse_uri(text: &str) -> (uri: Option<Uri>)
    ensures
        match uri {
            Some(uri) => {
                &&& parsed_uri(text@) == Some(uri.parts())
                &&& uri.is_whole()
            },
            None => parsed_uri(text@) is None,
        },
{
    let parts = hyper::Uri::from_str(text).ok()?.into_parts();
    Some(Uri {
        scheme: parts.scheme.map(|scheme| scheme.as_str().to_owned()),
        authority: parts.authority.map(|authority| authority.as_str().to_owned()),
        path_and_query: parts.path_and_query.map(|path| path.as_str().to_owned()),
    })
}

/// The path of a path with query: what stands before the question mark, or the root.
pub open spec fn path_part(path_and_query: Seq<char>) -> Seq<char> {
    let path = match crate::text::split_at_first(path_and_query, "?"@) {
        Some((path, _)) => path,
        None => path_and_query,
    };
    if path.len() == 0 {
        "/"@
    } else {
        path
    }
}

/// The scheme stands for a connection without encryption.
pub open spec fn plain_scheme(scheme: Seq<char>) -> bool {
    crate::text::same_but_case(scheme, "http"@) || crate::text::same_but_case(scheme, "ws"@)
}

/// The scheme stands for an encrypted connection.
pub open spec fn secure_scheme(scheme: Seq<char>) -> bool {
    crate::text::same_but_case(scheme, "https"@) || crate::text::same_but_case(scheme, "wss"@)
}

/// Why no websocket can be opened at an address.
#[derive(Debug, Clone, Copy, PartialEq, Eq, Structural)]
pub enum WebsocketError {
    /// The scheme is missing, or is neither one of HTTP nor one of websockets.
    WrongScheme,
    /// The address has no authority or no path.
    Incomplete,
}

impl WebsocketError {
    /// What went wrong, for a reader.
    pub fn message(&self) -> (text: &'static str)
        ensures
            text@ == (match self {
                WebsocketError::WrongScheme => "Wrong scheme"@,
                WebsocketError::Incomplete => "Incomplete address"@,
            }),
    {
        match self {
            WebsocketError::WrongScheme => "Wrong scheme",
            WebsocketError::Incomplete => "Incomplete address",
        }
    }
}

/// The two addresses that take part in opening a websocket.
#[derive(Debug)]
pub struct WebsocketTargets {
    /// Where the websocket is asked for.
    pub websocket: Uri,
    /// Where the connection is made.
    pub connection: Uri,
}

fn clone_if_any(text: &Option<String>) -> (copy: Option<String>)
    ensures
        copy == *text,
{
    match text {
        Some(text) => Some(text.clone()),
        None => None,
    }
}

impl Uri {
    /// The parts as texts.
    pub open spec fn parts(self) -> UriParts {
        (
            chars_if_any(self.scheme),
            chars_if_any(self.authority),
            chars_if_any(self.path_and_query),
        )
    }

    /// The address has all three parts, or it has no scheme and either an authority or a path.
    pub open spec fn is_whole(self) -> bool {
        if self.scheme is Some {
            self.authority is Some && self.path_and_query is Some
        } else {
            self.authority is Some != self.path_and_query is Some
        }
    }

    /// The path, if the address has one.
    pub fn path(&self) -> (path: Option<String>)
        ensures
            path is Some <==> self.path_and_query is Some,
            path matches Some(path) ==> path@ == path_part(self.path_and_query->0@),
    {
        match &self.path_and_query {
            Some(path_and_query) => {
                let path = match split_once(path_and_query.as_str(), "?") {
                    Some((path, _)) => path,
                    None => path_and_query.clone(),
                };
                if path.as_str().is_empty() {
                    Some("/".to_owned())
                } else {
                    Some(path)
                }
            },
            None => None,
        }
    }

    /// Where to ask for a websocket that is given by this address, and where to connect to for it.
    pub fn websocket(&self) -> (targets: Result<WebsocketTargets, WebsocketError>)
        ensures
            match targets {
                Ok(targets) => {
                    &&& self.scheme matches Some(scheme)
                    &&& plain_scheme(scheme@) || secure_scheme(scheme@)
                    &&& self.authority is Some
                    &&& self.path_and_query is Some
                    &&& targets.websocket.parts() == (
                        Some(
                            if plain_scheme(scheme@) {
                                "ws"@
                            } else {
                                "wss"@
                            },
                        ),
                        chars_if_any(self.authority),
                        chars_if_any(self.path_and_query),
                    )
                    &&& targets.connection.parts() == (
                        Some(
                            if plain_scheme(scheme@) {
                                "http"@
                            } else {
                                "https"@
                            },
                        ),
                        chars_if_any(self.authority),
                        Some("/"@),
                    )
                    &&& targets.websocket.authority == self.authority
                    &&& targets.websocket.path_and_query == self.path_and_query
                    &&& targets.connection.authority == self.authority
                    &&& targets.connection.path_and_query matches Some(path) && path@ == "/"@
                    &&& targets.websocket.scheme matches Some(ws) && ws@ == (if plain_scheme(
                        scheme@,
                    ) {
                        "ws"@
                    } else {
                        "wss"@
                    })
                    &&& targets.connection.scheme matches Some(http) && http@ == (if plain_scheme(
                        scheme@,
                    ) {
                        "http"@
                    } else {
                        "https"@
                    })
                },
                Err(WebsocketError::WrongScheme) => {
                    self.scheme matches Some(scheme) ==> !plain_scheme(scheme@) && !secure_scheme(
                        scheme@,
                    )
                },
                Err(WebsocketError::Incomplete) => {
                    &&& self.scheme matches Some(scheme)
                    &&& plain_scheme(scheme@) || secure_scheme(scheme@)
                    &&& self.authority is None || self.path_and_query is None
                },
            },
    {
        let (ws, http) = match &self.scheme {
            Some(scheme) => {
                let scheme = scheme.as_str();
                if eq_ignore_ascii_case(scheme, "http") || eq_ignore_ascii_case(scheme, "ws") {
                    ("ws".to_owned(), "http".to_owned())
                } else if eq_ignore_ascii_case(scheme, "https") || eq_ignore_ascii_case(
                    scheme,
                    "wss",
                ) {
                    ("wss".to_owned(), "https".to_owned())
                } else {
                    return Err(WebsocketError::WrongScheme);
                }
            },
            None => {
                return Err(WebsocketError::WrongScheme);
            },
        };
        if self.authority.is_none() || self.path_and_query.is_none() {
            return Err(WebsocketError::Incomplete);
        }
        Ok(
            WebsocketTargets {
                websocket: Uri {
                    scheme: Some(ws),
                    authority: clone_if_any(&self.authority),
                    path_and_query: clone_if_any(&self.path_and_query),
                },
                connection: Uri {
                    scheme: Some(http),
                    authority: clone_if_any(&self.authority),
                    path_and_query: Some("/".to_owned()),
                },
            },
        )
    }
}

/// Reads an address, after escaping what cannot stand in one.
pub fn parse_url(url: &str) -> (uri: Result<Uri, InvalidUrl>)
    ensures
        match uri {
            Ok(uri) => {
                &&& parsed_uri(crate::query::escaped(url@)) == Some(uri.parts())
                &&& uri.is_whole()
            },
            Err(_) => parsed_uri(crate::query::escaped(url@)) is None,
        },
{
    match parse_uri(escape(url).as_str()) {
        Some(uri) => Ok(uri),
        None => Err(InvalidUrl),
    }
}

/// How an HTTP request is made.
#[derive(Debug, Clone, Copy, PartialEq, Eq, Structural)]
pub enum Method {
    Get,
    Post,
}

/// The headers that requests carry.
#[derive(Debug, Clone, Copy, PartialEq, Eq, Structural)]
pub enum HeaderName {
    Authorization,
    ContentType,
    Cookie,
    Dnt,
    UserAgent,
}

/// An HTTP request.
#[derive(Debug)]
pub struct Request {
    pub method: Method,
    pub uri: String,
    pub headers: Vec<(HeaderName, String)>,
    /// The body; empty where there is none.
    pub body: String,
}

/// What a request says.
#[verifier::ext_equal]
pub struct RequestView {
    pub method: Method,
    pub uri: Seq<char>,
    pub headers: Seq<(HeaderName, Seq<char>)>,
    pub body: Seq<char>,
}

impl View for Request {
    type V = RequestView;

    open spec fn view(&self) -> RequestView {
        RequestView {
            method: self.method,
            uri: self.uri@,
            headers: self.headers@.map_values(
                |header: (HeaderName, String)| (header.0, header.1@),
            ),
            body: self.body@,
        }
    }
}

/// What a request without headers and body says.
pub open spec fn plain_get(uri: Seq<char>) -> RequestView {
    RequestView { method: Method::Get, uri, headers: seq![], body: seq![] }
}

impl Request {
    /// A request without headers and body.
    pub fn get(uri: String) -> (request: Self)
        ensures
            request@ == plain_get(uri@),
            request.method is Get,
            request.uri == uri,
            request.headers@.len() == 0,
            request.body@.len() == 0,
    {
        let request = Request { method: Method::Get, uri, headers: Vec::new(), body: String::new() };
        assert(request@ =~= plain_get(uri@));
        request
    }

    /// A request without headers that sends something.
    pub fn post(uri: String, body: String) -> (request: Self)
        ensures
            request@ == (RequestView {
                method: Method::Post,
                uri: uri@,
                headers: seq![],
                body: body@,
            }),
            request.method is Post,
            request.uri == uri,
            request.headers@.len() == 0,
            request.body == body,
    {
        let request = Request { method: Method::Post, uri, headers: Vec::new(), body };
        assert(request@.headers =~= seq![]);
        request
    }

    /// Adds a header behind those that are there.
    pub fn header(&mut self, name: HeaderName, value: String)
        ensures
            final(self)@ == (RequestView {
                headers: old(self)@.headers.push((name, value@)),
                ..old(self)@
            }),
            final(self).headers@ == old(self).headers@.push((name, value)),
            final(self).method == old(self).method,
            final(self).uri == old(self).uri,
            final(self).body == old(self).body,
    {
        self.headers.push((name, value));
        assert(self@ =~= (RequestView {
            headers: old(self)@.headers.push((name, value@)),
            ..old(self)@
        }));
    }
}

/// How a wait that can be cancelled ended.
#[derive(Debug, Clone, Copy, PartialEq, Eq, Structural)]
pub enum AwaitWithCancellationTokenOutcome {
    Cancelled,
    Continue,
}

/// A wait was cancelled.
#[derive(Debug, Clone, Copy, PartialEq, Eq, Structural)]
pub struct AwaitWithCancellationTokenCancelled;

impl AwaitWithCancellationTokenOutcome {
    /// Whether to go on after the wait.
    pub fn branch(self) -> (flow: ControlFlow<AwaitWithCancellationTokenCancelled, ()>)
        ensures
            flow == (match self {
                AwaitWithCancellationTokenOutcome::Cancelled => ControlFlow::Break(
                    AwaitWithCancellationTokenCancelled,
                ),
                AwaitWithCancellationTokenOutcome::Continue => ControlFlow::Continue(()),
            }),
    {
        match self {
            AwaitWithCancellationTokenOutcome::Cancelled => ControlFlow::Break(
                AwaitWithCancellationTokenCancelled,
            ),
            AwaitWithCancellationTokenOutcome::Continue => ControlFlow::Continue(()),
        }
    }

    /// A wait that went on.
    pub fn from_output(_output: ()) -> (outcome: Self)
        ensures
            outcome == AwaitWithCancellationTokenOutcome::Continue,
    {
        AwaitWithCancellationTokenOutcome::Continue
    }

    /// A wait that was cancelled.
    pub fn from_residual(_residual: AwaitWithCancellationTokenCancelled) -> (outcome: Self)
        ensures
            outcome == AwaitWithCancellationTokenOutcome::Cancelled,
    {
        AwaitWithCancellationTokenOutcome::Cancelled
    }
}

impl AwaitWithCancellationTokenCancelled {
    /// Whoever waited is done, without an error.
    pub fn into_result<E>(self) -> (result: Result<(), E>)
        ensures
            result == Ok::<(), E>(()),
    {
        Ok(())
    }
}

/// What happened first while a task was raced against its deadline and against cancellation.
#[derive(Debug)]
pub enum Race<T, E> {
    Cancelled,
    Elapsed,
    Finished(Result<T, E>),
}

/// Why a raced task has no result.
#[derive(Debug)]
pub enum RaceError<E> {
    Cancelled,
    Timeout,
    Failed(E),
}

impl<E> RaceError<E> {
    /// What went wrong, for a reader; a task that failed says so itself.
    pub fn message(&self) -> (text: Option<&'static str>)
        ensures
            match self {
                RaceError::Cancelled => text matches Some(text) && text@ == "Cancelled"@,
                RaceError::Timeout => text matches Some(text) && text@ == "Timeout"@,
                RaceError::Failed(_) => text is None,
            },
    {
        match self {
            RaceError::Cancelled => Some("Cancelled"),
            RaceError::Timeout => Some("Timeout"),
            RaceError::Failed(_) => None,
        }
    }
}

impl<T, E> Race<T, E> {
    /// The result of the task, if it came first.
    pub fn settle(self) -> (result: Result<T, RaceError<E>>)
        ensures
            result == (match self {
                Race::Cancelled => Err(RaceError::Cancelled),
                Race::Elapsed => Err(RaceError::Timeout),
                Race::Finished(Ok(value)) => Ok(value),
                Race::Finished(Err(error)) => Err(RaceError::Failed(error)),
            }),
    {
        match self {
            Race::Cancelled => Err(RaceError::Cancelled),
            Race::Elapsed => Err(RaceError::Timeout),
            Race::Finished(Ok(value)) => Ok(value),
            Race::Finished(Err(error)) => Err(RaceError::Failed(error)),
        }
    }
}

/// No scheme stands for both a plain and an encrypted connection.
pub proof fn schemes_are_exclusive(scheme: Seq<char>)
    ensures
        !(plain_scheme(scheme) && secure_scheme(scheme)),
{
    reveal_strlit("http");
    reveal_strlit("ws");
    reveal_strlit("https");
    reveal_strlit("wss");
}

/// The path of a path with query is what stands before the first question mark; where that is
/// nothing, it is the root. It holds no question mark.
pub proof fn path_ends_at_the_query(path: Seq<char>, query: Seq<char>)
    requires
        !path.contains('?'),
    ensures
        path.len() > 0 ==> path_part(path) == path && path_part(path + seq!['?'] + query) == path,
        path_part(seq!['?'] + query) == seq!['/'],
        path_part(Seq::<char>::empty()) == seq!['/'],
{
    reveal_strlit("?");
    reveal_strlit("/");
    assert("/"@ =~= seq!['/']);
    assert("?"@ =~= seq!['?']);
    split_at_mark(path, query);
    split_at_mark(Seq::empty(), query);
    assert(Seq::<char>::empty() + seq!['?'] + query =~= seq!['?'] + query);
    no_mark(path);
    no_mark(Seq::empty());
}

proof fn split_at_mark(path: Seq<char>, query: Seq<char>)
    requires
        !path.contains('?'),
    ensures
        crate::text::split_at_first(path + seq!['?'] + query, seq!['?']) == Some((path, query)),
{
    let mark = seq!['?'];
    let text = path + mark + query;
    let at = path.len() as int;
    crate::text::split_at_first_is_first(text, mark, at);
    assert(text.subrange(at, at + 1) =~= mark);
    match crate::text::split_at_first(text, mark) {
        Some((head, tail)) => {
            assert(text[head.len() as int] == '?');
            if head.len() < at {
                assert(path[head.len() as int] == '?');
            }
            if head.len() > at {
                assert(text.subrange(at, at + 1) != mark);
            }
            assert(head =~= path);
            assert(tail =~= query);
        },
        None => {},
    }
}

proof fn no_mark(text: Seq<char>)
    requires
        !text.contains('?'),
    ensures
        crate::text::split_at_first(text, seq!['?']) is None,
{
    crate::text::split_at_first_is_first(text, seq!['?'], 0);
    if let Some((head, tail)) = crate::text::split_at_first(text, seq!['?']) {
        assert(text[head.len() as int] == '?');
    }
}

/// Four schemes open a websocket, in whatever case they are written: two without encryption and two
/// with it. The name of each says which.
pub proof fn four_schemes_open_a_websocket(scheme: Seq<char>)
    ensures
        plain_scheme(scheme) || secure_scheme(scheme) ==> scheme.len() == 2 || scheme.len() == 3
            || scheme.len() == 4 || scheme.len() == 5,
        plain_scheme(scheme) <==> same_but_case(scheme, seq!['h', 't', 't', 'p']) || same_but_case(
            scheme,
            seq!['w', 's'],
        ),
        secure_scheme(scheme) <==> same_but_case(scheme, seq!['h', 't', 't', 'p', 's'])
            || same_but_case(scheme, seq!['w', 's', 's']),
        secure_scheme(scheme.push('s')) <==> plain_scheme(scheme),
{
    reveal_strlit("http");
    reveal_strlit("ws");
    reveal_strlit("https");
    reveal_strlit("wss");
    assert("http"@ =~= seq!['h', 't', 't', 'p']);
    assert("ws"@ =~= seq!['w', 's']);
    assert("https"@ =~= seq!['h', 't', 't', 'p', 's']);
    assert("wss"@ =~= seq!['w', 's', 's']);
    let more = scheme.push('s');
    assert(same_but_case(more, "https"@) <==> same_but_case(scheme, "http"@)) by {
        pushed_case(scheme, "http"@, 's');
        assert("https"@ =~= "http"@.push('s'));
    }
    assert(same_but_case(more, "wss"@) <==> same_but_case(scheme, "ws"@)) by {
        pushed_case(scheme, "ws"@, 's');
        assert("wss"@ =~= "ws"@.push('s'));
    }
}

proof fn pushed_case(a: Seq<char>, b: Seq<char>, c: char)
    ensures
        same_but_case(a.push(c), b.push(c)) <==> same_but_case(a, b),
{
    let x = a.push(c);
    let y = b.push(c);
    if same_but_case(x, y) {
        assert forall|i: int| 0 <= i < a.len() implies ascii_lower(a[i]) == ascii_lower(b[i]) by {
            assert(ascii_lower(x[i]) == ascii_lower(y[i]));
        }
    }
    if same_but_case(a, b) {
        assert forall|i: int| 0 <= i < x.len() implies ascii_lower(x[i]) == ascii_lower(y[i]) by {
            if i < a.len() {
                assert(ascii_lower(a[i]) == ascii_lower(b[i]));
            }
        }
    }
}

/// A plain request says nothing but that something is to be fetched, and from where.
pub proof fn plain_request_says_where(a: Seq<char>, b: Seq<char>)
    ensures
        plain_get(a) == plain_get(b) ==> a == b,
        plain_get(a).method is Get,
        plain_get(a).uri == a,
        plain_get(a).headers.len() == 0,
        plain_get(a).body.len() == 0,
{
    assert(plain_get(a).uri == a && plain_get(b).uri == b);
}

/// What a request says is what it holds, and what an address says is its parts: whoever says the
/// same holds the same texts.
pub proof fn requests_and_addresses_say_what_they_hold(request: Request, uri: Uri, i: int)
    ensures
        request@.method == request.method,
        request@.uri == request.uri@,
        request@.body == request.body@,
        request@.headers.len() == request.headers@.len(),
        0 <= i < request.headers@.len() ==> request@.headers[i].0 == request.headers@[i].0
            && request@.headers[i].1 == request.headers@[i].1@,
        uri.scheme is Some <==> uri.parts().0 is Some,
        uri.authority is Some <==> uri.parts().1 is Some,
        uri.path_and_query is Some <==> uri.parts().2 is Some,
        uri.scheme matches Some(scheme) ==> uri.parts().0 == Some(scheme@),
        uri.authority matches Some(authority) ==> uri.parts().1 == Some(authority@),
        uri.path_and_query matches Some(path) ==> uri.parts().2 == Some(path@),
{
}

} // verus!
