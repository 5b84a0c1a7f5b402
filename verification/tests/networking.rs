use std::ops::ControlFlow;

use blindkopie::networking::{
    parse_url, AwaitWithCancellationTokenCancelled, AwaitWithCancellationTokenOutcome, HeaderName,
    InvalidUrl, Method, Race, RaceError, Request, Uri, WebsocketError,
};

fn text(part: &Option<String>) -> Option<&str> {
    part.as_ref().map(|part| part.as_str())
}

#[test]
fn addresses_fall_into_parts() {
    let uri = parse_url("https://example.org:80/a/b?c=d").unwrap();
    assert_eq!(text(&uri.scheme), Some("https"));
    assert_eq!(text(&uri.authority), Some("example.org:80"));
    assert_eq!(text(&uri.path_and_query), Some("/a/b?c=d"));
    assert_eq!(uri.path().as_deref(), Some("/a/b"));
}

#[test]
fn addresses_are_escaped_before_they_are_read() {
    let uri = parse_url("https://example.org/a (b)/ä").unwrap();
    assert_eq!(text(&uri.path_and_query), Some("/a%20%28b%29/%C3%A4"));
}

#[test]
fn addresses_without_a_scheme_have_one_part() {
    let path = parse_url("/a?b").unwrap();
    assert_eq!((text(&path.scheme), text(&path.authority)), (None, None));
    assert_eq!(text(&path.path_and_query), Some("/a?b"));
    assert_eq!(path.path().as_deref(), Some("/a"));
    let authority = parse_url("example.org:80").unwrap();
    assert_eq!((text(&authority.scheme), text(&authority.authority)), (None, Some("example.org:80")));
    assert_eq!(authority.path(), None);
}

#[test]
fn an_empty_path_is_the_root() {
    let uri = parse_url("https://example.org").unwrap();
    assert_eq!(uri.path().as_deref(), Some("/"));
    let uri = parse_url("https://example.org?a=b").unwrap();
    assert_eq!(uri.path().as_deref(), Some("/"));
}

#[test]
fn texts_that_are_no_addresses_are_refused() {
    assert_eq!(parse_url("").unwrap_err(), InvalidUrl);
    assert_eq!(parse_url("http://[").unwrap_err(), InvalidUrl);
    assert_eq!(parse_url("https:///path").unwrap_err(), InvalidUrl);
}

#[test]
fn the_path_agrees_with_that_of_hyper() {
    for address in [
        "https://a/b/c?d", "https://a", "https://a?b", "/x?", "*", "https://a/b#c", "https://a/?x?y",
    ] {
        let expected: hyper::Uri = address.parse().unwrap();
        let expected = expected.path_and_query().map(|path| path.path().to_owned());
        assert_eq!(parse_url(address).unwrap().path(), expected, "{}", address);
    }
}

fn uri(scheme: Option<&str>, authority: Option<&str>, path: Option<&str>) -> Uri {
    Uri {
        scheme: scheme.map(|s| s.to_owned()),
        authority: authority.map(|s| s.to_owned()),
        path_and_query: path.map(|s| s.to_owned()),
    }
}

#[test]
fn websockets_are_asked_for_at_two_addresses() {
    for (scheme, ws, http) in [
        ("wss", "wss", "https"), ("https", "wss", "https"), ("HTTPS", "wss", "https"),
        ("ws", "ws", "http"), ("http", "ws", "http"), ("Ws", "ws", "http"),
    ] {
        let targets = uri(Some(scheme), Some("a.b"), Some("/c?d")).websocket().unwrap();
        assert_eq!(text(&targets.websocket.scheme), Some(ws));
        assert_eq!(text(&targets.websocket.authority), Some("a.b"));
        assert_eq!(text(&targets.websocket.path_and_query), Some("/c?d"));
        assert_eq!(text(&targets.connection.scheme), Some(http));
        assert_eq!(text(&targets.connection.authority), Some("a.b"));
        assert_eq!(text(&targets.connection.path_and_query), Some("/"));
    }
}

#[test]
fn websockets_need_a_scheme_and_an_authority() {
    let full = (Some("a"), Some("/"));
    assert_eq!(uri(None, full.0, full.1).websocket().unwrap_err(), WebsocketError::WrongScheme);
    assert_eq!(uri(Some("ftp"), full.0, full.1).websocket().unwrap_err(), WebsocketError::WrongScheme);
    assert_eq!(uri(Some("ws"), None, full.1).websocket().unwrap_err(), WebsocketError::Incomplete);
    assert_eq!(uri(Some("ws"), full.0, None).websocket().unwrap_err(), WebsocketError::Incomplete);
}

#[test]
fn requests_keep_their_headers_in_order() {
    let mut request = Request::get("http://a".to_owned());
    assert_eq!(request.method, Method::Get);
    assert_eq!(request.body, "");
    request.header(HeaderName::Dnt, "1".to_owned());
    request.header(HeaderName::Cookie, "x".to_owned());
    assert_eq!(
        request.headers,
        vec![(HeaderName::Dnt, "1".to_owned()), (HeaderName::Cookie, "x".to_owned())]
    );
    let request = Request::post("http://b".to_owned(), "c=d".to_owned());
    assert_eq!((request.method, request.uri.as_str(), request.body.as_str()), (Method::Post, "http://b", "c=d"));
    assert!(request.headers.is_empty());
}

#[test]
fn a_cancelled_wait_breaks_off() {
    let cancelled = AwaitWithCancellationTokenOutcome::Cancelled;
    let carried_on = AwaitWithCancellationTokenOutcome::Continue;
    assert_eq!(cancelled.branch(), ControlFlow::Break(AwaitWithCancellationTokenCancelled));
    assert_eq!(carried_on.branch(), ControlFlow::Continue(()));
    assert_eq!(AwaitWithCancellationTokenOutcome::from_output(()), carried_on);
    assert_eq!(
        AwaitWithCancellationTokenOutcome::from_residual(AwaitWithCancellationTokenCancelled),
        cancelled
    );
    let result: Result<(), u8> = AwaitWithCancellationTokenCancelled.into_result();
    assert_eq!(result, Ok(()));
}

#[test]
fn what_comes_first_decides_a_race() {
    let settled = |race: Race<u8, u8>| race.settle();
    assert!(matches!(settled(Race::Cancelled), Err(RaceError::Cancelled)));
    assert!(matches!(settled(Race::Elapsed), Err(RaceError::Timeout)));
    assert!(matches!(settled(Race::Finished(Ok(7))), Ok(7)));
    assert!(matches!(settled(Race::Finished(Err(8))), Err(RaceError::Failed(8))));
}

#[test]
fn what_failed_is_told() {
    assert_eq!(WebsocketError::WrongScheme.message(), "Wrong scheme");
    assert_eq!(WebsocketError::Incomplete.message(), "Incomplete address");
    let told = |error: RaceError<u8>| error.message();
    assert_eq!(told(RaceError::Cancelled), Some("Cancelled"));
    assert_eq!(told(RaceError::Timeout), Some("Timeout"));
    assert_eq!(told(RaceError::Failed(1)), None);
}
