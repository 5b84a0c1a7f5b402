use blindkopie::google_cache::{
    after_first_attempt, cache_request, cache_url, cached_url as google_cached_url, Next,
    UnexpectedStatus,
};
use blindkopie::networking::{HeaderName, Method};
use blindkopie::outline_com::{archive_request as outline_request, archived_url, OutlineComError};
use blindkopie::screenshot::{
    convert_command, file_path, screenshot_command, Screenshot, ScreenshotError,
};
use blindkopie::wikiwix::{
    archive_request as wikiwix_request, cached_url, cached_url_in_text, check_redirect, read_request,
    WikiwixError,
};

#[test]
fn outline_com_is_asked_for_an_article() {
    let request = outline_request("http://a/?b");
    assert_eq!(request.method, Method::Get);
    assert_eq!(
        request.uri,
        "https://api.outline.com/v3/parse_article?source_url=http%3A%2F%2Fa%2F%3Fb"
    );
    assert!(request.headers.is_empty() && request.body.is_empty());
}

#[test]
fn outline_com_answers_with_a_short_code() {
    assert_eq!(archived_url(true, "Xyz"), Ok("https://outline.com/Xyz".to_owned()));
    assert_eq!(archived_url(false, "Xyz"), Err(OutlineComError::NoSuccess));
    assert_eq!(archived_url(false, ""), Err(OutlineComError::NoSuccess));
    assert_eq!(archived_url(true, ""), Err(OutlineComError::NoShortCode));
    assert_eq!(OutlineComError::NoSuccess.message(), "!response.success");
    assert_eq!(OutlineComError::NoShortCode.message(), "short_code.is_empty()");
}

#[test]
fn google_is_asked_without_tracking() {
    let url = "https://webcache.googleusercontent.com/search?q=cache%3Ahttp%3A%2F%2Fa";
    assert_eq!(cache_url("http://a"), url);
    let request = cache_request("http://a");
    assert_eq!((request.method, request.uri.as_str(), request.body.as_str()), (Method::Get, url, ""));
    assert_eq!(
        request.headers,
        vec![
            (HeaderName::Dnt, "1".to_owned()),
            (HeaderName::Cookie, "CONSENT=YES+GB.de+V13+BX".to_owned()),
        ]
    );
}

#[test]
fn google_must_answer_with_the_page() {
    assert_eq!(google_cached_url("http://a", 200), Ok(cache_url("http://a")));
    for status in [0, 199, 201, 302, 404, 429] {
        assert_eq!(google_cached_url("http://a", status), Err(UnexpectedStatus));
    }
    assert_eq!(UnexpectedStatus.message(), "Unexpected status code != 200");
}

#[test]
fn a_page_is_looked_for_again_without_its_query() {
    let found: Result<String, u8> = Ok("x".to_owned());
    assert!(matches!(after_first_attempt("http://a?b", found), Next::Done(Ok(url)) if url == "x"));
    let failed: Result<String, u8> = Err(7);
    assert!(matches!(after_first_attempt("http://a?b?c", failed), Next::Retry(url) if url == "http://a"));
    let failed: Result<String, u8> = Err(7);
    assert!(matches!(after_first_attempt("http://a", failed), Next::Done(Err(7))));
}

#[test]
fn wikiwix_is_asked_twice() {
    let request = wikiwix_request("http://a/?b");
    assert_eq!(request.method, Method::Get);
    assert_eq!(
        request.uri,
        "http://archive.wikiwix.com/cache/?url=http%3A%2F%2Fa%2F%3Fb&apiresponse=1"
    );
    let request = read_request("http://a");
    assert_eq!(request.uri, "http://archive.wikiwix.com/cache/index2.php?url=http%3A%2F%2Fa");
    assert!(request.headers.is_empty() && request.body.is_empty());
}

#[test]
fn wikiwix_redirects_to_what_it_archived() {
    let check = |status, location: &str| check_redirect(status, Some(location.as_bytes()));
    assert_eq!(check(302, "index2.php?url=http://a"), Ok(()));
    assert_eq!(check(302, "index2.php?url=x\ty"), Ok(()));
    assert_eq!(check(200, "index2.php?url=http://a"), Err(WikiwixError::UnexpectedStatus));
    assert_eq!(check_redirect(301, None), Err(WikiwixError::UnexpectedStatus));
    assert_eq!(check_redirect(302, None), Err(WikiwixError::NoRedirect));
    assert_eq!(check(302, ""), Err(WikiwixError::NoRedirect));
    assert_eq!(check(302, "index2.php?url=ä"), Err(WikiwixError::UnreadableRedirect));
    assert_eq!(check(302, "index2.php?url=\n"), Err(WikiwixError::UnreadableRedirect));
    assert_eq!(check(302, "index2.php?url=\u{7f}"), Err(WikiwixError::UnreadableRedirect));
    assert_eq!(check(302, "index2.php?url="), Err(WikiwixError::UnexpectedRedirect));
    assert_eq!(check(302, "/index2.php?url=a"), Err(WikiwixError::UnexpectedRedirect));
    assert_eq!(check(302, "index.php?url=a"), Err(WikiwixError::UnexpectedRedirect));
}

#[test]
fn every_byte_of_a_redirect_is_looked_at() {
    for byte in 0..=255_u8 {
        let mut location = b"index2.php?url=a".to_vec();
        location.push(byte);
        let readable = (32..127).contains(&byte) || byte == 9;
        let expected = if readable { Ok(()) } else { Err(WikiwixError::UnreadableRedirect) };
        assert_eq!(check_redirect(302, Some(&location)), expected);
    }
}

#[test]
fn wikiwix_names_a_revision() {
    let page = "x ?rev_t=1&a ?rev_t=2021 05&b";
    let expected = "http://archive.wikiwix.com/cache/index2.php?rev_t=2021+05&url=http%3A%2F%2Fa";
    assert_eq!(cached_url_in_text("http://a", page), Ok(expected.to_owned()));
    assert_eq!(cached_url("http://a", page.as_bytes()), Ok(expected.to_owned()));
    for page in ["", "rev_t=1&", "?rev_t=1", "?rev_t=&x", "?rev_t=1&?rev_t=2"] {
        assert_eq!(cached_url_in_text("http://a", page), Err(WikiwixError::NoRevision));
    }
}

#[test]
fn wikiwix_may_answer_with_broken_text() {
    let page = b"\xff\xfe?rev_t=\xff1&";
    let expected = "http://archive.wikiwix.com/cache/index2.php?rev_t=%EF%BF%BD1&url=u";
    assert_eq!(cached_url("u", page), Ok(expected.to_owned()));
}

#[test]
fn wikiwix_errors_are_told() {
    let told = |error: WikiwixError| error.message();
    assert_eq!(told(WikiwixError::UnexpectedStatus), "Unexpected status code != 302");
    assert_eq!(told(WikiwixError::NoRedirect), "No redirect found");
    assert_eq!(told(WikiwixError::UnreadableRedirect), "failed to convert header to a str");
    assert_eq!(told(WikiwixError::UnexpectedRedirect), "Unexpected redirect format");
    assert_eq!(told(WikiwixError::NoRevision), "No rev_t found");
}

#[test]
fn screenshots_are_taken_by_programs() {
    assert_eq!(file_path(4711, 12), "/proc/4711/fd/12");
    let command = screenshot_command("http://a", "/p", "/t");
    assert_eq!(command.program, "/usr/bin/env");
    assert_eq!(
        command.arguments,
        vec!["./env/bin/python", "./readermode_screenshot.py", "http://a", "/p", "/t"]
    );
    assert_eq!((command.virtual_env, command.seconds), (true, 45));
    let command = convert_command("/p", "/q");
    assert_eq!(command.program, "/usr/bin/env");
    assert_eq!(command.arguments, vec!["convert", "/p", "-colors", "255", "/q"]);
    assert_eq!((command.virtual_env, command.seconds), (false, 15));
}

#[test]
fn a_screenshot_has_a_text_and_an_image() {
    let read = |text: &[u8], png: &[u8]| Screenshot::read(text.to_vec(), png.to_vec());
    let screenshot = read("ä b".as_bytes(), &[1, 2]).unwrap();
    assert_eq!((screenshot.text.as_str(), screenshot.png), ("ä b", vec![1, 2]));
    assert_eq!(read(b"", &[1]).unwrap_err(), ScreenshotError::NoText);
    assert_eq!(read(b"", &[]).unwrap_err(), ScreenshotError::NoText);
    assert_eq!(read(b"a\xff", &[1]).unwrap_err(), ScreenshotError::BrokenText);
    assert_eq!(read(b"a\xff", &[]).unwrap_err(), ScreenshotError::BrokenText);
    assert_eq!(read(b"a", &[]).unwrap_err(), ScreenshotError::NoImage);
    assert_eq!(ScreenshotError::NoText.message(), "The text of the screenshot is empty");
    assert_eq!(ScreenshotError::BrokenText.message(), "The text of the screenshot is not UTF-8");
    assert_eq!(ScreenshotError::NoImage.message(), "The image of the screenshot is empty");
}
