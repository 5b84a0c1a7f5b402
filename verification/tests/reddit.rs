use blindkopie::networking::{HeaderName, InvalidUrl, Method, Request, Uri};
use blindkopie::reddit::{
    api_request, api_request_get, check_redirect, collect_new_posts, collect_request, fetch_title,
    get_uploaded_image_url, message_text, page_function, post_screenshot, read_my_name, screenshot_filename,
    screenshot_mimetype, submit_image,
    upload_image_preview, upload_screenshot, upload_uri, uploaded_image_url, Child, ChildKind, ImagePreview,
    ImageUrlError, PageChild, RedditToken, SubmitError, WebsocketMessage,
};
use blindkopie::state::ClientData;

fn client() -> ClientData {
    let mut client = ClientData::default();
    client.sr_to_monitor = "de".to_owned();
    client.user_agent = "agent".to_owned();
    client
}

fn token() -> RedditToken {
    let mut token = RedditToken::default();
    token.access_token = "secret".to_owned();
    token
}

fn check(request: &Request, method: Method, uri: &str, body: &str) {
    assert_eq!(request.method, method);
    assert_eq!(request.uri, uri);
    assert_eq!(
        request.headers,
        vec![
            (HeaderName::Authorization, "Bearer secret".to_owned()),
            (HeaderName::UserAgent, "agent".to_owned()),
        ]
    );
    assert_eq!(request.body, body);
}

#[test]
fn requests_to_the_api_carry_the_token() {
    let request = api_request(&token(), &client(), "/api/x", "a=b".to_owned());
    check(&request, Method::Post, "https://oauth.reddit.com/api/x.json?raw_json=1", "a=b");
    let request = api_request_get(&token(), &client(), "/y");
    check(&request, Method::Get, "https://oauth.reddit.com/y.json?raw_json=1", "");
}

#[test]
fn requests_name_their_function() {
    let request = collect_request(&token(), &client());
    check(&request, Method::Get, "https://oauth.reddit.com/r/de/new/.json?raw_json=1", "");
    let request = read_my_name(&token(), &client());
    check(&request, Method::Get, "https://oauth.reddit.com/api/v1/me.json?raw_json=1", "");
    let request = fetch_title(&token(), &client(), "http://a/?b");
    check(
        &request,
        Method::Post,
        "https://oauth.reddit.com/api/fetch_title.json?raw_json=1",
        "url=http%3A%2F%2Fa%2F%3Fb&api_type=json",
    );
    let request = upload_image_preview(&token(), &client(), "screenshot.png", "image/png");
    check(
        &request,
        Method::Post,
        "https://oauth.reddit.com/api/media/asset.json?raw_json=1",
        "filepath=screenshot.png&mimetype=image%2Fpng",
    );
    let request = submit_image(&token(), &client(), "sub", "A title", "http://i");
    check(
        &request,
        Method::Post,
        "https://oauth.reddit.com/api/submit.json?raw_json=1",
        "sr=sub&title=A+title&url=http%3A%2F%2Fi&kind=image&resubmit=false&sendreplies=false\
         &nsfw=true&spoiler=false&validate_on_submit=true",
    );
}

fn child() -> Child {
    Child {
        kind: ChildKind::Link,
        id: "n8a3kx".to_owned(),
        is_self: false,
        locked: false,
        post_hint: Some("link".to_owned()),
        created_utc: 1_600_000_000,
        url: Some("http://reddit/x".to_owned()),
        url_overridden_by_dest: Some("http://news/x".to_owned()),
    }
}

#[test]
fn a_link_becomes_a_post() {
    let post = child().into_post().unwrap();
    assert_eq!(post.id.text(), "n8a3kx");
    assert_eq!(post.created.unix_ts, 1_600_000_000);
    assert_eq!(post.url, "http://news/x");
    let mut plain = child();
    plain.url_overridden_by_dest = None;
    assert_eq!(plain.into_post().unwrap().url, "http://reddit/x");
}

#[test]
fn an_empty_destination_still_overrides() {
    let mut empty = child();
    empty.url_overridden_by_dest = Some(String::new());
    assert_eq!(empty.into_post().unwrap().url, "");
}

#[test]
fn other_things_are_no_posts() {
    for kind in [
        ChildKind::Unknown, ChildKind::Comment, ChildKind::Account, ChildKind::Message,
        ChildKind::Subreddit, ChildKind::Award,
    ] {
        let mut other = child();
        other.kind = kind;
        assert!(other.into_post().is_none());
    }
    let changes: [fn(&mut Child); 8] = [
        |child| child.is_self = true,
        |child| child.locked = true,
        |child| child.post_hint = None,
        |child| child.post_hint = Some("image".to_owned()),
        |child| child.created_utc = i64::MAX,
        |child| child.id = String::new(),
        |child| child.id = "ä".to_owned(),
        |child| {
            child.url = None;
            child.url_overridden_by_dest = None;
        },
    ];
    for change in changes {
        let mut other = child();
        change(&mut other);
        assert!(other.into_post().is_none());
    }
}

#[test]
fn a_listing_keeps_its_order() {
    let mut first = child();
    first.id = "1".to_owned();
    let mut second = child();
    second.locked = true;
    let mut third = child();
    third.id = "3".to_owned();
    let names: Vec<String> =
        collect_new_posts(vec![first, second, third]).iter().map(|post| post.id.text()).collect();
    assert_eq!(names, vec!["1", "3"]);
    assert!(collect_new_posts(vec![]).is_empty());
}

#[test]
fn images_are_uploaded_with_encryption() {
    assert_eq!(upload_uri("//reddit-uploads/x"), "https://reddit-uploads/x");
    let preview = ImagePreview::new("http://i/x.png".to_owned(), "wss://ws.reddit/a").unwrap();
    assert_eq!(preview.preview_url, "http://i/x.png");
    assert_eq!(preview.websocket_url.scheme.as_deref(), Some("wss"));
    assert_eq!(preview.websocket_url.authority.as_deref(), Some("ws.reddit"));
    assert_eq!(preview.websocket_url.path_and_query.as_deref(), Some("/a"));
    assert_eq!(ImagePreview::new(String::new(), "").unwrap_err(), InvalidUrl);
}

#[test]
fn a_screenshot_is_posted_where_it_belongs() {
    let mut client = client();
    client.sr_to_post_to = "copies".to_owned();
    let request = upload_screenshot(&token(), &client);
    check(
        &request,
        Method::Post,
        "https://oauth.reddit.com/api/media/asset.json?raw_json=1",
        "filepath=screenshot.png&mimetype=image%2Fpng",
    );
    assert_eq!((screenshot_filename(), screenshot_mimetype()), ("screenshot.png", "image/png"));
    let preview = ImagePreview::new("http://i".to_owned(), "wss://w/").unwrap();
    let request = post_screenshot(&token(), &client, "T", &preview);
    check(
        &request,
        Method::Post,
        "https://oauth.reddit.com/api/submit.json?raw_json=1",
        "sr=copies&title=T&url=http%3A%2F%2Fi&kind=image&resubmit=false&sendreplies=false\
         &nsfw=true&spoiler=false&validate_on_submit=true",
    );
}

#[test]
fn a_failed_submission_is_told() {
    let told = |error: SubmitError| error.message();
    assert_eq!(told(SubmitError::WrongKindOfMessage), Some("Wrong kind of message received"));
    assert_eq!(told(SubmitError::NoMessage), Some("No message received"));
    assert_eq!(told(SubmitError::Failed), None);
    assert_eq!(told(SubmitError::RedirectTooShort("x".to_owned())), None);
}

#[test]
fn only_texts_are_read_from_a_websocket() {
    assert!(matches!(message_text(WebsocketMessage::Text("x".to_owned())), Ok(text) if text == "x"));
    assert!(matches!(message_text(WebsocketMessage::Failed), Err(SubmitError::Failed)));
    assert!(matches!(message_text(WebsocketMessage::Other), Err(SubmitError::WrongKindOfMessage)));
    assert!(matches!(message_text(WebsocketMessage::Closed), Err(SubmitError::NoMessage)));
}

#[test]
fn short_redirects_are_refused() {
    assert!(matches!(check_redirect("0123456789a".to_owned()), Ok(url) if url == "0123456789a"));
    assert!(matches!(
        check_redirect("0123456789".to_owned()),
        Err(SubmitError::RedirectTooShort(url)) if url == "0123456789"
    ));
    assert!(check_redirect("ääääää".to_owned()).is_ok());
    assert!(check_redirect("äääää".to_owned()).is_err());
}

#[test]
fn the_page_of_a_post_is_asked_for_by_its_path() {
    assert_eq!(
        get_uploaded_image_url("https://www.reddit.com/r/x/comments/1/?a=b"),
        Ok("/r/x/comments/1/".to_owned())
    );
    assert_eq!(get_uploaded_image_url("https://www.reddit.com/a b"), Ok("/a%20b".to_owned()));
    assert_eq!(get_uploaded_image_url(""), Err(ImageUrlError::InvalidUrl));
    assert_eq!(get_uploaded_image_url("reddit.com:80"), Err(ImageUrlError::NoPath));
    assert_eq!(ImageUrlError::InvalidUrl.message(), "Invalid url");
    assert_eq!(ImageUrlError::NoPath.message(), "No path found");
    assert_eq!(ImageUrlError::NoUrl.message(), "No url found");
    let bare = Uri { scheme: None, authority: None, path_and_query: None };
    assert_eq!(page_function(&bare), Err(ImageUrlError::NoPath));
    let full = Uri { scheme: None, authority: None, path_and_query: Some("?x".to_owned()) };
    assert_eq!(page_function(&full), Ok("/".to_owned()));
}

fn page_child(overridden: Option<&str>, url: Option<&str>) -> PageChild {
    PageChild {
        url_overridden_by_dest: overridden.map(|url| url.to_owned()),
        url: url.map(|url| url.to_owned()),
    }
}

#[test]
fn the_image_is_found_on_the_page() {
    let found = |overridden, url| uploaded_image_url(vec![vec![page_child(overridden, url)], vec![]]);
    assert_eq!(found(Some("a"), Some("b")), Ok("a".to_owned()));
    assert_eq!(found(Some(""), Some("b")), Ok("b".to_owned()));
    assert_eq!(found(None, Some("b")), Ok("b".to_owned()));
    assert_eq!(found(Some("a"), None), Ok("a".to_owned()));
    assert_eq!(found(Some(""), Some("")), Err(ImageUrlError::NoUrl));
    assert_eq!(found(None, None), Err(ImageUrlError::NoUrl));
}

#[test]
fn the_post_stands_before_the_comments() {
    let listing = |url: &str| vec![page_child(None, Some(url))];
    assert_eq!(uploaded_image_url(vec![]), Err(ImageUrlError::NoUrl));
    assert_eq!(uploaded_image_url(vec![listing("a")]), Err(ImageUrlError::NoUrl));
    assert_eq!(uploaded_image_url(vec![vec![], listing("a")]), Err(ImageUrlError::NoUrl));
    assert_eq!(uploaded_image_url(vec![listing("a"), listing("b")]), Ok("a".to_owned()));
    assert_eq!(
        uploaded_image_url(vec![listing("a"), listing("b"), listing("c")]),
        Ok("b".to_owned())
    );
    let two = vec![page_child(None, Some("x")), page_child(None, Some("y"))];
    assert_eq!(uploaded_image_url(vec![two, vec![]]), Ok("y".to_owned()));
}
