use blindkopie::login::{AuthorizeReply, Login, LoginAction, LoginError, RefreshReply};
use blindkopie::networking::{HeaderName, Method, Request};
use blindkopie::reddit::{authorization, basic_authorization, RedditToken};
use blindkopie::state::{ClientData, StateChange};
use blindkopie::timestamp::Timestamp;

const NOW: i64 = 1_600_000_000;

fn client() -> ClientData {
    let mut client = ClientData::default();
    client.public_key = "user".to_owned();
    client.private_key = "pass".to_owned();
    client.user_agent = "agent".to_owned();
    client.code = "c o".to_owned();
    client.redirect_uri = "http://localhost/".to_owned();
    client
}

fn token(access: &str, refresh: &str, expires_at: i64) -> RedditToken {
    RedditToken {
        access_token: access.to_owned(),
        refresh_token: refresh.to_owned(),
        expires_at: Timestamp::try_from(expires_at).unwrap(),
    }
}

fn login() -> Login {
    Login::new(Timestamp::from_utc(NOW, 500))
}

fn check_request(request: &Request, body: &str) {
    assert_eq!(request.method, Method::Post);
    assert_eq!(request.uri, "https://www.reddit.com/api/v1/access_token?raw_json=1");
    assert_eq!(
        request.headers,
        vec![
            (HeaderName::Authorization, "Basic dXNlcjpwYXNz".to_owned()),
            (HeaderName::ContentType, "application/x-www-form-urlencoded".to_owned()),
            (HeaderName::UserAgent, "agent".to_owned()),
        ]
    );
    assert_eq!(request.body, body);
}

#[test]
fn keys_are_sent_in_base64() {
    assert_eq!(authorization(&client()), "Basic dXNlcjpwYXNz");
    assert_eq!(authorization(&ClientData::default()), "Basic Og==");
    assert_eq!(basic_authorization("abc"), "Basic abc");
}

#[test]
fn every_length_is_padded() {
    let sent = |public: &str, private: &str| {
        let mut client = ClientData::default();
        client.public_key = public.to_owned();
        client.private_key = private.to_owned();
        authorization(&client)
    };
    assert_eq!(sent("a", ""), "Basic YTo=");
    assert_eq!(sent("a", "b"), "Basic YTpi");
    assert_eq!(sent("a", "bc"), "Basic YTpiYw==");
    assert_eq!(sent("\u{fb}\u{ff}", "?>~"), "Basic w7vDvzo/Pn4=");
    assert_eq!(sent("ä", "\u{1f600}"), "Basic w6Q68J+YgA==");
}

#[test]
fn a_valid_token_is_used_as_it_is() {
    let mut login = login();
    let mut token = token("a", "r", NOW + 1);
    assert!(matches!(login.advance(&mut token, &client()), LoginAction::LoggedIn(None)));
    assert_eq!(token.access_token, "a");
    assert!(!login.changed);
}

#[test]
fn a_token_can_be_used_for_a_minute_after_it_expired() {
    for (expires_at, usable) in [(NOW - 59, true), (NOW - 60, false), (NOW - 61, false)] {
        let mut token = token("a", "r", expires_at);
        let action = login().advance(&mut token, &client());
        assert_eq!(matches!(action, LoginAction::LoggedIn(_)), usable);
        assert_eq!(token.access_token.is_empty(), !usable);
        assert_eq!(token.refresh_token, "r");
    }
    let mut exact = token("a", "r", NOW - 60);
    let mut login = Login::new(Timestamp::from_utc(NOW, 0));
    assert!(matches!(login.advance(&mut exact, &client()), LoginAction::Refresh(_)));
}

#[test]
fn an_expired_token_is_dropped_and_refreshed() {
    let mut login = login();
    let mut token = token("a", "r&", NOW - 3600);
    match login.advance(&mut token, &client()) {
        LoginAction::Refresh(request) => {
            check_request(&request, "grant_type=refresh_token&refresh_token=r%26")
        }
        other => panic!("{:?}", other),
    }
    assert_eq!(token.access_token, "");
    assert_eq!(token.expires_at.unix_ts, 1577880000);
    assert!(login.changed);
    let reply = RefreshReply { access_token: "new".to_owned(), expires_in: 3600 };
    assert_eq!(login.refreshed(&mut token, reply), Ok(()));
    assert_eq!(token.access_token, "new");
    assert_eq!(token.refresh_token, "r&");
    assert_eq!((token.expires_at.unix_ts, token.expires_at.nanos), (NOW + 3600, 500));
    match login.advance(&mut token, &client()) {
        LoginAction::LoggedIn(Some(StateChange::RedditToken(logged))) => {
            assert_eq!(logged.access_token, "new");
            assert_eq!(logged.expires_at.unix_ts, NOW + 3600);
        }
        other => panic!("{:?}", other),
    }
}

#[test]
fn a_refresh_without_a_token_fails() {
    let mut login = login();
    let mut token = token("", "r", 0);
    assert!(matches!(login.advance(&mut token, &client()), LoginAction::Refresh(_)));
    assert!(!login.changed);
    let reply = RefreshReply { access_token: String::new(), expires_in: i64::MAX };
    assert_eq!(login.refreshed(&mut token, reply), Err(LoginError::NoAccessToken));
    assert_eq!(LoginError::NoAccessToken.message(), "response.access_token.is_empty()");
    assert_eq!(token.refresh_token, "r");
    assert!(!login.changed);
}

#[test]
fn the_first_login_trades_the_code() {
    let mut login = login();
    let mut token = RedditToken::default();
    match login.advance(&mut token, &client()) {
        LoginAction::Authorize(request) => check_request(
            &request,
            "grant_type=authorization_code&code=c+o&redirect_uri=http%3A%2F%2Flocalhost%2F",
        ),
        other => panic!("{:?}", other),
    }
    let reply = AuthorizeReply {
        access_token: "a".to_owned(),
        refresh_token: "r".to_owned(),
        expires_in: -59,
    };
    assert_eq!(login.authorized(&mut token, reply), Ok(()));
    assert_eq!((token.access_token.as_str(), token.refresh_token.as_str()), ("a", "r"));
    assert_eq!(token.expires_at.unix_ts, NOW - 59);
    assert!(matches!(login.advance(&mut token, &client()), LoginAction::LoggedIn(Some(_))));
}

#[test]
fn a_used_up_code_fails() {
    let mut login = login();
    let mut token = RedditToken::default();
    let reply = AuthorizeReply {
        access_token: "a".to_owned(),
        refresh_token: String::new(),
        expires_in: 0,
    };
    assert_eq!(login.authorized(&mut token, reply), Err(LoginError::NoRefreshToken));
    assert_eq!(
        LoginError::NoRefreshToken.message(),
        "authorization_code is not usable, most likely expired. Run init again."
    );
    assert_eq!(token.access_token, "");
}

#[test]
fn a_grant_without_an_access_token_is_refreshed() {
    let mut login = login();
    let mut token = RedditToken::default();
    let reply = AuthorizeReply {
        access_token: String::new(),
        refresh_token: "r".to_owned(),
        expires_in: 0,
    };
    assert_eq!(login.authorized(&mut token, reply), Ok(()));
    assert!(matches!(login.advance(&mut token, &client()), LoginAction::Refresh(_)));
}

#[test]
fn a_stale_grant_is_dropped_again() {
    let mut login = login();
    let mut token = token("", "r", 0);
    let reply = RefreshReply { access_token: "new".to_owned(), expires_in: -60 };
    assert_eq!(login.refreshed(&mut token, reply), Ok(()));
    assert!(matches!(login.advance(&mut token, &client()), LoginAction::Refresh(_)));
    assert_eq!(token.access_token, "");
}
