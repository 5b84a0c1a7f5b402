//! What is asked of reddit, and what is made of its answers.
use vstd::prelude::*;

use vstd::utf8::encode_utf8;

use crate::networking::{
    chars_if_any, parse_url, parsed_uri, path_part, HeaderName, InvalidUrl, Method, Request,
    RequestView, Uri,
};
use crate::post::{id_bytes, read_id_is_written, RedditId, RedditPost};
use crate::query::{escaped, fields, fields_injective, pairs_of, query_string};
use crate::state::ClientData;
use crate::text::same_text;
use crate::timestamp::{in_calendar, Timestamp};

verus! {

/// What lets the program act on reddit.
#[derive(Debug)]
pub struct RedditToken {
    /// Accompanies requests; empty where there is none.
    pub access_token: String,
    /// Gets a new access token; empty where there is none.
    pub refresh_token: String,
    /// When the access token expires.
    pub expires_at: Timestamp,
}

impl RedditToken {
    /// There is no token yet. The time at which it expires is the default one.
    pub open spec fn is_blank(self) -> bool {
        &&& self.access_token@.len() == 0
        &&& self.refresh_token@.len() == 0
        &&& self.expires_at.unix_ts == 1577880000
        &&& self.expires_at.nanos == 0
    }
}

impl Clone for RedditToken {
    fn clone(&self) -> (copy: Self)
        ensures
            copy == *self,
    {
        RedditToken {
            access_token: self.access_token.clone(),
            refresh_token: self.refresh_token.clone(),
            expires_at: self.expires_at,
        }
    }
}

impl Default for RedditToken {
    fn default() -> (token: Self)
        ensures
            token.is_blank(),
            token.access_token@.len() == 0,
            token.refresh_token@.len() == 0,
            token.expires_at.unix_ts == 1577880000,
            token.expires_at.nanos == 0,
    {
        RedditToken {
            access_token: String::new(),
            refresh_token: String::new(),
            expires_at: Timestamp::default(),
        }
    }
}

/// What a token says.
pub struct TokenView {
    pub access_token: Seq<char>,
    pub refresh_token: Seq<char>,
    pub expires_at: Timestamp,
}

impl View for RedditToken {
    type V = TokenView;

    open spec fn view(&self) -> TokenView {
        TokenView {
            access_token: self.access_token@,
            refresh_token: self.refresh_token@,
            expires_at: self.expires_at,
        }
    }
}

/// The letter that stands for six bits in base64, in the standard alphabet.
pub open spec fn base64_letter(bits: int) -> char {
    if bits < 26 {
        (65 + bits) as char
    } else if bits < 52 {
        (71 + bits) as char
    } else if bits < 62 {
        (bits - 4) as char
    } else if bits == 62 {
        '+'
    } else {
        '/'
    }
}

/// Bytes in base64: three bytes make four letters, and what is left at the end is padded.
pub open spec fn base64(bytes: Seq<u8>) -> Seq<char>
    decreases bytes.len(),
{
    let a = bytes[0] as int;
    let b = bytes[1] as int;
    let c = bytes[2] as int;
    if bytes.len() == 0 {
        seq![]
    } else if bytes.len() == 1 {
        seq![base64_letter(a / 4), base64_letter(a % 4 * 16), '=', '=']
    } else if bytes.len() == 2 {
        seq![
            base64_letter(a / 4),
            base64_letter(a % 4 * 16 + b / 16),
            base64_letter(b % 16 * 4),
            '=',
        ]
    } else {
        seq![
            base64_letter(a / 4),
            base64_letter(a % 4 * 16 + b / 16),
            base64_letter(b % 16 * 4 + c / 64),
            base64_letter(c % 64),
        ] + base64(bytes.skip(3))
    }
}

/// `base64::encode`: the text's UTF-8 bytes in base64, in the standard alphabet and with padding.
#[verifier::external_body]
fn encode_base64(text: &str) -> (encoded: String)
    ensures
        encoded@ == base64(encode_utf8(text@)),
{
    base64::encode(text)
}

/// The keys with which the program identifies itself.
pub open spec fn credentials(client: ClientData) -> Seq<char> {
    client.public_key@ + ":"@ + client.private_key@
}

/// The header by which the program identifies itself, made of its encoded keys.
pub fn basic_authorization(encoded: &str) -> (header: String)
    ensures
        header@ == "Basic "@ + encoded@,
{
    let mut header = "Basic ".to_owned();
    header.append(encoded);
    header
}

/// The header by which the program identifies itself.
pub fn authorization(client: &ClientData) -> (header: String)
    ensures
        header@ == "Basic "@ + base64(encode_utf8(credentials(*client))),
        header@ == "Basic "@ + base64(
            encode_utf8(client.public_key@ + ":"@ + client.private_key@),
        ),
{
    let mut keys = client.public_key.clone();
    keys.append(":");
    keys.append(client.private_key.as_str());
    basic_authorization(encode_base64(keys.as_str()).as_str())
}

/// What a request for a token says.
pub open spec fn token_post(
    authorization: Seq<char>,
    user_agent: Seq<char>,
    body: Seq<char>,
) -> RequestView {
    RequestView {
        method: Method::Post,
        uri: "https://www.reddit.com/api/v1/access_token?raw_json=1"@,
        headers: seq![
            (HeaderName::Authorization, authorization),
            (HeaderName::ContentType, "application/x-www-form-urlencoded"@),
            (HeaderName::UserAgent, user_agent),
        ],
        body,
    }
}

/// A request for a token.
pub fn token_request(authorization: String, user_agent: &str, body: String) -> (request: Request)
    ensures
        request@ == token_post(authorization@, user_agent@, body@),
        request@.method is Post,
        request@.uri == "https://www.reddit.com/api/v1/access_token?raw_json=1"@,
        request@.headers == seq![
            (HeaderName::Authorization, authorization@),
            (HeaderName::ContentType, "application/x-www-form-urlencoded"@),
            (HeaderName::UserAgent, user_agent@),
        ],
        request.body == body,
{
    let mut request = Request::post(
        "https://www.reddit.com/api/v1/access_token?raw_json=1".to_owned(),
        body,
    );
    request.header(HeaderName::Authorization, authorization);
    request.header(HeaderName::ContentType, "application/x-www-form-urlencoded".to_owned());
    request.header(HeaderName::UserAgent, user_agent.to_owned());
    assert(request@ =~= token_post(authorization@, user_agent@, body@));
    request
}

/// The body of a request for a new access token.
pub open spec fn refresh_body(refresh_token: Seq<char>) -> Seq<char> {
    fields(seq![("grant_type"@, "refresh_token"@), ("refresh_token"@, refresh_token)])
}

/// The body of a request for the first tokens.
pub open spec fn authorize_body(client: ClientData) -> Seq<char> {
    fields(
        seq![
            ("grant_type"@, "authorization_code"@),
            ("code"@, client.code@),
            ("redirect_uri"@, client.redirect_uri@),
        ],
    )
}

/// A request for a new access token.
pub fn refresh_request(client: &ClientData, refresh_token: &str) -> (request: Request)
    ensures
        request@ == token_post(
            "Basic "@ + base64(encode_utf8(credentials(*client))),
            client.user_agent@,
            refresh_body(refresh_token@),
        ),
        request@.body == fields(
            seq![("grant_type"@, "refresh_token"@), ("refresh_token"@, refresh_token@)],
        ),
{
    let pairs = [("grant_type", "refresh_token"), ("refresh_token", refresh_token)];
    assert(pairs_of(pairs@) =~= seq![
        ("grant_type"@, "refresh_token"@),
        ("refresh_token"@, refresh_token@),
    ]);
    token_request(authorization(client), client.user_agent.as_str(), query_string(&pairs))
}

/// A request for the first tokens.
pub fn authorize_request(client: &ClientData) -> (request: Request)
    ensures
        request@ == token_post(
            "Basic "@ + base64(encode_utf8(credentials(*client))),
            client.user_agent@,
            authorize_body(*client),
        ),
        request@.body == fields(
            seq![
                ("grant_type"@, "authorization_code"@),
                ("code"@, client.code@),
                ("redirect_uri"@, client.redirect_uri@),
            ],
        ),
{
    let pairs = [
        ("grant_type", "authorization_code"),
        ("code", client.code.as_str()),
        ("redirect_uri", client.redirect_uri.as_str()),
    ];
    assert(pairs_of(pairs@) =~= seq![
        ("grant_type"@, "authorization_code"@),
        ("code"@, client.code@),
        ("redirect_uri"@, client.redirect_uri@),
    ]);
    token_request(authorization(client), client.user_agent.as_str(), query_string(&pairs))
}

/// Where a function of the API is.
pub open spec fn api_uri(function: Seq<char>) -> Seq<char> {
    "https://oauth.reddit.com"@ + function + ".json?raw_json=1"@
}

/// The headers of a request to the API.
pub open spec fn api_headers(token: RedditToken, client: ClientData) -> Seq<
    (HeaderName, Seq<char>),
> {
    seq![
        (HeaderName::Authorization, "Bearer "@ + token.access_token@),
        (HeaderName::UserAgent, client.user_agent@),
    ]
}

/// What a request to the API says that sends something.
pub open spec fn api_post(
    token: RedditToken,
    client: ClientData,
    function: Seq<char>,
    body: Seq<char>,
) -> RequestView {
    RequestView {
        method: Method::Post,
        uri: api_uri(function),
        headers: api_headers(token, client),
        body,
    }
}

/// What a request to the API says that sends nothing.
pub open spec fn api_get(token: RedditToken, client: ClientData, function: Seq<char>) -> RequestView {
    RequestView {
        method: Method::Get,
        uri: api_uri(function),
        headers: api_headers(token, client),
        body: seq![],
    }
}

fn api_address(function: &str) -> (uri: String)
    ensures
        uri@ == api_uri(function@),
{
    let mut uri = "https://oauth.reddit.com".to_owned();
    uri.append(function);
    uri.append(".json?raw_json=1");
    uri
}

fn identified(request: Request, token: &RedditToken, client: &ClientData) -> (identified: Request)
    requires
        request@.headers.len() == 0,
    ensures
        identified@ == (RequestView { headers: api_headers(*token, *client), ..request@ }),
{
    let mut identified = request;
    let mut bearer = "Bearer ".to_owned();
    bearer.append(token.access_token.as_str());
    identified.header(HeaderName::Authorization, bearer);
    identified.header(HeaderName::UserAgent, client.user_agent.clone());
    assert(identified@.headers =~= api_headers(*token, *client));
    identified
}

/// A request to the API that sends something.
pub fn api_request(
    token: &RedditToken,
    client: &ClientData,
    function: &str,
    body: String,
) -> (request: Request)
    ensures
        request@ == api_post(*token, *client, function@, body@),
        request@.method is Post,
        request@.uri == "https://oauth.reddit.com"@ + function@ + ".json?raw_json=1"@,
        request@.headers == seq![
            (HeaderName::Authorization, "Bearer "@ + token.access_token@),
            (HeaderName::UserAgent, client.user_agent@),
        ],
        request@.body == body@,
{
    identified(Request::post(api_address(function), body), token, client)
}

/// A request to the API that sends nothing.
pub fn api_request_get(token: &RedditToken, client: &ClientData, function: &str) -> (request:
    Request)
    ensures
        request@ == api_get(*token, *client, function@),
        request@.method is Get,
        request@.uri == "https://oauth.reddit.com"@ + function@ + ".json?raw_json=1"@,
        request@.headers == seq![
            (HeaderName::Authorization, "Bearer "@ + token.access_token@),
            (HeaderName::UserAgent, client.user_agent@),
        ],
        request@.body.len() == 0,
{
    identified(Request::get(api_address(function)), token, client)
}

/// What kind of thing stands in a listing.
#[derive(Debug, Clone, Copy, PartialEq, Eq, Structural)]
pub enum ChildKind {
    Unknown,
    Comment,
    Account,
    Link,
    Message,
    Subreddit,
    Award,
}

/// A thing that stands in a listing.
#[derive(Debug)]
pub struct Child {
    pub kind: ChildKind,
    pub id: String,
    /// It is a text and no link.
    pub is_self: bool,
    pub locked: bool,
    pub post_hint: Option<String>,
    /// When it was posted, in seconds since the UNIX epoch.
    pub created_utc: i64,
    pub url: Option<String>,
    pub url_overridden_by_dest: Option<String>,
}

impl Child {
    /// It is a post with a link that can still be commented on.
    pub open spec fn is_link(self) -> bool {
        &&& self.kind is Link
        &&& !self.is_self
        &&& !self.locked
        &&& chars_if_any(self.post_hint) == Some("link"@)
    }

    /// Where it links to.
    pub open spec fn target(self) -> Option<String> {
        if self.url_overridden_by_dest is Some {
            self.url_overridden_by_dest
        } else {
            self.url
        }
    }

    /// The post that it is, if it is one that counts.
    pub open spec fn as_post(self) -> Option<RedditPost> {
        let bytes = encode_utf8(self.id@);
        match self.target() {
            Some(url) if self.is_link() && in_calendar(self.created_utc as int) && id_bytes(
                bytes,
            ) => Some(
                RedditPost {
                    created: Timestamp { unix_ts: self.created_utc, nanos: 0 },
                    id: RedditId::of(bytes),
                    url,
                },
            ),
            _ => None,
        }
    }

    /// The post that it is, if it is one that counts: it links to something, can be commented on,
    /// and has a date and an identifier.
    pub fn into_post(self) -> (post: Option<RedditPost>)
        ensures
            post == self.as_post(),
            post is Some <==> {
                &&& self.kind is Link
                &&& !self.is_self
                &&& !self.locked
                &&& self.post_hint matches Some(hint) && hint@ == "link"@
                &&& self.url is Some || self.url_overridden_by_dest is Some
                &&& in_calendar(self.created_utc as int)
                &&& id_bytes(encode_utf8(self.id@))
            },
            post matches Some(post) ==> {
                &&& post.id.written(encode_utf8(self.id@))
                &&& post.created.unix_ts == self.created_utc
                &&& self.url_overridden_by_dest is Some ==> self.url_overridden_by_dest == Some(
                    post.url,
                )
                &&& self.url_overridden_by_dest is None ==> self.url == Some(post.url)
            },
    {
        proof {
            counted_children(self);
        }
        let is_post = match self.kind {
            ChildKind::Link => true,
            _ => false,
        };
        let is_link = match &self.post_hint {
            Some(hint) => same_text(hint.as_str(), "link"),
            None => false,
        };
        if !is_post || self.is_self || self.locked || !is_link {
            return None;
        }
        let url = match self.url_overridden_by_dest {
            Some(url) => url,
            None => match self.url {
                Some(url) => url,
                None => {
                    return None;
                },
            },
        };
        let created = match Timestamp::try_from(self.created_utc) {
            Ok(created) => created,
            Err(_) => {
                return None;
            },
        };
        let id = match RedditId::try_from(self.id.as_str()) {
            Ok(id) => id,
            Err(_) => {
                return None;
            },
        };
        Some(RedditPost { created, id, url })
    }
}

/// The posts that count, in the order of the listing.
pub open spec fn posts_of(children: Seq<Child>) -> Seq<RedditPost>
    decreases children.len(),
{
    if children.len() == 0 {
        seq![]
    } else {
        match children.last().as_post() {
            Some(post) => posts_of(children.drop_last()).push(post),
            None => posts_of(children.drop_last()),
        }
    }
}

/// The posts of a listing have identifiers that can be written, and dates.
pub proof fn listed_posts_are_complete(children: Seq<Child>, i: int)
    requires
        0 <= i < posts_of(children).len(),
    ensures
        posts_of(children)[i].id.wf(),
        posts_of(children)[i].created.wf(),
    decreases children.len(),
{
    let rest = posts_of(children.drop_last());
    if i < rest.len() {
        listed_posts_are_complete(children.drop_last(), i);
    } else {
        read_id_is_written(encode_utf8(children.last().id@));
    }
}

/// The posts of two listings are those of one after the other.
pub proof fn listings_in_turn(first: Seq<Child>, second: Seq<Child>)
    ensures
        posts_of(first + second) == posts_of(first) + posts_of(second),
    decreases second.len(),
{
    if second.len() == 0 {
        assert(first + second =~= first);
        assert(posts_of(first) + posts_of(second) =~= posts_of(first));
    } else {
        listings_in_turn(first, second.drop_last());
        assert((first + second).drop_last() =~= first + second.drop_last());
        assert((first + second).last() == second.last());
        assert(posts_of(first + second) =~= posts_of(first) + posts_of(second));
    }
}

/// The function of the API that lists the newest posts of a subreddit.
pub open spec fn listing_function(subreddit: Seq<char>) -> Seq<char> {
    "/r/"@ + subreddit + "/new/"@
}

/// Asks for the newest posts.
pub fn collect_request(token: &RedditToken, client: &ClientData) -> (request: Request)
    ensures
        request@ == api_get(*token, *client, listing_function(client.sr_to_monitor@)),
        request@.uri == "https://oauth.reddit.com"@ + ("/r/"@ + client.sr_to_monitor@ + "/new/"@)
            + ".json?raw_json=1"@,
{
    let mut function = "/r/".to_owned();
    function.append(client.sr_to_monitor.as_str());
    function.append("/new/");
    api_request_get(token, client, function.as_str())
}

/// The posts of a listing that count.
pub fn collect_new_posts(children: Vec<Child>) -> (posts: Vec<RedditPost>)
    ensures
        posts@ == posts_of(children@),
{
    let mut posts: Vec<RedditPost> = Vec::new();
    for child in it: children
        invariant
            it.seq() == children@,
            posts@ == posts_of(children@.take(it.index() as int)),
    {
        proof {
            let next = children@.take(it.index() as int + 1);
            assert(next.drop_last() =~= children@.take(it.index() as int));
            assert(next.last() == child);
        }
        if let Some(post) = child.into_post() {
            posts.push(post);
        }
    }
    assert(children@.take(children@.len() as int) =~= children@);
    posts
}

/// Asks for the name of the account.
pub fn read_my_name(token: &RedditToken, client: &ClientData) -> (request: Request)
    ensures
        request@ == api_get(*token, *client, "/api/v1/me"@),
{
    api_request_get(token, client, "/api/v1/me")
}

/// An image that was uploaded but not posted yet.
#[derive(Debug)]
pub struct ImagePreview {
    pub preview_url: String,
    /// Where it is told when the image was posted.
    pub websocket_url: Uri,
}

/// Asks where an image can be uploaded to.
pub fn upload_image_preview(
    token: &RedditToken,
    client: &ClientData,
    filename: &str,
    mimetype: &str,
) -> (request: Request)
    ensures
        request@ == api_post(
            *token,
            *client,
            "/api/media/asset"@,
            fields(seq![("filepath"@, filename@), ("mimetype"@, mimetype@)]),
        ),
{
    let pairs = [("filepath", filename), ("mimetype", mimetype)];
    assert(pairs_of(pairs@) =~= seq![("filepath"@, filename@), ("mimetype"@, mimetype@)]);
    api_request(token, client, "/api/media/asset", query_string(&pairs))
}

/// Where to upload an image to: reddit leaves out the scheme.
pub fn upload_uri(action: &str) -> (uri: String)
    ensures
        uri@ == "https:"@ + action@,
{
    let mut uri = "https:".to_owned();
    uri.append(action);
    uri
}

impl ImagePreview {
    /// The image that was uploaded to a location, together with the websocket that was named before.
    pub fn new(location: String, websocket_url: &str) -> (preview: Result<Self, InvalidUrl>)
        ensures
            match preview {
                Ok(preview) => {
                    &&& preview.preview_url == location
                    &&& parsed_uri(escaped(websocket_url@)) == Some(preview.websocket_url.parts())
                    &&& preview.websocket_url.is_whole()
                },
                Err(_) => parsed_uri(escaped(websocket_url@)) is None,
            },
    {
        match parse_url(websocket_url) {
            Ok(websocket_url) => Ok(ImagePreview { preview_url: location, websocket_url }),
            Err(error) => Err(error),
        }
    }
}

/// Asks to post an image that was uploaded.
pub fn submit_image(
    token: &RedditToken,
    client: &ClientData,
    sr: &str,
    title: &str,
    url: &str,
) -> (request: Request)
    ensures
        request@ == api_post(
            *token,
            *client,
            "/api/submit"@,
            fields(
                seq![
                    ("sr"@, sr@),
                    ("title"@, title@),
                    ("url"@, url@),
                    ("kind"@, "image"@),
                    ("resubmit"@, "false"@),
                    ("sendreplies"@, "false"@),
                    ("nsfw"@, "true"@),
                    ("spoiler"@, "false"@),
                    ("validate_on_submit"@, "true"@),
                ],
            ),
        ),
{
    let pairs = [
        ("sr", sr),
        ("title", title),
        ("url", url),
        ("kind", "image"),
        ("resubmit", "false"),
        ("sendreplies", "false"),
        ("nsfw", "true"),
        ("spoiler", "false"),
        ("validate_on_submit", "true"),
    ];
    assert(pairs_of(pairs@) =~= seq![
        ("sr"@, sr@),
        ("title"@, title@),
        ("url"@, url@),
        ("kind"@, "image"@),
        ("resubmit"@, "false"@),
        ("sendreplies"@, "false"@),
        ("nsfw"@, "true"@),
        ("spoiler"@, "false"@),
        ("validate_on_submit"@, "true"@),
    ]);
    api_request(token, client, "/api/submit", query_string(&pairs))
}

/// The name and the type of a screenshot's file.
pub open spec fn screenshot_file() -> (Seq<char>, Seq<char>) {
    ("screenshot.png"@, "image/png"@)
}

/// The name of a screenshot's file.
pub fn screenshot_filename() -> (name: &'static str)
    ensures
        name@ == screenshot_file().0,
        name@ == "screenshot.png"@,
{
    "screenshot.png"
}

/// The type of a screenshot's file.
pub fn screenshot_mimetype() -> (mimetype: &'static str)
    ensures
        mimetype@ == screenshot_file().1,
        mimetype@ == "image/png"@,
{
    "image/png"
}

/// Asks where a screenshot can be uploaded to.
pub fn upload_screenshot(token: &RedditToken, client: &ClientData) -> (request: Request)
    ensures
        request@ == api_post(
            *token,
            *client,
            "/api/media/asset"@,
            fields(
                seq![("filepath"@, screenshot_file().0), ("mimetype"@, screenshot_file().1)],
            ),
        ),
{
    upload_image_preview(token, client, screenshot_filename(), screenshot_mimetype())
}

/// Asks to post a screenshot that was uploaded, to the subreddit that is meant for screenshots.
pub fn post_screenshot(
    token: &RedditToken,
    client: &ClientData,
    title: &str,
    preview: &ImagePreview,
) -> (request: Request)
    ensures
        request@ == api_post(
            *token,
            *client,
            "/api/submit"@,
            fields(
                seq![
                    ("sr"@, client.sr_to_post_to@),
                    ("title"@, title@),
                    ("url"@, preview.preview_url@),
                    ("kind"@, "image"@),
                    ("resubmit"@, "false"@),
                    ("sendreplies"@, "false"@),
                    ("nsfw"@, "true"@),
                    ("spoiler"@, "false"@),
                    ("validate_on_submit"@, "true"@),
                ],
            ),
        ),
{
    submit_image(
        token,
        client,
        client.sr_to_post_to.as_str(),
        title,
        preview.preview_url.as_str(),
    )
}

/// What came out of a websocket.
#[derive(Debug)]
pub enum WebsocketMessage {
    /// The connection failed.
    Failed,
    Text(String),
    /// A message that is no text.
    Other,
    /// The connection was closed.
    Closed,
}

/// Why it is not known where an image was posted.
#[derive(Debug)]
pub enum SubmitError {
    /// The connection failed.
    Failed,
    WrongKindOfMessage,
    NoMessage,
    /// The address of the post is too short to be one.
    RedirectTooShort(String),
}

impl SubmitError {
    /// What went wrong, for a reader. A connection that failed says so itself, and an address that
    /// is too short is to be shown.
    pub fn message(&self) -> (text: Option<&'static str>)
        ensures
            match self {
                SubmitError::WrongKindOfMessage => text matches Some(text) && text@
                    == "Wrong kind of message received"@,
                SubmitError::NoMessage => text matches Some(text) && text@
                    == "No message received"@,
                SubmitError::Failed => text is None,
                SubmitError::RedirectTooShort(_) => text is None,
            },
    {
        match self {
            SubmitError::WrongKindOfMessage => Some("Wrong kind of message received"),
            SubmitError::NoMessage => Some("No message received"),
            SubmitError::Failed => None,
            SubmitError::RedirectTooShort(_) => None,
        }
    }
}

/// The text of a message.
pub fn message_text(message: WebsocketMessage) -> (text: Result<String, SubmitError>)
    ensures
        text == (match message {
            WebsocketMessage::Failed => Err(SubmitError::Failed),
            WebsocketMessage::Text(text) => Ok(text),
            WebsocketMessage::Other => Err(SubmitError::WrongKindOfMessage),
            WebsocketMessage::Closed => Err(SubmitError::NoMessage),
        }),
{
    match message {
        WebsocketMessage::Failed => Err(SubmitError::Failed),
        WebsocketMessage::Text(text) => Ok(text),
        WebsocketMessage::Other => Err(SubmitError::WrongKindOfMessage),
        WebsocketMessage::Closed => Err(SubmitError::NoMessage),
    }
}

/// The address of the post, if it is long enough to be one.
pub fn check_redirect(redirect: String) -> (checked: Result<String, SubmitError>)
    ensures
        checked == (if encode_utf8(redirect@).len() >= 11 {
            Ok::<String, SubmitError>(redirect)
        } else {
            Err::<String, SubmitError>(SubmitError::RedirectTooShort(redirect))
        }),
{
    if redirect.as_str().as_bytes().len() >= 11 {
        Ok(redirect)
    } else {
        Err(SubmitError::RedirectTooShort(redirect))
    }
}

/// Why it is not known where the image of a post is.
#[derive(Debug, Clone, Copy, PartialEq, Eq, Structural)]
pub enum ImageUrlError {
    InvalidUrl,
    NoPath,
    NoUrl,
}

impl ImageUrlError {
    /// What went wrong, for a reader.
    pub fn message(&self) -> (text: &'static str)
        ensures
            text@ == (match self {
                ImageUrlError::InvalidUrl => "Invalid url"@,
                ImageUrlError::NoPath => "No path found"@,
                ImageUrlError::NoUrl => "No url found"@,
            }),
    {
        match self {
            ImageUrlError::InvalidUrl => "Invalid url",
            ImageUrlError::NoPath => "No path found",
            ImageUrlError::NoUrl => "No url found",
        }
    }
}

/// The function of the API that tells about the post at an address.
pub fn page_function(uri: &Uri) -> (function: Result<String, ImageUrlError>)
    ensures
        match function {
            Ok(function) => uri.path_and_query matches Some(path) && function@ == path_part(path@),
            Err(error) => uri.path_and_query is None && error == ImageUrlError::NoPath,
        },
{
    match uri.path() {
        Some(path) => Ok(path),
        None => Err(ImageUrlError::NoPath),
    }
}

/// The function of the API that tells about the post in which an image was posted.
pub fn get_uploaded_image_url(url: &str) -> (function: Result<String, ImageUrlError>)
    ensures
        match parsed_uri(escaped(url@)) {
            Some((_, _, Some(path))) => function matches Ok(function) && function@ == path_part(
                path,
            ),
            Some((_, _, None)) => function == Err::<String, ImageUrlError>(ImageUrlError::NoPath),
            None => function == Err::<String, ImageUrlError>(ImageUrlError::InvalidUrl),
        },
{
    match parse_url(url) {
        Ok(uri) => page_function(&uri),
        Err(_) => Err(ImageUrlError::InvalidUrl),
    }
}

/// Where a post on a page leads to.
#[derive(Debug)]
pub struct PageChild {
    pub url_overridden_by_dest: Option<String>,
    pub url: Option<String>,
}

impl PageChild {
    /// Where the post leads to: the first of both addresses that is not empty.
    pub open spec fn target(self) -> Option<String> {
        match (self.url_overridden_by_dest, self.url) {
            (Some(url), _) if url@.len() > 0 => Some(url),
            (_, Some(url)) if url@.len() > 0 => Some(url),
            _ => None,
        }
    }

    fn into_target(self) -> (target: Option<String>)
        ensures
            target == self.target(),
    {
        if let Some(url) = self.url_overridden_by_dest {
            if !url.as_str().is_empty() {
                return Some(url);
            }
        }
        if let Some(url) = self.url {
            if !url.as_str().is_empty() {
                return Some(url);
            }
        }
        None
    }
}

/// Where the post of a page leads to. The page consists of listings: the last one holds the
/// comments, the one before it the post, which stands last in it.
pub open spec fn page_target(listings: Seq<Vec<PageChild>>) -> Option<String> {
    if listings.len() >= 2 && listings[listings.len() - 2]@.len() > 0 {
        listings[listings.len() - 2]@.last().target()
    } else {
        None
    }
}

/// The address of the image in a post, of which this is the page.
pub fn uploaded_image_url(listings: Vec<Vec<PageChild>>) -> (url: Result<String, ImageUrlError>)
    ensures
        url == (match page_target(listings@) {
            Some(url) => Ok::<String, ImageUrlError>(url),
            None => Err::<String, ImageUrlError>(ImageUrlError::NoUrl),
        }),
{
    let mut listings = listings;
    listings.pop();
    if let Some(listing) = listings.pop() {
        let mut listing = listing;
        if let Some(child) = listing.pop() {
            if let Some(url) = child.into_target() {
                return Ok(url);
            }
        }
    }
    Err(ImageUrlError::NoUrl)
}

/// Asks for the title of a page.
pub fn fetch_title(token: &RedditToken, client: &ClientData, url: &str) -> (request: Request)
    ensures
        request@ == api_post(
            *token,
            *client,
            "/api/fetch_title"@,
            fields(seq![("url"@, url@), ("api_type"@, "json"@)]),
        ),
{
    let pairs = [("url", url), ("api_type", "json")];
    assert(pairs_of(pairs@) =~= seq![("url"@, url@), ("api_type"@, "json"@)]);
    api_request(token, client, "/api/fetch_title", query_string(&pairs))
}

/// A thing in a listing is a post that counts exactly when it is a link, is neither a text nor
/// locked, is hinted to be a link, leads somewhere, and has a date and an identifier. The post then
/// has that identifier and that date, and leads to the destination, or else to the address.
pub proof fn counted_children(child: Child)
    ensures
        child.as_post() is Some <==> {
            &&& child.kind is Link
            &&& !child.is_self
            &&& !child.locked
            &&& child.post_hint matches Some(hint) && hint@ == "link"@
            &&& child.url is Some || child.url_overridden_by_dest is Some
            &&& in_calendar(child.created_utc as int)
            &&& id_bytes(encode_utf8(child.id@))
        },
        child.as_post() matches Some(post) ==> {
            &&& post.id.written(encode_utf8(child.id@))
            &&& post.created.unix_ts == child.created_utc
            &&& post.created.nanos == 0
            &&& child.url_overridden_by_dest matches Some(url) ==> post.url == url
            &&& child.url_overridden_by_dest is None ==> child.url == Some(post.url)
        },
{
    if child.as_post() is Some {
        read_id_is_written(encode_utf8(child.id@));
    }
}

/// Each thing in a listing counts by itself: the posts of a listing of one thing are that thing's.
pub proof fn listing_of_one(child: Child)
    ensures
        posts_of(seq![child]).len() <= 1,
        posts_of(seq![child]).len() == 1 <==> child.as_post() is Some,
        child.as_post() matches Some(post) ==> posts_of(seq![child])[0] == post,
        posts_of(Seq::<Child>::empty()).len() == 0,
{
    reveal_with_fuel(posts_of, 2);
    assert(seq![child].drop_last() =~= Seq::<Child>::empty());
}

/// A request to the API can be told apart by everything that it is made of: the function, the token,
/// the user agent and the body.
pub proof fn api_requests_are_told_apart(
    token: RedditToken,
    client: ClientData,
    function: Seq<char>,
    body: Seq<char>,
    other_token: RedditToken,
    other_client: ClientData,
    other_function: Seq<char>,
    other_body: Seq<char>,
)
    ensures
        api_post(token, client, function, body) == api_post(
            other_token,
            other_client,
            other_function,
            other_body,
        ) ==> {
            &&& function == other_function
            &&& body == other_body
            &&& token.access_token@ == other_token.access_token@
            &&& client.user_agent@ == other_client.user_agent@
        },
        api_get(token, client, function) == api_get(other_token, other_client, other_function)
            ==> {
            &&& function == other_function
            &&& token.access_token@ == other_token.access_token@
            &&& client.user_agent@ == other_client.user_agent@
        },
        api_post(token, client, function, body).method is Post,
        api_get(token, client, function).method is Get,
        api_get(token, client, function).body.len() == 0,
{
    let host = "https://oauth.reddit.com"@;
    let end = ".json?raw_json=1"@;
    let size = host.len() as int;
    let bearer = "Bearer "@;
    let a = api_uri(function);
    let b = api_uri(other_function);
    assert(function =~= a.subrange(size, a.len() - end.len()));
    assert(other_function =~= b.subrange(size, b.len() - end.len()));
    let x = api_headers(token, client);
    let y = api_headers(other_token, other_client);
    let access = token.access_token@;
    let other_access = other_token.access_token@;
    assert(x[0].1 == bearer + access && y[0].1 == bearer + other_access);
    assert(x[1].1 == client.user_agent@ && y[1].1 == other_client.user_agent@);
    assert(access =~= (bearer + access).skip(bearer.len() as int));
    assert(other_access =~= (bearer + other_access).skip(bearer.len() as int));
}

/// A request for a token can be told apart by the keys, the user agent and the body. It always goes
/// to the same place.
pub proof fn token_requests_are_told_apart(
    authorization: Seq<char>,
    user_agent: Seq<char>,
    body: Seq<char>,
    other: Seq<char>,
    other_agent: Seq<char>,
    other_body: Seq<char>,
)
    ensures
        token_post(authorization, user_agent, body) == token_post(other, other_agent, other_body)
            ==> authorization == other && user_agent == other_agent && body == other_body,
        token_post(authorization, user_agent, body).uri == token_post(
            other,
            other_agent,
            other_body,
        ).uri,
        token_post(authorization, user_agent, body).method is Post,
{
    let x = token_post(authorization, user_agent, body).headers;
    let y = token_post(other, other_agent, other_body).headers;
    assert(x[0].1 == authorization && y[0].1 == other);
    assert(x[2].1 == user_agent && y[2].1 == other_agent);
}

/// What is sent for a token tells the refresh token, or the code and the address of the redirect.
pub proof fn token_bodies_are_told_apart(
    refresh: Seq<char>,
    other: Seq<char>,
    client: ClientData,
    other_client: ClientData,
)
    ensures
        refresh_body(refresh) == refresh_body(other) ==> refresh == other,
        authorize_body(client) == authorize_body(other_client) ==> client.code@
            == other_client.code@ && client.redirect_uri@ == other_client.redirect_uri@,
{
    if refresh_body(refresh) == refresh_body(other) {
        let x = seq![("grant_type"@, "refresh_token"@), ("refresh_token"@, refresh)];
        let y = seq![("grant_type"@, "refresh_token"@), ("refresh_token"@, other)];
        fields_injective(x, y);
        assert(x[1] == y[1]);
    }
    if authorize_body(client) == authorize_body(other_client) {
        let x = seq![
            ("grant_type"@, "authorization_code"@),
            ("code"@, client.code@),
            ("redirect_uri"@, client.redirect_uri@),
        ];
        let y = seq![
            ("grant_type"@, "authorization_code"@),
            ("code"@, other_client.code@),
            ("redirect_uri"@, other_client.redirect_uri@),
        ];
        fields_injective(x, y);
        assert(x[1] == y[1] && x[2] == y[2]);
    }
}

/// The keys that are sent are the public one, a colon and the private one: as public keys hold no
/// colon, both can be told from them.
pub proof fn credentials_are_told_apart(client: ClientData, other: ClientData)
    requires
        !client.public_key@.contains(':'),
        !other.public_key@.contains(':'),
        credentials(client) == credentials(other),
    ensures
        client.public_key@ == other.public_key@,
        client.private_key@ == other.private_key@,
{
    reveal_strlit(":");
    let a = client.public_key@;
    let b = other.public_key@;
    let x = credentials(client);
    let y = credentials(other);
    assert(x[a.len() as int] == ':');
    assert(y[b.len() as int] == ':');
    if a.len() < b.len() {
        assert(y[a.len() as int] == b[a.len() as int]);
    }
    if b.len() < a.len() {
        assert(x[b.len() as int] == a[b.len() as int]);
    }
    assert(a =~= x.take(a.len() as int));
    assert(b =~= y.take(b.len() as int));
    assert(client.private_key@ =~= x.skip(a.len() as int + 1));
    assert(other.private_key@ =~= y.skip(b.len() as int + 1));
}

/// Each subreddit has its own listing.
pub proof fn listings_are_told_apart(a: Seq<char>, b: Seq<char>)
    requires
        listing_function(a) == listing_function(b),
    ensures
        a == b,
{
    let front = "/r/"@;
    let end = "/new/"@;
    let x = listing_function(a);
    let y = listing_function(b);
    assert(a =~= x.subrange(front.len() as int, x.len() - end.len()));
    assert(b =~= y.subrange(front.len() as int, y.len() - end.len()));
}

/// Where a post leads to is never empty. A destination that is not empty comes before the address,
/// and the address is taken only where there is none.
pub proof fn destination_comes_first(child: PageChild)
    ensures
        child.target() matches Some(url) ==> url@.len() > 0,
        (child.url_overridden_by_dest matches Some(url) && url@.len() > 0) ==> child.target()
            == child.url_overridden_by_dest,
        (child.url_overridden_by_dest matches Some(url) ==> url@.len() == 0) && (
        child.url matches Some(url) && url@.len() > 0) ==> child.target() == child.url,
        child.target() is None ==> {
            &&& child.url_overridden_by_dest matches Some(url) ==> url@.len() == 0
            &&& child.url matches Some(url) ==> url@.len() == 0
        },
{
}

/// On a page the post stands last in the listing before the last one, whatever stands before that
/// listing and whatever the last one holds. A page of fewer listings has no post.
pub proof fn post_stands_before_the_comments(
    front: Seq<Vec<PageChild>>,
    posts: Vec<PageChild>,
    comments: Vec<PageChild>,
    short: Seq<Vec<PageChild>>,
)
    ensures
        posts@.len() > 0 ==> page_target(front.push(posts).push(comments)) == posts@[posts@.len()
            - 1].target(),
        posts@.len() == 0 ==> page_target(front.push(posts).push(comments)) is None,
        short.len() < 2 ==> page_target(short) is None,
{
    let page = front.push(posts).push(comments);
    assert(page[page.len() - 2] == posts);
}

} // verus!
