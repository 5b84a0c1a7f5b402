//! Logging in to reddit: getting a token that is valid for a while.
use vstd::prelude::*;
use vstd::utf8::encode_utf8;

use crate::networking::Request;
use crate::reddit::{
    authorize_body, authorize_request, base64, credentials, refresh_body, refresh_request,
    token_post, RedditToken, TokenView,
};
use crate::state::{ClientData, StateChange};
use crate::timestamp::{moved, Timestamp};

verus! {

/// The instant one minute before `now`.
pub open spec fn minute_before(now: Timestamp) -> Timestamp {
    let (unix_ts, nanos) = moved(now.unix_ts as int, now.nanos as int, -60);
    Timestamp { unix_ts: unix_ts as i64, nanos: nanos as u32 }
}

/// There is an access token, and it has not expired more than a minute ago.
pub open spec fn usable(token: TokenView, now: Timestamp) -> bool {
    token.access_token.len() > 0 && token.expires_at.after(minute_before(now))
}

/// The token without its access token.
pub open spec fn expired(token: TokenView) -> TokenView {
    TokenView {
        access_token: seq![],
        expires_at: Timestamp { unix_ts: 1577880000, nanos: 0 },
        ..token
    }
}

/// The token, without its access token if there is one that is no longer usable.
pub open spec fn pruned(token: TokenView) -> TokenView {
    if token.access_token.len() > 0 {
        expired(token)
    } else {
        token
    }
}

/// What is answered to a request for a new access token.
#[derive(Debug)]
pub struct RefreshReply {
    pub access_token: String,
    /// For how many seconds the access token is valid.
    pub expires_in: i64,
}

/// What is answered to a request for the first tokens.
#[derive(Debug)]
pub struct AuthorizeReply {
    pub access_token: String,
    pub refresh_token: String,
    /// For how many seconds the access token is valid.
    pub expires_in: i64,
}

/// Why nobody could be logged in.
#[derive(Debug, Clone, Copy, PartialEq, Eq, Structural)]
pub enum LoginError {
    /// The answer to a request for a new access token holds none.
    NoAccessToken,
    /// The answer to a request for the first tokens holds no refresh token.
    NoRefreshToken,
}

impl LoginError {
    /// What went wrong, for a reader.
    pub fn message(&self) -> (text: &'static str)
        ensures
            text@ == (match self {
                LoginError::NoAccessToken => "response.access_token.is_empty()"@,
                LoginError::NoRefreshToken =>
                    "authorization_code is not usable, most likely expired. Run init again."@,
            }),
    {
        match self {
            LoginError::NoAccessToken => "response.access_token.is_empty()",
            LoginError::NoRefreshToken => {
                "authorization_code is not usable, most likely expired. Run init again."
            },
        }
    }
}

/// What to do next in order to log in.
#[derive(Debug)]
pub enum LoginAction {
    /// The token can be used. If it is a new one, this is the change that records it.
    LoggedIn(Option<StateChange>),
    /// Ask for a new access token.
    Refresh(Request),
    /// Ask for the first tokens.
    Authorize(Request),
}

/// A login that began at an instant.
#[derive(Debug)]
pub struct Login {
    /// When the login began.
    pub now: Timestamp,
    /// Whether the token is another one than at the beginning.
    pub changed: bool,
}

impl Login {
    /// The calendar can name the instant at which the login began and the minute before it.
    pub open spec fn wf(self) -> bool {
        self.now.wf() && self.now.can_move(-60)
    }

    /// A login that begins now.
    pub fn new(now: Timestamp) -> (login: Self)
        ensures
            login == (Login { now, changed: false }),
    {
        Login { now, changed: false }
    }

    /// Looks at the token. Where its access token is no longer usable, it is dropped.
    pub fn advance(&mut self, token: &mut RedditToken, client: &ClientData) -> (action: LoginAction)
        requires
            old(self).wf(),
        ensures
            final(self).now == old(self).now,
            final(self).wf(),
            match action {
                LoginAction::LoggedIn(change) => {
                    &&& usable(old(token)@, old(self).now)
                    &&& *final(token) == *old(token)
                    &&& final(self).changed == old(self).changed
                    &&& change == (if old(self).changed {
                        Some(StateChange::RedditToken(*old(token)))
                    } else {
                        None
                    })
                },
                LoginAction::Refresh(request) => {
                    &&& !usable(old(token)@, old(self).now)
                    &&& old(token)@.refresh_token.len() > 0
                    &&& final(token)@ == pruned(old(token)@)
                    &&& final(self).changed == (old(self).changed || old(
                        token,
                    )@.access_token.len() > 0)
                    &&& request@ == token_post(
                        "Basic "@ + base64(encode_utf8(credentials(*client))),
                        client.user_agent@,
                        refresh_body(old(token)@.refresh_token),
                    )
                },
                LoginAction::Authorize(request) => {
                    &&& !usable(old(token)@, old(self).now)
                    &&& old(token)@.refresh_token.len() == 0
                    &&& final(token)@ == pruned(old(token)@)
                    &&& final(self).changed == (old(self).changed || old(
                        token,
                    )@.access_token.len() > 0)
                    &&& request@ == token_post(
                        "Basic "@ + base64(encode_utf8(credentials(*client))),
                        client.user_agent@,
                        authorize_body(*client),
                    )
                },
            },
    {
        if !token.access_token.as_str().is_empty() {
            let limit = self.now.plus_seconds(-60).unwrap();
            assert(limit == minute_before(self.now));
            if token.expires_at.is_after(&limit) {
                return if self.changed {
                    LoginAction::LoggedIn(Some(StateChange::RedditToken(token.clone())))
                } else {
                    LoginAction::LoggedIn(None)
                };
            }
            token.expires_at = Timestamp::default();
            token.access_token = String::new();
            self.changed = true;
            assert(token@.access_token =~= seq![]);
        }
        if !token.refresh_token.as_str().is_empty() {
            LoginAction::Refresh(refresh_request(client, token.refresh_token.as_str()))
        } else {
            LoginAction::Authorize(authorize_request(client))
        }
    }

    /// Takes over a new access token.
    pub fn refreshed(&mut self, token: &mut RedditToken, reply: RefreshReply) -> (result: Result<
        (),
        LoginError,
    >)
        requires
            old(self).wf(),
            reply.access_token@.len() > 0 ==> old(self).now.can_move(reply.expires_in as int),
        ensures
            final(self).now == old(self).now,
            final(self).wf(),
            match result {
                Ok(_) => {
                    &&& reply.access_token@.len() > 0
                    &&& final(self).changed
                    &&& old(self).now.is_moved(
                        reply.expires_in as int,
                        final(token)@.expires_at,
                    )
                    &&& final(token)@ == (TokenView {
                        access_token: reply.access_token@,
                        expires_at: final(token)@.expires_at,
                        ..old(token)@
                    })
                },
                Err(error) => {
                    &&& reply.access_token@.len() == 0
                    &&& error == LoginError::NoAccessToken
                    &&& *final(self) == *old(self)
                    &&& *final(token) == *old(token)
                },
            },
    {
        if reply.access_token.as_str().is_empty() {
            return Err(LoginError::NoAccessToken);
        }
        token.access_token = reply.access_token;
        token.expires_at = self.now.plus_seconds(reply.expires_in).unwrap();
        self.changed = true;
        Ok(())
    }

    /// Takes over the first tokens. The access token may be missing among them.
    pub fn authorized(&mut self, token: &mut RedditToken, reply: AuthorizeReply) -> (result: Result<
        (),
        LoginError,
    >)
        requires
            old(self).wf(),
            reply.refresh_token@.len() > 0 ==> old(self).now.can_move(reply.expires_in as int),
        ensures
            final(self).now == old(self).now,
            final(self).wf(),
            match result {
                Ok(_) => {
                    &&& reply.refresh_token@.len() > 0
                    &&& final(self).changed
                    &&& old(self).now.is_moved(
                        reply.expires_in as int,
                        final(token)@.expires_at,
                    )
                    &&& final(token)@ == (TokenView {
                        access_token: reply.access_token@,
                        refresh_token: reply.refresh_token@,
                        expires_at: final(token)@.expires_at,
                    })
                },
                Err(error) => {
                    &&& reply.refresh_token@.len() == 0
                    &&& error == LoginError::NoRefreshToken
                    &&& *final(self) == *old(self)
                    &&& *final(token) == *old(token)
                },
            },
    {
        if reply.refresh_token.as_str().is_empty() {
            return Err(LoginError::NoRefreshToken);
        }
        token.refresh_token = reply.refresh_token;
        token.access_token = reply.access_token;
        token.expires_at = self.now.plus_seconds(reply.expires_in).unwrap();
        self.changed = true;
        Ok(())
    }
}

/// An access token that was granted during a login for any time, or withdrawn less than a minute
/// before, can be used in that login: the login ends with it.
pub proof fn granted_token_is_usable(now: Timestamp, token: TokenView, expires_in: int)
    requires
        now.wf(),
        now.can_move(-60),
        now.can_move(expires_in),
        now.is_moved(expires_in, token.expires_at),
        token.access_token.len() > 0,
        expires_in > -60,
    ensures
        usable(token, now),
{
}

/// An access token that expired a minute or longer before a login began cannot be used in it.
pub proof fn stale_token_is_unusable(now: Timestamp, token: TokenView, expires_in: int)
    requires
        now.wf(),
        now.can_move(-60),
        now.can_move(expires_in),
        now.is_moved(expires_in, token.expires_at),
        expires_in <= -60,
    ensures
        !usable(token, now),
{
}

/// A token whose access token was dropped stays as it is when it is looked at again, keeps its
/// refresh token, and is not usable.
pub proof fn dropped_stays_dropped(token: TokenView, now: Timestamp)
    ensures
        pruned(pruned(token)) == pruned(token),
        pruned(token).refresh_token == token.refresh_token,
        !usable(pruned(token), now),
{
}

/// Outside of leap seconds, a token can be used exactly when it is not empty and expires later than
/// a minute before the login began.
pub proof fn usable_up_to_a_minute_late(token: TokenView, now: Timestamp)
    requires
        now.wf(),
        now.can_move(-60),
        now.nanos < 1_000_000_000,
    ensures
        usable(token, now) <==> token.access_token.len() > 0 && (token.expires_at.unix_ts + 60
            > now.unix_ts || token.expires_at.unix_ts + 60 == now.unix_ts && token.expires_at.nanos
            > now.nanos),
        token.access_token.len() == 0 ==> !usable(token, now),
{
}

/// A token that expires later is usable whenever one that expires earlier is; what the tokens are
/// makes no difference, as long as there are any.
pub proof fn later_expiry_is_no_worse(a: TokenView, b: TokenView, now: Timestamp)
    requires
        a.access_token.len() > 0,
        b.access_token.len() > 0,
        b.expires_at == a.expires_at || b.expires_at.after(a.expires_at),
    ensures
        usable(a, now) ==> usable(b, now),
{
}

/// Dropping an access token leaves the refresh token and nothing else: no access token, and the
/// expiry of a token that never was.
pub proof fn dropping_keeps_the_refresh_token(token: TokenView)
    ensures
        token.access_token.len() > 0 ==> {
            &&& pruned(token).access_token.len() == 0
            &&& pruned(token).refresh_token == token.refresh_token
            &&& pruned(token).expires_at.unix_ts == 1577880000
            &&& pruned(token).expires_at.nanos == 0
        },
        token.access_token.len() == 0 ==> pruned(token) == token,
{
}

} // verus!
