//! The access token of the Spotify provider.
use crate::models::opt_text;
use vstd::prelude::*;

verus! {

/// An access token as the store holds it. `expires_at` is in seconds since
/// the Unix epoch.
#[derive(Debug, Clone, PartialEq, Eq)]
pub struct StoredToken {
    pub access_token: String,
    pub token_type: String,
    pub expires_at: i64,
    pub refresh_token: Option<String>,
    pub scope: Option<String>,
}

/// A token as contracts see it.
pub struct TokenView {
    pub access_token: Seq<char>,
    pub token_type: Seq<char>,
    pub expires_at: i64,
    pub refresh_token: Option<Seq<char>>,
    pub scope: Option<Seq<char>>,
}

impl View for StoredToken {
    type V = TokenView;

    open spec fn view(&self) -> TokenView {
        TokenView {
            access_token: self.access_token@,
            token_type: self.token_type@,
            expires_at: self.expires_at,
            refresh_token: opt_text(self.refresh_token),
            scope: opt_text(self.scope),
        }
    }
}

/// Whether a token that expires at `expires_at` is to be refreshed at the
/// time `now`: it expires within 30 seconds.
pub open spec fn near_expiry(expires_at: i64, now: i64) -> bool {
    now + 30 >= expires_at
}

/// The time at which a token got at `now` expires: after `expires_in`
/// seconds, or after an hour where none are given.
pub open spec fn expiry(now: i64, expires_in: Option<i64>) -> i64 {
    let span = match expires_in {
        Some(s) => s,
        None => 3600,
    };
    crate::db::clamped_sum(now, span)
}

/// The token after a refresh at the time `now`: with the new access token
/// and expiry, of type `Bearer`, with the new scope where one was given; the
/// refresh token stays.
pub open spec fn refreshed(
    t: TokenView,
    access_token: Seq<char>,
    expires_in: Option<i64>,
    scope: Option<Seq<char>>,
    now: i64,
) -> TokenView {
    TokenView {
        access_token,
        token_type: "Bearer"@,
        expires_at: expiry(now, expires_in),
        refresh_token: t.refresh_token,
        scope: if scope is Some {
            scope
        } else {
            t.scope
        },
    }
}

/// Gives the time at which a token got at `now` expires.
pub fn expiry_time(now: i64, expires_in: Option<i64>) -> (r: i64)
    ensures
        r == expiry(now, expires_in),
{
    let span = match expires_in {
        Some(s) => s,
        None => 3600,
    };
    match now.checked_add(span) {
        Some(t) => t,
        None => if span > 0 {
            i64::MAX
        } else {
            i64::MIN
        },
    }
}

/// Tells whether a token that expires at `expires_at` is to be refreshed.
pub fn expires_soon(expires_at: i64, now: i64) -> (r: bool)
    ensures
        r == near_expiry(expires_at, now),
{
    match now.checked_add(30) {
        Some(t) => t >= expires_at,
        None => true,
    }
}

/// Whether a client has what it needs to be called: an id and a secret.
pub fn has_client(client_id: &str, client_secret: &str) -> (r: bool)
    ensures
        r == (client_id@.len() > 0 && client_secret@.len() > 0),
{
    client_id.unicode_len() > 0 && client_secret.unicode_len() > 0
}

/// The client's id and secret to use: as given where both are given, else
/// those on record, as far as there are any.
pub open spec fn effective(
    given: Seq<char>,
    other_given: Seq<char>,
    stored: Option<Option<Seq<char>>>,
) -> Seq<char> {
    if given.len() > 0 && other_given.len() > 0 {
        given
    } else {
        match stored {
            Some(Some(s)) => s,
            _ => given,
        }
    }
}

/// Chooses the client's id and secret: as given where both are given, else
/// those of the credentials on record, as far as there are any.
pub fn effective_client(
    client_id: String,
    client_secret: String,
    stored: Option<(Option<String>, Option<String>)>,
) -> (r: (String, String))
    ensures
        r.0@ == effective(
            client_id@,
            client_secret@,
            match stored {
                Some((id, _)) => Some(opt_text(id)),
                None => None,
            },
        ),
        r.1@ == effective(
            client_secret@,
            client_id@,
            match stored {
                Some((_, secret)) => Some(opt_text(secret)),
                None => None,
            },
        ),
{
    if has_client(client_id.as_str(), client_secret.as_str()) {
        return (client_id, client_secret);
    }
    match stored {
        Some((id, secret)) => {
            let a = match id {
                Some(s) => s,
                None => client_id,
            };
            let b = match secret {
                Some(s) => s,
                None => client_secret,
            };
            (a, b)
        },
        None => (client_id, client_secret),
    }
}

impl StoredToken {
    /// Whether the token is to be refreshed at the time `now`.
    pub fn needs_refresh(&self, now: i64) -> (r: bool)
        ensures
            r == near_expiry(self.expires_at, now),
    {
        expires_soon(self.expires_at, now)
    }

    /// The token after a refresh at the time `now`.
    pub fn refresh(self, access_token: String, expires_in: Option<i64>, scope: Option<String>, now: i64) -> (r:
        StoredToken)
        ensures
            r@ == refreshed(self@, access_token@, expires_in, opt_text(scope), now),
    {
        let scope = match scope {
            Some(s) => Some(s),
            None => self.scope,
        };
        StoredToken {
            access_token,
            token_type: String::from_str("Bearer"),
            expires_at: expiry_time(now, expires_in),
            refresh_token: self.refresh_token,
            scope,
        }
    }

    /// The `Authorization` header for the token: `Bearer ` and the access
    /// token.
    pub fn bearer(&self) -> (r: String)
        ensures
            r@ == "Bearer "@ + self.access_token@,
    {
        let mut r = String::from_str("Bearer ");
        r.append(self.access_token.as_str());
        r
    }
}

} // verus!
