//! The access token of the Tidal provider.
use crate::api::spotify::{expires_soon, expiry, expiry_time, near_expiry};
use crate::models::opt_text;
use vstd::prelude::*;

verus! {

/// An access token as the store holds it, with the user that it is for.
/// `expires_at` is in seconds since the Unix epoch.
#[derive(Debug, Clone, PartialEq, Eq)]
pub struct StoredToken {
    pub access_token: String,
    pub token_type: String,
    pub expires_at: i64,
    pub refresh_token: Option<String>,
    pub scope: Option<String>,
    pub user_id: Option<i64>,
}

/// A token as contracts see it.
pub struct TokenView {
    pub access_token: Seq<char>,
    pub token_type: Seq<char>,
    pub expires_at: i64,
    pub refresh_token: Option<Seq<char>>,
    pub scope: Option<Seq<char>>,
    pub user_id: Option<i64>,
}

impl View for StoredToken {
    type V = TokenView;

    open spec fn view(&self) -> TokenView {
        TokenView {
            access_token: self.access_token@,
            token_type: self.token_type@,
            expires_at: self.expires_at,
            refresh_token: opt_text(self.refresh_token),
            scope: opt_text(self.scope),
            user_id: self.user_id,
        }
    }
}

/// The token after a refresh at the time `now`: with the new access token
/// and expiry, of type `Bearer`, with the new scope where one was given; the
/// refresh token and the user stay.
pub open spec fn refreshed(
    t: TokenView,
    access_token: Seq<char>,
    expires_in: Option<i64>,
    scope: Option<Seq<char>>,
    now: i64,
) -> TokenView {
    TokenView {
        access_token,
        token_type: "Bearer"@,
        expires_at: expiry(now, expires_in),
        refresh_token: t.refresh_token,
        scope: if scope is Some {
            scope
        } else {
            t.scope
        },
        user_id: t.user_id,
    }
}

impl StoredToken {
    /// Whether the token is to be refreshed at the time `now`.
    pub fn needs_refresh(&self, now: i64) -> (r: bool)
        ensures
            r == near_expiry(self.expires_at, now),
    {
        expires_soon(self.expires_at, now)
    }

    /// The token after a refresh at the time `now`.
    pub fn refresh(self, access_token: String, expires_in: Option<i64>, scope: Option<String>, now: i64) -> (r:
        StoredToken)
        ensures
            r@ == refreshed(self@, access_token@, expires_in, opt_text(scope), now),
    {
        let scope = match scope {
            Some(s) => Some(s),
            None => self.scope,
        };
        StoredToken {
            access_token,
            token_type: String::from_str("Bearer"),
            expires_at: expiry_time(now, expires_in),
            refresh_token: self.refresh_token,
            scope,
            user_id: self.user_id,
        }
    }

    /// The `Authorization` header for the token: `Bearer ` and the access
    /// token.
    pub fn bearer(&self) -> (r: String)
        ensures
            r@ == "Bearer "@ + self.access_token@,
    {
        let mut r = String::from_str("Bearer ");
        r.append(self.access_token.as_str());
        r
    }
}

} // verus!
