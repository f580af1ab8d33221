//! The token manager: when an access token is still good, and what a
//! renewal changes.

use super::identity_dto::{renew_token_request, IdentityTokenRefreshResponse, RenewTokenRequest};
use crate::database::AuthDto;
use vstd::prelude::*;

verus! {

/// Seconds before its expiry from which an access token is renewed.
pub const TOKEN_RENEW_MARGIN_SECONDS: u64 = 60;

/// The tokens of a session and the moment at which the access token expires,
/// in seconds since the epoch.
#[derive(Debug, Clone, PartialEq, Eq)]
pub struct TokenManager {
    access_token: String,
    refresh_token: String,
    expires_at: u64,
}

/// A token manager as a mathematical value.
pub struct TokenManagerView {
    pub access_token: Seq<char>,
    pub refresh_token: Seq<char>,
    pub expires_at: u64,
}

impl View for TokenManager {
    type V = TokenManagerView;

    closed spec fn view(&self) -> TokenManagerView {
        TokenManagerView {
            access_token: self.access_token@,
            refresh_token: self.refresh_token@,
            expires_at: self.expires_at,
        }
    }
}

/// Whether an access token that expires at `expires_at` can still be used
/// at `now`: the margin has not begun.
pub open spec fn is_fresh(expires_at: u64, now: u64) -> bool {
    now <= expires_at - TOKEN_RENEW_MARGIN_SECONDS
}

/// What has to happen before the vault is called.
#[derive(Debug, Clone, PartialEq, Eq)]
pub enum TokenAction {
    /// The access token is good: use it.
    Use(String),
    /// The access token is about to expire: send this renewal first.
    Renew(RenewTokenRequest),
}

impl TokenManager {
    pub fn new(access_token: String, refresh_token: String, expires_at: u64) -> (manager: Self)
        ensures
            manager@ == (TokenManagerView {
                access_token: access_token@,
                refresh_token: refresh_token@,
                expires_at,
            }),
    {
        Self { access_token, refresh_token, expires_at }
    }

    /// The token manager of a stored session. A session that expired before
    /// the epoch expires at the epoch.
    pub fn from_auth(auth: &AuthDto) -> (manager: Self)
        ensures
            manager@ == (TokenManagerView {
                access_token: auth.access_token@,
                refresh_token: auth.refresh_token@,
                expires_at: if auth.expires_at < 0 {
                    0u64
                } else {
                    auth.expires_at as u64
                },
            }),
    {
        let expires_at: u64 = if auth.expires_at < 0 {
            0
        } else {
            auth.expires_at as u64
        };
        Self {
            access_token: auth.access_token.clone(),
            refresh_token: auth.refresh_token.clone(),
            expires_at,
        }
    }

    /// The moment at which the access token expires.
    pub fn expires_at(&self) -> (at: u64)
        ensures
            at == self@.expires_at,
    {
        self.expires_at
    }

    /// Whether the access token has to be renewed before it is used at
    /// `now`.
    pub fn needs_renewal(&self, now: u64) -> (renew: bool)
        ensures
            renew == !is_fresh(self@.expires_at, now),
    {
        match self.expires_at.checked_sub(TOKEN_RENEW_MARGIN_SECONDS) {
            Some(limit) => now > limit,
            None => true,
        }
    }

    /// Decides, at `now`, how the next call of the vault gets its access
    /// token: the token at hand is handed out only while it is fresh;
    /// otherwise a renewal with the refresh token comes first.
    pub fn get_access_token(&self, now: u64) -> (action: TokenAction)
        ensures
            match action {
                TokenAction::Use(token) => is_fresh(self@.expires_at, now) && token@
                    == self@.access_token,
                TokenAction::Renew(request) => !is_fresh(self@.expires_at, now) && request@
                    == renew_token_request(self@.refresh_token),
            },
    {
        if self.needs_renewal(now) {
            TokenAction::Renew(RenewTokenRequest::new(self.refresh_token.as_str()))
        } else {
            TokenAction::Use(self.access_token.clone())
        }
    }

    /// Takes in the answer to a renewal that was made at `now`, and hands
    /// out the new access token. The refresh token stays. An answer whose
    /// token would expire beyond the range of the clock is not taken in.
    pub fn renewed(&mut self, now: u64, response: &IdentityTokenRefreshResponse) -> (token: Option<
        String,
    >)
        ensures
            match token {
                Some(access_token) => {
                    &&& now + response.expires_in <= u64::MAX
                    &&& access_token@ == response.access_token@
                    &&& final(self)@ == (TokenManagerView {
                        access_token: response.access_token@,
                        refresh_token: old(self)@.refresh_token,
                        expires_at: (now + response.expires_in) as u64,
                    })
                },
                None => now + response.expires_in > u64::MAX && final(self)@ == old(self)@,
            },
    {
        let expires_at: u64 = match now.checked_add(response.expires_in) {
            Some(at) => at,
            None => {
                return None;
            },
        };
        self.access_token = response.access_token.clone();
        self.expires_at = expires_at;
        Some(self.access_token.clone())
    }
}

} // verus!
