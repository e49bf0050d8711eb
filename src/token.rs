use vstd::prelude::*;

verus! {

/// Seconds before expiry at which a token is already treated as due for refresh.
pub const REFRESH_MARGIN_SECS: i64 = 5;

/// A bearer token handed out by the identity endpoint.
/// `expires_at` is an instant in whole seconds since the Unix epoch (UTC).
#[derive(Clone, Debug)]
pub struct AuthToken {
    pub client_id: String,
    pub access_token: String,
    pub expires_at: i64,
}

/// A token is usable only while the current instant lies strictly before its expiry.
pub open spec fn usable_at(t: AuthToken, now: int) -> bool {
    now < t.expires_at
}

/// The refresh policy: refresh once `now` has reached the expiry minus the margin.
pub open spec fn refresh_due(t: AuthToken, now: int) -> bool {
    now >= t.expires_at - REFRESH_MARGIN_SECS
}

impl AuthToken {
    /// Whether the token may still be presented at instant `now`.
    pub fn is_usable_at(&self, now: i64) -> (r: bool)
        ensures
            r == usable_at(*self, now as int),
    {
        now < self.expires_at
    }

    /// Whether the token must be replaced before it is used at instant `now`.
    pub fn needs_refresh(&self, now: i64) -> (r: bool)
        ensures
            r == refresh_due(*self, now as int),
    {
        (now as i128) >= (self.expires_at as i128) - (REFRESH_MARGIN_SECS as i128)
    }
}

/// Builds the token granted at instant `now` with a lifetime of `expires_in` seconds.
/// Returns `None` when the expiry instant does not fit in an `i64`.
pub fn token_from_grant(client_id: &str, access_token: String, expires_in: u32, now: i64) -> (r:
    Option<AuthToken>)
    ensures
        now + expires_in <= i64::MAX <==> r is Some,
        r matches Some(t) ==> t.client_id@ == client_id@ && t.access_token@ == access_token@
            && t.expires_at == now + expires_in,
{
    if now <= i64::MAX - (expires_in as i64) {
        Some(
            AuthToken {
                client_id: client_id.to_string(),
                access_token,
                expires_at: now + expires_in as i64,
            },
        )
    } else {
        None
    }
}

/// Holds the one current token together with the credentials that renew it.
pub struct AuthManager {
    pub client_id: String,
    pub client_secret: String,
    pub current: AuthToken,
}

/// What the caller of [`AuthManager::ensure_valid`] has to do before its next request.
#[derive(Clone, Copy, Debug, PartialEq, Eq)]
pub enum TokenAction {
    /// The current token may be used as it is.
    Keep,
    /// Exactly one fresh token has to be requested, stored and installed.
    Refresh,
}

impl AuthManager {
    /// Starts from a token that was read back from the cache, or asks for a fresh
    /// one (`None`) when there is none.
    pub fn from_cache(client_id: String, client_secret: String, cached: Option<AuthToken>) -> (r:
        Option<AuthManager>)
        ensures
            r is Some <==> cached is Some,
            r matches Some(m) ==> m.current == cached->0 && m.client_id == client_id
                && m.client_secret == client_secret,
    {
        match cached {
            Some(t) => Some(AuthManager { client_id, client_secret, current: t }),
            None => None,
        }
    }

    /// Starts from a token that was just fetched.
    pub fn with_token(client_id: String, client_secret: String, token: AuthToken) -> (r:
        AuthManager)
        ensures
            r.current == token,
            r.client_id == client_id,
            r.client_secret == client_secret,
    {
        AuthManager { client_id, client_secret, current: token }
    }

    /// Decides, before a request at instant `now`, whether a fresh token is needed.
    pub fn ensure_valid(&self, now: i64) -> (r: TokenAction)
        ensures
            r == TokenAction::Refresh <==> refresh_due(self.current, now as int),
            r == TokenAction::Keep <==> !refresh_due(self.current, now as int),
    {
        if self.current.needs_refresh(now) {
            TokenAction::Refresh
        } else {
            TokenAction::Keep
        }
    }

    /// Installs a freshly fetched token as the current one.
    pub fn replace_token(&mut self, token: AuthToken)
        ensures
            final(self).current == token,
            final(self).client_id == old(self).client_id,
            final(self).client_secret == old(self).client_secret,
    {
        self.current = token;
    }
}

} // verus!
