//! Google OAuth2 credentials with a cached access token. The token is refreshed
//! lazily: only once the clock has reached its expiry.

use vstd::prelude::*;

verus! {

/// Where tokens are exchanged.
pub const GOOGLE_AUTH_URL: &'static str = "https://accounts.google.com/o/oauth2/token";

/// Google OAuth2 credentials and the access token last obtained with them.
#[derive(Debug)]
pub struct GoogleAuth {
    pub client_id: String,
    pub client_secret: String,
    pub refresh_token: String,
    pub access_token: String,
    /// When the access token expires, in seconds on a monotonic clock.
    pub expires_in: u64,
}

impl GoogleAuth {
    pub open spec fn spec_access_token(&self) -> Seq<char> {
        self.access_token@
    }

    pub open spec fn spec_expiry(&self) -> u64 {
        self.expires_in
    }

    /// Credentials with the access token just obtained at `now`, valid for `valid_for`
    /// seconds.
    pub fn new(client_id: String, client_secret: String, refresh_token: String, access_token: String, valid_for: u64, now: u64) -> (r: GoogleAuth)
        ensures
            r.client_id == client_id,
            r.client_secret == client_secret,
            r.refresh_token == refresh_token,
            r.spec_access_token() == access_token@,
            r.spec_expiry() == (if now + valid_for > u64::MAX { u64::MAX as int } else { now + valid_for }),
    {
        let expires_in = now.saturating_add(valid_for);
        GoogleAuth { client_id, client_secret, refresh_token, access_token, expires_in }
    }

    /// Whether the access token has expired at `now` and must be refreshed first.
    pub fn needs_refresh(&self, now: u64) -> (r: bool)
        ensures
            r == (now >= self.spec_expiry()),
    {
        now >= self.expires_in
    }

    /// The access token, if it is still valid at `now`.
    pub fn access_token(&self, now: u64) -> (r: Option<&str>)
        ensures
            match r {
                Some(t) => now < self.spec_expiry() && t@ == self.spec_access_token(),
                None => now >= self.spec_expiry(),
            },
    {
        if self.needs_refresh(now) {
            None
        } else {
            Some(self.access_token.as_str())
        }
    }

    /// Stores the access token obtained at `now`, valid for `valid_for` seconds.
    pub fn update_access_token(&mut self, access_token: String, valid_for: u64, now: u64)
        ensures
            final(self).spec_access_token() == access_token@,
            final(self).spec_expiry() == (if now + valid_for > u64::MAX { u64::MAX as int } else { now + valid_for }),
            final(self).client_id == old(self).client_id,
            final(self).client_secret == old(self).client_secret,
            final(self).refresh_token == old(self).refresh_token,
    {
        self.access_token = access_token;
        self.expires_in = now.saturating_add(valid_for);
    }

    /// The form fields of the request that exchanges the refresh token for an access
    /// token.
    pub fn refresh_form(&self) -> (r: Vec<(String, String)>)
        ensures
            r@.len() == 5,
            r@[0].0@ == "client_id"@ && r@[0].1@ == self.client_id@,
            r@[1].0@ == "client_secret"@ && r@[1].1@ == self.client_secret@,
            r@[2].0@ == "refresh_token"@ && r@[2].1@ == self.refresh_token@,
            r@[3].0@ == "redirect_uri"@ && r@[3].1@ == "urn:ietf:wg:oauth:2.0:oob"@,
            r@[4].0@ == "grant_type"@ && r@[4].1@ == "refresh_token"@,
    {
        let mut r: Vec<(String, String)> = Vec::new();
        r.push((String::from_str("client_id"), self.client_id.clone()));
        r.push((String::from_str("client_secret"), self.client_secret.clone()));
        r.push((String::from_str("refresh_token"), self.refresh_token.clone()));
        r.push((String::from_str("redirect_uri"), String::from_str("urn:ietf:wg:oauth:2.0:oob")));
        r.push((String::from_str("grant_type"), String::from_str("refresh_token")));
        r
    }
}

/// Google OAuth2 credentials as configured.
#[derive(Debug)]
pub struct GoogleAuthCfg {
    pub client_id: String,
    pub client_secret: String,
    pub refresh_token: String,
}

/// Twitter API credentials as configured.
#[derive(Debug)]
pub struct TwitterCfg {
    pub key: String,
    pub secret: String,
}

/// Telegram bot credentials as configured.
#[derive(Debug)]
pub struct TelegramCfg {
    pub bot_api_key: String,
}

impl GoogleAuthCfg {
    /// The credentials, with the access token obtained for them at `now`.
    pub fn into_google_auth(self, access_token: String, valid_for: u64, now: u64) -> (r: GoogleAuth)
        ensures
            r.client_id == self.client_id,
            r.client_secret == self.client_secret,
            r.refresh_token == self.refresh_token,
            r.spec_access_token() == access_token@,
            r.spec_expiry() == (if now + valid_for > u64::MAX { u64::MAX as int } else { now + valid_for }),
    {
        GoogleAuth::new(self.client_id, self.client_secret, self.refresh_token, access_token, valid_for, now)
    }
}

} // verus!
