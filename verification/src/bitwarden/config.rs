//! The vault's description of itself.

use vstd::prelude::*;
use vstd::string::StringExecFns;

verus! {

/// What `GET {server}/api/config` answers.
#[derive(Debug, Clone, PartialEq)]
pub struct ConfigResponseModel {
    pub environment: EnvironmentConfigResponseModel,
    pub server: Option<ServerConfigResponseModel>,
    pub version: Option<String>,
}

/// The addresses of the vault's services.
#[derive(Debug, Clone, PartialEq)]
pub struct EnvironmentConfigResponseModel {
    pub api: String,
    pub identity: String,
    pub notifications: String,
    pub sso: String,
    pub vault: String,
}

/// The name of a vault that is not the vendor's own.
#[derive(Debug, Clone, PartialEq)]
pub struct ServerConfigResponseModel {
    pub name: String,
    pub url: String,
}

/// `base` followed by `path`.
pub fn join_url(base: &str, path: &str) -> (url: String)
    ensures
        url@ == base@ + path@,
{
    String::from_str(base).concat(path)
}

/// The address of the vault's description of itself.
pub fn config_url(server_url: &str) -> (url: String)
    ensures
        url@ == server_url@ + "/api/config"@,
{
    join_url(server_url, "/api/config")
}

impl ConfigResponseModel {
    /// The address that tells how an account derives its key.
    pub fn prelogin_url(&self) -> (url: String)
        ensures
            url@ == self.environment.identity@ + "/accounts/prelogin"@,
    {
        join_url(self.environment.identity.as_str(), "/accounts/prelogin")
    }

    /// The address that hands out tokens.
    pub fn token_url(&self) -> (url: String)
        ensures
            url@ == self.environment.identity@ + "/connect/token"@,
    {
        join_url(self.environment.identity.as_str(), "/connect/token")
    }

    /// The address that hands out the vault's content.
    pub fn sync_url(&self) -> (url: String)
        ensures
            url@ == self.environment.api@ + "/sync?excludeDomains=true"@,
    {
        join_url(self.environment.api.as_str(), "/sync?excludeDomains=true")
    }
}

/// The value of the `Authorization` header that carries an access token.
pub fn bearer(token: &str) -> (value: String)
    ensures
        value@ == "Bearer "@ + token@,
{
    join_url("Bearer ", token)
}

} // verus!
