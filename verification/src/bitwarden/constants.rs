//! Names by which the agent presents itself to the vault.

use vstd::prelude::*;

verus! {

/// The vault that is used where the user names none.
pub const BW_DEFAULT_VAULT_URL: &'static str = "https://vault.bitwarden.com";

/// The `User-Agent` of every call.
pub const USER_AGENT: &'static str = "bw-ssh-agent";

/// The header that carries the client's name.
pub const CLIENT_NAME_HEADER: &'static str = "bitwarden-client-name";

/// The header that carries the client's version.
pub const CLIENT_VERSION_HEADER: &'static str = "bitwarden-client-version";

} // verus!
