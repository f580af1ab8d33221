//! What the commands of the agent decide: the login, the sync.

pub mod list;
pub mod login;
pub mod reconcile;
pub mod sync;
pub mod utils;

use vstd::prelude::*;

verus! {

/// What can be asked of the daemon.
#[derive(Debug, Clone, Copy, PartialEq, Eq, Structural)]
pub enum DaemonCommands {
    /// Runs the daemon in this session.
    Run,
    /// Registers the daemon as a service of the user.
    Register,
}

/// What can be asked of the agent.
#[derive(Debug, Clone, PartialEq, Eq)]
pub enum Commands {
    /// Daemon controls.
    Daemon { subcommand: DaemonCommands },
    /// Logs into the account.
    Login { email: Option<String>, password: Option<String>, vault_url: Option<String> },
    /// Syncs the private keys from the vault into the agent.
    Sync,
    /// Lists the stored identities.
    List,
}

} // verus!
