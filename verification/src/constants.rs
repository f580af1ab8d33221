//! The names of the files that the agent keeps in the configuration
//! directory of the user.

use vstd::prelude::*;

verus! {

/// The directory of the agent inside the configuration directory.
pub const DATA_DIR_NAME: &'static str = "bw-ssh-agent";

/// The socket on which the agent listens.
pub const SOCKET_FILE_NAME: &'static str = "agent.sock";

/// The file that holds the process id of the daemon.
pub const PID_FILE_NAME: &'static str = "agent.pid";

/// The store of identities and of the session.
pub const DATABASE_FILE_NAME: &'static str = "data.sqlite";

} // verus!
