//! The list of the stored identities, as it is shown to the user.

use crate::database::{IdentityDto, IdentityDtoView};
use crate::keys::{openssh_public_text, public_key_text};
use vstd::prelude::*;
use vstd::string::StringExecFns;

verus! {

/// The line that shows an identity: its name, and its public key as
/// OpenSSH writes public keys. `None` where the stored blob is no public
/// key.
pub open spec fn listing_line(identity: IdentityDtoView) -> Option<Seq<char>> {
    match openssh_public_text(identity.public_key) {
        Some(key) => Some(identity.name + ": "@ + key),
        None => None,
    }
}

/// Writes the line that shows an identity.
pub fn cmd_list(identity: &IdentityDto) -> (line: Option<String>)
    ensures
        match line {
            Some(text) => listing_line(identity@) == Some(text@),
            None => listing_line(identity@) is None,
        },
{
    match public_key_text(identity.public_key.as_slice()) {
        Some(key) => Some(identity.name.clone().concat(": ").concat(key.as_str())),
        None => None,
    }
}

} // verus!
