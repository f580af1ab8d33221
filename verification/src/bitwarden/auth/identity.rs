//! What surrounds a call of the token endpoint: the header that names the
//! account, and the reading of the status that comes back.

use crate::bitwarden::primitives::{base64_url_encode, base64_url_nopad_encode};
use vstd::prelude::*;
use vstd::string::StringSliceAdditionalSpecFns;

verus! {

/// The header that names the account of a call.
pub const AUTH_EMAIL_HEADER: &'static str = "Auth-Email";

/// Why a call of the vault failed.
#[derive(Debug, Clone, Copy, PartialEq, Eq, Structural)]
pub enum RemoteAuthError {
    /// The vault answered with a status outside 200 to 299.
    Status(u16),
}

/// Whether a status says that the call succeeded.
pub open spec fn is_success(status: u16) -> bool {
    200 <= status <= 299
}

/// Reads the status of an answer of the vault: any status outside 200 to
/// 299 is an error.
pub fn check_status(status: u16) -> (res: Result<(), RemoteAuthError>)
    ensures
        match res {
            Ok(()) => is_success(status),
            Err(e) => !is_success(status) && e == RemoteAuthError::Status(status),
        },
{
    if 200 <= status && status <= 299 {
        Ok(())
    } else {
        Err(RemoteAuthError::Status(status))
    }
}

/// The value of the header that names the account: the email in base64
/// with the URL-safe alphabet and no padding. `None` for an email so long
/// that the length of its encoding does not fit a `usize`.
pub fn auth_email(email: &str) -> (value: Option<String>)
    ensures
        match value {
            Some(text) => text@ == base64_url_encode(email.spec_bytes()),
            None => email.spec_bytes().len() / 3 * 4 + 4 > usize::MAX,
        },
{
    let bytes = email.as_bytes();
    if bytes.len() / 3 > (usize::MAX - 4) / 4 {
        return None;
    }
    Some(base64_url_nopad_encode(bytes))
}

} // verus!
