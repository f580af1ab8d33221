//! Signing in to the vault: what it asks and answers, and how long a token
//! is good for.

pub mod identity;
pub mod identity_dto;
pub mod prelogin;
pub mod token;

pub use self::prelogin::{KdfType, PreloginResponseModel};

use vstd::prelude::*;

verus! {

/// What the token endpoint answers to a password login. `key` is the
/// account's symmetric key, as a vault ciphertext under the stretched master
/// key.
#[derive(Default, Debug, Clone, PartialEq)]
pub struct BwAuthResponse {
    pub kdf: u32,
    pub kdf_iterations: u32,
    pub kdf_memory: Option<i64>,
    pub kdf_parallelism: Option<i64>,
    pub key: String,
    pub private_key: String,
    pub reset_master_password: bool,
    pub access_token: String,
    pub refresh_token: String,
    pub expires_in: i64,
    pub scope: String,
    pub token_type: String,
}

} // verus!
