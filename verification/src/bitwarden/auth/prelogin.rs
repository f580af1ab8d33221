//! How an account derives its master key.

use vstd::prelude::*;

verus! {

/// A key derivation function that the vault knows.
#[derive(Debug, Clone, Copy, PartialEq, Eq, Structural)]
pub enum KdfType {
    Pbkdf2Sha256,
    Argon2id,
}

impl KdfType {
    /// The number that stands for the function in the vault's answers.
    pub open spec fn spec_code(self) -> u8 {
        match self {
            KdfType::Pbkdf2Sha256 => 0,
            KdfType::Argon2id => 1,
        }
    }

    /// The number that stands for the function in the vault's answers.
    pub fn code(&self) -> (code: u8)
        ensures
            code == self.spec_code(),
    {
        match self {
            KdfType::Pbkdf2Sha256 => 0,
            KdfType::Argon2id => 1,
        }
    }

    /// The function that a number stands for, if any.
    pub fn from_code(code: u8) -> (kdf: Option<KdfType>)
        ensures
            match kdf {
                Some(k) => k.spec_code() == code,
                None => forall|k: KdfType| k.spec_code() != code,
            },
    {
        match code {
            0 => Some(KdfType::Pbkdf2Sha256),
            1 => Some(KdfType::Argon2id),
            _ => None,
        }
    }

    /// Whether the agent can derive a master key with this function: it can
    /// with PBKDF2-SHA-256 and with no other.
    pub fn is_supported(&self) -> (supported: bool)
        ensures
            supported == (*self == KdfType::Pbkdf2Sha256),
    {
        match self {
            KdfType::Pbkdf2Sha256 => true,
            KdfType::Argon2id => false,
        }
    }
}

/// What `POST {identity}/accounts/prelogin` answers.
#[derive(Debug, Clone, Copy, PartialEq, Eq, Structural)]
pub struct PreloginResponseModel {
    pub kdf: KdfType,
    pub kdf_iterations: u32,
    pub kdf_memory: Option<u32>,
    pub kdf_parallelism: Option<u32>,
}

} // verus!
