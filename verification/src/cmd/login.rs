//! The login: what is derived from the password, and what is kept of the
//! session.
//!
//! The vault is asked how the account derives its key. Only
//! PBKDF2-SHA-256 is accepted; with any other answer the login ends before
//! anything is derived or sent. The master key and its hash are derived,
//! and the hash is sent in place of the password. What comes back holds
//! the account key, encrypted under the stretched master key. Both keys
//! are sealed by the keystore before they are stored.

use crate::bitwarden::auth::identity_dto::{
    is_uuid_v4_text, password_token_request, PasswordTokenRequest,
};
use crate::bitwarden::auth::prelogin::{KdfType, PreloginResponseModel};
use crate::bitwarden::auth::BwAuthResponse;
use crate::bitwarden::crypto::{
    bw_decrypt_encstr, decrypt_encstr, expanded_key, hkdf_expand_key, login_password,
    make_master_key, make_master_key_hash, master_key, CryptoError, EXPANDED_KEY_LEN,
};
use crate::bitwarden::primitives::{wipe, wipe_text, HASH_LEN};
use crate::database::AuthDto;
use crate::text::{ascii_lower, to_ascii_lowercase, trim, trimmed};
use vstd::prelude::*;
use vstd::slice::slice_to_vec;
use vstd::utf8::encode_utf8;

verus! {

/// Why a login ended.
#[derive(Debug, Clone, Copy, PartialEq, Eq, Structural)]
pub enum LoginError {
    /// The account derives its key with a function that is not supported.
    UnsupportedKdf(KdfType),
    /// The master key is neither a secret to stretch nor a stretched key.
    InvalidMasterKeyLength,
    /// A key could not be derived or decrypted.
    Crypto(CryptoError),
    /// The moment at which the token expires does not fit the store.
    ExpiryOverflow,
}

impl LoginError {
    /// What the error says.
    pub open spec fn text(self) -> Seq<char> {
        match self {
            LoginError::UnsupportedKdf(_) => "KDF method is not supported"@,
            LoginError::InvalidMasterKeyLength => "Invalid master key length"@,
            LoginError::Crypto(e) => e.text(),
            LoginError::ExpiryOverflow => "Invalid token lifetime"@,
        }
    }

    /// A sentence for the user.
    pub fn message(&self) -> (text: &'static str)
        ensures
            text@ == self.text(),
    {
        match self {
            LoginError::UnsupportedKdf(_) => "KDF method is not supported",
            LoginError::InvalidMasterKeyLength => "Invalid master key length",
            LoginError::Crypto(e) => e.message(),
            LoginError::ExpiryOverflow => "Invalid token lifetime",
        }
    }
}

/// The email of an account as it salts the master key: without the
/// whitespace around it, in lower case.
pub open spec fn normalized_email(input: Seq<char>) -> Seq<char> {
    trimmed(input).map_values(|c: char| ascii_lower(c))
}

/// Brings the email that the user typed into the form in which it salts
/// the master key.
pub fn normalize_email(input: &str) -> (email: String)
    ensures
        email@ == normalized_email(input@),
{
    to_ascii_lowercase(trim(input))
}

/// What a login sends to the token endpoint, and the master key that it
/// keeps for what comes back.
#[derive(Debug, Clone, PartialEq, Eq)]
pub struct LoginAttempt {
    /// The master key, 32 bytes.
    pub master_key: Vec<u8>,
    /// What is sent in place of the password.
    pub master_key_hash: String,
}

/// Decides, from what the vault says of the account's key derivation,
/// whether the login goes on, and derives the master key and its hash if
/// it does. With any function but PBKDF2-SHA-256 the login ends here:
/// nothing is derived, and nothing can be sent to the token endpoint.
pub fn begin_login(prelogin: &PreloginResponseModel, password: &str, email: &str) -> (res: Result<
    LoginAttempt,
    LoginError,
>)
    ensures
        match res {
            Ok(attempt) => {
                &&& prelogin.kdf == KdfType::Pbkdf2Sha256
                &&& attempt.master_key@ == master_key(password@, email@, prelogin.kdf_iterations)
                &&& attempt.master_key@.len() == HASH_LEN
                &&& attempt.master_key_hash@ == login_password(
                    password@,
                    email@,
                    prelogin.kdf_iterations,
                )
            },
            Err(e) => prelogin.kdf != KdfType::Pbkdf2Sha256 && e == LoginError::UnsupportedKdf(
                prelogin.kdf,
            ),
        },
{
    if !prelogin.kdf.is_supported() {
        return Err(LoginError::UnsupportedKdf(prelogin.kdf));
    }
    let master_key = match make_master_key(password, email, prelogin.kdf_iterations) {
        Ok(key) => key,
        Err(e) => {
            return Err(LoginError::Crypto(e));
        },
    };
    let master_key_hash = match make_master_key_hash(master_key.as_slice(), password) {
        Ok(hash) => hash,
        Err(e) => {
            return Err(LoginError::Crypto(e));
        },
    };
    Ok(LoginAttempt { master_key, master_key_hash })
}

impl LoginAttempt {
    /// Wipes the master key and its hash.
    pub fn forget(&mut self)
        ensures
            final(self).master_key@.len() == 0,
            final(self).master_key_hash@.len() == 0,
    {
        wipe(&mut self.master_key);
        wipe_text(&mut self.master_key_hash);
    }

    /// The request that logs `email` in with the hash of the master key.
    pub fn token_request(&self, email: &str) -> (request: PasswordTokenRequest)
        ensures
            request@ == password_token_request(
                email@,
                self.master_key_hash@,
                request@.device_identifier,
            ),
            is_uuid_v4_text(request@.device_identifier),
    {
        PasswordTokenRequest::new(email, self.master_key_hash.as_str())
    }
}

/// The key under which the vault encrypts the account key: the master key
/// stretched to 64 bytes where it has 32, and as it is where it has 64
/// already.
pub open spec fn stretched_key(master_key: Seq<u8>) -> Result<Seq<u8>, LoginError> {
    if master_key.len() == HASH_LEN {
        Ok(expanded_key(master_key))
    } else if master_key.len() == EXPANDED_KEY_LEN {
        Ok(master_key)
    } else {
        Err(LoginError::InvalidMasterKeyLength)
    }
}

/// A stretched key as a mathematical value.
pub open spec fn stretched_view(res: Result<Vec<u8>, LoginError>) -> Result<Seq<u8>, LoginError> {
    match res {
        Ok(key) => Ok(key@),
        Err(e) => Err(e),
    }
}

/// Stretches a master key to the 64 bytes of an expanded key.
pub fn stretch_master_key(master_key: &[u8]) -> (res: Result<Vec<u8>, LoginError>)
    ensures
        stretched_view(res) == stretched_key(master_key@),
        res matches Ok(key) ==> key@.len() == EXPANDED_KEY_LEN,
{
    if master_key.len() == HASH_LEN {
        match hkdf_expand_key(master_key) {
            Ok(key) => Ok(slice_to_vec(key.as_slice())),
            Err(e) => Err(LoginError::Crypto(e)),
        }
    } else if master_key.len() == EXPANDED_KEY_LEN {
        Ok(slice_to_vec(master_key))
    } else {
        Err(LoginError::InvalidMasterKeyLength)
    }
}

/// The keys of a session, open. Both are sealed before they are stored.
#[derive(Debug, Clone, PartialEq, Eq)]
pub struct SessionKeys {
    /// The stretched master key, 64 bytes.
    pub master_key: Vec<u8>,
    /// The account key, under which the items of the vault are encrypted.
    pub symmetric_key: Vec<u8>,
}

impl SessionKeys {
    /// Wipes both keys.
    pub fn forget(&mut self)
        ensures
            final(self).master_key@.len() == 0,
            final(self).symmetric_key@.len() == 0,
    {
        wipe(&mut self.master_key);
        wipe(&mut self.symmetric_key);
    }
}

/// The keys of a session as mathematical values: the stretched master key
/// and the account key.
pub open spec fn session_keys(master_key: Seq<u8>, sealed_account_key: Seq<char>) -> Result<
    (Seq<u8>, Seq<u8>),
    LoginError,
> {
    match stretched_key(master_key) {
        Err(e) => Err(e),
        Ok(stretched) => match decrypt_encstr(stretched, encode_utf8(sealed_account_key)) {
            Err(e) => Err(LoginError::Crypto(e)),
            Ok(account_key) => Ok((stretched, account_key)),
        },
    }
}

/// The keys of a session as mathematical values.
pub open spec fn session_view(res: Result<SessionKeys, LoginError>) -> Result<
    (Seq<u8>, Seq<u8>),
    LoginError,
> {
    match res {
        Ok(keys) => Ok((keys.master_key@, keys.symmetric_key@)),
        Err(e) => Err(e),
    }
}

/// Opens the account key that the token endpoint handed out, with the
/// master key of the login. The master key is wiped.
pub fn unlock_session(master_key: &mut Vec<u8>, login_result: &BwAuthResponse) -> (res: Result<
    SessionKeys,
    LoginError,
>)
    ensures
        session_view(res) == session_keys(old(master_key)@, login_result.key@),
        final(master_key)@.len() == 0,
{
    let stretched = stretch_master_key(master_key.as_slice());
    wipe(master_key);
    let mut stretched = match stretched {
        Ok(key) => key,
        Err(e) => {
            return Err(e);
        },
    };
    match bw_decrypt_encstr(stretched.as_slice(), login_result.key.as_str()) {
        Ok(symmetric_key) => Ok(SessionKeys { master_key: stretched, symmetric_key }),
        Err(e) => {
            wipe(&mut stretched);
            Err(LoginError::Crypto(e))
        },
    }
}

/// The session as it is stored after a login at `now`: the tokens that the
/// vault handed out, the moment at which the access token expires, and the
/// two keys as the keystore sealed them.
pub fn make_auth(
    vault_url: &str,
    login_result: &BwAuthResponse,
    now: i64,
    sealed_master_key: Vec<u8>,
    sealed_symmetric_key: Vec<u8>,
) -> (res: Result<AuthDto, LoginError>)
    ensures
        match res {
            Ok(auth) => {
                &&& i64::MIN <= now + login_result.expires_in <= i64::MAX
                &&& auth.vault_url@ == vault_url@
                &&& auth.access_token@ == login_result.access_token@
                &&& auth.refresh_token@ == login_result.refresh_token@
                &&& auth.expires_at == now + login_result.expires_in
                &&& auth.master_key == sealed_master_key
                &&& auth.symmetric_key == sealed_symmetric_key
            },
            Err(e) => e == LoginError::ExpiryOverflow && !(i64::MIN <= now
                + login_result.expires_in <= i64::MAX),
        },
{
    let expires_at: i64 = match now.checked_add(login_result.expires_in) {
        Some(at) => at,
        None => {
            return Err(LoginError::ExpiryOverflow);
        },
    };
    Ok(
        AuthDto {
            vault_url: vault_url.to_owned(),
            access_token: login_result.access_token.clone(),
            refresh_token: login_result.refresh_token.clone(),
            expires_at,
            master_key: sealed_master_key,
            symmetric_key: sealed_symmetric_key,
        },
    )
}

} // verus!
