//! SSH keys: what the agent has the key libraries do with a private key in
//! the OpenSSH format.
//!
//! A private key is carried as its text. Each function here reads the text
//! anew, so that nothing of a key outlives the call that used it.

use sha2::{Sha256, Sha512};
use rsa::signature::{SignatureEncoding, Signer};
use ssh_key::private::KeypairData;
use ssh_key::{PrivateKey, PublicKey};
use vstd::prelude::*;

verus! {

/// What the choice of a signature scheme depends on.
#[derive(Debug, Clone, Copy, PartialEq, Eq, Structural)]
pub enum KeyKind {
    /// An RSA key: the client's flags choose the hash.
    Rsa,
    /// Any other key: it signs with the one scheme that it has.
    Other,
}

/// The kind of the private key that a text holds; `None` where the text is
/// no private key in the OpenSSH format.
pub uninterp spec fn openssh_key_kind(key_text: Seq<u8>) -> Option<KeyKind>;

/// Calls `ssh_key::PrivateKey::from_openssh` and tells by `key_data` whether
/// the key is an RSA key.
#[verifier::external_body]
pub(crate) fn key_kind(key_text: &[u8]) -> (kind: Option<KeyKind>)
    ensures
        kind == openssh_key_kind(key_text@),
{
    match PrivateKey::from_openssh(key_text).ok()?.key_data() {
        KeypairData::Rsa(_) => Some(KeyKind::Rsa),
        _ => Some(KeyKind::Other),
    }
}

/// Why a private key gave no public key blob.
#[derive(Debug, Clone, Copy, PartialEq, Eq, Structural)]
pub enum PublicBlobError {
    /// The text is no private key in the OpenSSH format.
    Parse,
    /// The public key could not be encoded.
    Encode,
}

/// The blob of the public key that belongs to the private key of a text, as
/// RFC 4253 encodes public keys.
pub uninterp spec fn openssh_public_blob(key_text: Seq<u8>) -> Result<Seq<u8>, PublicBlobError>;

/// Calls `ssh_key::PrivateKey::from_openssh`, and `to_bytes` on the
/// `public_key` of what it read.
#[verifier::external_body]
pub(crate) fn public_blob(key_text: &[u8]) -> (blob: Result<Vec<u8>, PublicBlobError>)
    ensures
        match blob {
            Ok(bytes) => openssh_public_blob(key_text@) == Ok::<Seq<u8>, PublicBlobError>(
                bytes@,
            ),
            Err(e) => openssh_public_blob(key_text@) == Err::<Seq<u8>, PublicBlobError>(e),
        },
{
    let key = match PrivateKey::from_openssh(key_text) {
        Ok(key) => key,
        Err(_) => return Err(PublicBlobError::Parse),
    };
    match key.public_key().to_bytes() {
        Ok(bytes) => Ok(bytes),
        Err(_) => Err(PublicBlobError::Encode),
    }
}

/// The RSASSA-PKCS1-v1_5 signature with SHA-256 that the RSA private key of
/// a text gives over a message; `None` where the text holds no RSA key that
/// can sign.
pub uninterp spec fn rsa_pkcs1v15_sha256(key_text: Seq<u8>, message: Seq<u8>) -> Option<Seq<u8>>;

/// Calls `ssh_key::PrivateKey::from_openssh`, makes an
/// `rsa::pkcs1v15::SigningKey<Sha256>` from the RSA keypair that it read,
/// and calls `try_sign` on it.
#[verifier::external_body]
pub(crate) fn rsa_sign_sha256(key_text: &[u8], message: &[u8]) -> (signature: Option<Vec<u8>>)
    ensures
        match signature {
            Some(bytes) => rsa_pkcs1v15_sha256(key_text@, message@) == Some(bytes@),
            None => rsa_pkcs1v15_sha256(key_text@, message@) is None,
        },
{
    let key = PrivateKey::from_openssh(key_text).ok()?;
    let pair = match key.key_data() {
        KeypairData::Rsa(pair) => pair,
        _ => return None,
    };
    let signer = rsa::pkcs1v15::SigningKey::<Sha256>::try_from(pair).ok()?;
    signer.try_sign(message).ok().map(|signature| signature.to_vec())
}

/// The RSASSA-PKCS1-v1_5 signature with SHA-512 that the RSA private key of
/// a text gives over a message; `None` where the text holds no RSA key that
/// can sign.
pub uninterp spec fn rsa_pkcs1v15_sha512(key_text: Seq<u8>, message: Seq<u8>) -> Option<Seq<u8>>;

/// Calls `ssh_key::PrivateKey::from_openssh`, makes an
/// `rsa::pkcs1v15::SigningKey<Sha512>` from the RSA keypair that it read,
/// and calls `try_sign` on it.
#[verifier::external_body]
pub(crate) fn rsa_sign_sha512(key_text: &[u8], message: &[u8]) -> (signature: Option<Vec<u8>>)
    ensures
        match signature {
            Some(bytes) => rsa_pkcs1v15_sha512(key_text@, message@) == Some(bytes@),
            None => rsa_pkcs1v15_sha512(key_text@, message@) is None,
        },
{
    let key = PrivateKey::from_openssh(key_text).ok()?;
    let pair = match key.key_data() {
        KeypairData::Rsa(pair) => pair,
        _ => return None,
    };
    let signer = rsa::pkcs1v15::SigningKey::<Sha512>::try_from(pair).ok()?;
    signer.try_sign(message).ok().map(|signature| signature.to_vec())
}

/// The signature that the private key of a text gives over a message with
/// the scheme of its own kind: the name of the scheme, and the signature in
/// the encoding that the key library gives it. `None` where the text holds
/// no key that can sign.
pub uninterp spec fn native_signature(key_text: Seq<u8>, message: Seq<u8>) -> Option<
    (Seq<char>, Seq<u8>),
>;

/// Calls `ssh_key::PrivateKey::from_openssh` and `try_sign` on what it
/// read, and returns the name of the `algorithm` of the signature with the
/// bytes to which the signature converts.
#[verifier::external_body]
pub(crate) fn sign_natively(key_text: &[u8], message: &[u8]) -> (signed: Option<(String, Vec<u8>)>)
    ensures
        match signed {
            Some((name, bytes)) => native_signature(key_text@, message@) == Some(
                (name@, bytes@),
            ),
            None => native_signature(key_text@, message@) is None,
        },
{
    let key = PrivateKey::from_openssh(key_text).ok()?;
    let signature: ssh_key::Signature = key.try_sign(message).ok()?;
    let name = signature.algorithm().to_string();
    Vec::<u8>::try_from(signature).ok().map(|bytes| (name, bytes))
}


/// The line that stands for a public key in OpenSSH's files: the name of
/// its algorithm, then its blob in base64. `None` where the blob is no
/// public key.
pub uninterp spec fn openssh_public_text(blob: Seq<u8>) -> Option<Seq<char>>;

/// Calls `ssh_key::PublicKey::from_bytes`, and `to_openssh` on what it
/// read.
#[verifier::external_body]
pub(crate) fn public_key_text(blob: &[u8]) -> (text: Option<String>)
    ensures
        match text {
            Some(line) => openssh_public_text(blob@) == Some(line@),
            None => openssh_public_text(blob@) is None,
        },
{
    PublicKey::from_bytes(blob).ok()?.to_openssh().ok()
}

} // verus!
