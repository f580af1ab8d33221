//! The cryptographic primitives that the vault's formats are built from.
//!
//! None of them is proved here. Each is a call into the crate that
//! implements it, and each result has a name by which the contracts of this
//! library speak of it.

use aes::cipher::{block_padding::Pkcs7, BlockDecryptMut, KeyIvInit};
use base64::{engine::general_purpose::URL_SAFE_NO_PAD, prelude::BASE64_STANDARD, Engine};
use hkdf::Hkdf;
use pbkdf2::hmac::{Hmac, Mac};
use sha2::Sha256;
use vstd::prelude::*;

verus! {

/// Bytes of the output of SHA-256, and of each half of an expanded key.
pub const HASH_LEN: usize = 32;

/// Bytes of a block of AES, and of the IV of its CBC mode.
pub const BLOCK_LEN: usize = 16;

/// The longest output that HKDF-SHA-256 expands to: 255 blocks of 32 bytes.
pub const HKDF_MAX_OUTPUT: usize = 8160;

/// The key that PBKDF2 with HMAC-SHA-256 derives: `len` bytes from a
/// password, a salt and a number of rounds.
pub uninterp spec fn pbkdf2_hmac_sha256(
    password: Seq<u8>,
    salt: Seq<u8>,
    rounds: u32,
    len: nat,
) -> Seq<u8>;

/// Calls `pbkdf2::pbkdf2_hmac` with SHA-256 on a buffer of `len` bytes,
/// which it fills with the derived key. It takes a password and a salt of
/// any length.
#[verifier::external_body]
pub(crate) fn pbkdf2_sha256(password: &[u8], salt: &[u8], rounds: u32, len: usize) -> (key: Vec<
    u8,
>)
    ensures
        key@ == pbkdf2_hmac_sha256(password@, salt@, rounds, len as nat),
        key@.len() == len,
{
    let mut key = vec![0u8; len];
    pbkdf2::pbkdf2_hmac::<Sha256>(password, salt, rounds, &mut key);
    key
}

/// The output of the expand step of HKDF with SHA-256: `len` bytes from a
/// pseudorandom key and an info string.
pub uninterp spec fn hkdf_sha256_expand(prk: Seq<u8>, info: Seq<u8>, len: nat) -> Seq<u8>;

/// Calls `hkdf::Hkdf::<Sha256>::from_prk` and then `expand` on a buffer of
/// `len` bytes. The first refuses a key shorter than the hash, the second an
/// output longer than 255 blocks; nothing else fails.
#[verifier::external_body]
pub(crate) fn hkdf_expand(prk: &[u8], info: &[u8], len: usize) -> (okm: Option<Vec<u8>>)
    ensures
        match okm {
            Some(bytes) => {
                &&& prk@.len() >= HASH_LEN
                &&& len <= HKDF_MAX_OUTPUT
                &&& bytes@ == hkdf_sha256_expand(prk@, info@, len as nat)
                &&& bytes@.len() == len
            },
            None => prk@.len() < HASH_LEN || len > HKDF_MAX_OUTPUT,
        },
{
    let hk = Hkdf::<Sha256>::from_prk(prk).ok()?;
    let mut okm = vec![0u8; len];
    hk.expand(info, &mut okm).ok()?;
    Some(okm)
}

/// The authentication tag of HMAC with SHA-256 over a message.
pub uninterp spec fn hmac_sha256(key: Seq<u8>, message: Seq<u8>) -> Seq<u8>;

/// Feeds `iv` and then `ciphertext` to an `Hmac<Sha256>` of the `hmac` crate keyed with
/// `key`, and calls `verify_slice` on it, which accepts `tag` where it
/// equals the computed tag in length and content, compared in constant
/// time.
#[verifier::external_body]
pub(crate) fn hmac_sha256_verify(key: &[u8], iv: &[u8], ciphertext: &[u8], tag: &[u8]) -> (ok:
    bool)
    ensures
        ok == (tag@ == hmac_sha256(key@, iv@ + ciphertext@)),
{
    let mut mac = match <Hmac<Sha256> as Mac>::new_from_slice(key) {
        Ok(mac) => mac,
        Err(_) => return false,
    };
    mac.update(iv);
    mac.update(ciphertext);
    mac.verify_slice(tag).is_ok()
}

/// The plaintext that AES-256 in CBC mode gives for a ciphertext, with its
/// PKCS#7 padding taken off; `None` where the length of the ciphertext is
/// no multiple of the block or the padding is malformed.
pub uninterp spec fn aes256_cbc_pkcs7_decrypt(key: Seq<u8>, iv: Seq<u8>, ciphertext: Seq<u8>) -> Option<
    Seq<u8>,
>;

/// Calls `decrypt_padded_mut` with `Pkcs7` on a `cbc::Decryptor<aes::Aes256>`
/// made from `key` and `iv`, over a copy of the ciphertext.
#[verifier::external_body]
pub(crate) fn aes256_cbc_decrypt(key: &[u8], iv: &[u8], ciphertext: &[u8]) -> (plain: Option<
    Vec<u8>,
>)
    requires
        key@.len() == HASH_LEN,
        iv@.len() == BLOCK_LEN,
    ensures
        match plain {
            Some(bytes) => aes256_cbc_pkcs7_decrypt(key@, iv@, ciphertext@) == Some(bytes@),
            None => aes256_cbc_pkcs7_decrypt(key@, iv@, ciphertext@) is None,
        },
{
    let cipher = cbc::Decryptor::<aes::Aes256>::new_from_slices(key, iv).ok()?;
    let mut buf = ciphertext.to_vec();
    cipher.decrypt_padded_mut::<Pkcs7>(&mut buf).ok().map(|plain| plain.to_vec())
}

/// The bytes that a text decodes to in base64 with the standard alphabet
/// and padding; `None` where the text is not such base64.
pub uninterp spec fn base64_standard_decode(text: Seq<u8>) -> Option<Seq<u8>>;

/// Calls `decode` of `base64::prelude::BASE64_STANDARD`.
#[verifier::external_body]
pub(crate) fn base64_decode(text: &[u8]) -> (bytes: Option<Vec<u8>>)
    ensures
        match bytes {
            Some(decoded) => base64_standard_decode(text@) == Some(decoded@),
            None => base64_standard_decode(text@) is None,
        },
{
    BASE64_STANDARD.decode(text).ok()
}

/// The text of bytes in base64 with the standard alphabet and padding.
pub uninterp spec fn base64_standard_encode(bytes: Seq<u8>) -> Seq<char>;

/// Calls `encode` of `base64::prelude::BASE64_STANDARD`, which panics only
/// where the length of the text would not fit a `usize`.
#[verifier::external_body]
pub(crate) fn base64_encode(bytes: &[u8]) -> (text: String)
    requires
        bytes@.len() / 3 * 4 + 4 <= usize::MAX,
    ensures
        text@ == base64_standard_encode(bytes@),
{
    BASE64_STANDARD.encode(bytes)
}

/// The text of bytes in base64 with the URL-safe alphabet and no padding.
pub uninterp spec fn base64_url_encode(bytes: Seq<u8>) -> Seq<char>;

/// Calls `encode` of `base64::engine::general_purpose::URL_SAFE_NO_PAD`,
/// which panics only where the length of the text would not fit a `usize`.
#[verifier::external_body]
pub(crate) fn base64_url_nopad_encode(bytes: &[u8]) -> (text: String)
    requires
        bytes@.len() / 3 * 4 + 4 <= usize::MAX,
    ensures
        text@ == base64_url_encode(bytes@),
{
    URL_SAFE_NO_PAD.encode(bytes)
}

/// Calls `zeroize::Zeroize::zeroize` on a vector, which overwrites its
/// elements and its spare capacity with zeros and then clears it.
#[verifier::external_body]
pub(crate) fn wipe(secret: &mut Vec<u8>)
    ensures
        final(secret)@.len() == 0,
{
    zeroize::Zeroize::zeroize(secret);
}

/// Calls `zeroize::Zeroize::zeroize` on a string, which overwrites its
/// bytes and its spare capacity with zeros and then clears it.
#[verifier::external_body]
pub(crate) fn wipe_text(secret: &mut String)
    ensures
        final(secret)@.len() == 0,
{
    zeroize::Zeroize::zeroize(secret);
}

} // verus!
