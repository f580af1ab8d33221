//! What the agent answers: the list of the identities, and a signature.
//!
//! A signature is made in steps. The sealed account key is opened by the
//! sealing worker. Where the identity has a key of its own, that key is
//! decrypted under the account key. The private key is decrypted under the
//! key that results, read, and used once. Every key that was opened on the
//! way is wiped before the answer leaves.

use crate::agent::protocol::{Identity, IdentityView, Response, ResponseView, SignatureFlags};
use crate::bitwarden::crypto::{
    bw_decrypt_encstr, decrypt_encstr, effective_key, item_key, CryptoError,
};
use crate::bitwarden::primitives::wipe;
use crate::database::{identity_dto_views, AuthDto, IdentityDto, IdentityDtoView};
use crate::keys::{
    key_kind, native_signature, openssh_key_kind, rsa_pkcs1v15_sha256, rsa_pkcs1v15_sha512,
    rsa_sign_sha256, rsa_sign_sha512, sign_natively, KeyKind,
};
use vstd::prelude::*;
use vstd::string::StringExecFns;
use vstd::utf8::encode_utf8;

verus! {

/// The name of RSA signatures with SHA-256.
pub const RSA_SHA2_256: &'static str = "rsa-sha2-256";

/// The name of RSA signatures with SHA-512.
pub const RSA_SHA2_512: &'static str = "rsa-sha2-512";

/// Why no signature was made.
#[derive(Debug, Clone, Copy, PartialEq, Eq, Structural)]
pub enum SignError {
    /// A key of the identity could not be decrypted.
    Crypto(CryptoError),
    /// What was decrypted is no private key in the OpenSSH format.
    InvalidPrivateKey,
    /// The client asked for an RSA signature with SHA-1, which is not made.
    Sha1Unsupported,
    /// The key could not sign.
    SigningFailed,
}

impl SignError {
    /// What the error says.
    pub open spec fn text(self) -> Seq<char> {
        match self {
            SignError::Crypto(e) => e.text(),
            SignError::InvalidPrivateKey => "Invalid private key"@,
            SignError::Sha1Unsupported => "Server requested RSA SHA-1, but it's not supported"@,
            SignError::SigningFailed => "Signing failed"@,
        }
    }

    /// A sentence for the log.
    pub fn message(&self) -> (text: &'static str)
        ensures
            text@ == self.text(),
    {
        match self {
            SignError::Crypto(e) => e.message(),
            SignError::InvalidPrivateKey => "Invalid private key",
            SignError::Sha1Unsupported => "Server requested RSA SHA-1, but it's not supported",
            SignError::SigningFailed => "Signing failed",
        }
    }
}

/// How an identity answers a request for the identities: its public key
/// blob, and its name as the comment.
pub open spec fn listed(identity: IdentityDtoView) -> IdentityView {
    IdentityView { key_blob: identity.public_key, key_comment: identity.name }
}

/// The answer to a request for the identities: one entry for each stored
/// identity, in the order of the store.
pub fn identities(stored: Vec<IdentityDto>) -> (response: Response)
    ensures
        response@ == ResponseView::Identities(
            identity_dto_views(stored@).map_values(|identity: IdentityDtoView| listed(identity)),
        ),
{
    let ghost all = identity_dto_views(stored@);
    let mut listing: Vec<Identity> = Vec::new();
    let mut i: usize = 0;
    while i < stored.len()
        invariant
            i <= stored.len(),
            all == identity_dto_views(stored@),
            listing@.len() == i,
            forall|k: int| 0 <= k < i ==> (#[trigger] listing@[k])@ == listed(all[k]),
        decreases stored.len() - i,
    {
        let identity = &stored[i];
        listing.push(
            Identity {
                key_blob: identity.public_key.clone(),
                key_comment: identity.name.clone(),
            },
        );
        assert(listing@[i as int]@ == listed(all[i as int]));
        i += 1;
    }
    let response = Response::Identities(listing);
    proof {
        let want = all.map_values(|identity: IdentityDtoView| listed(identity));
        let got = crate::agent::protocol::identity_views(listing@);
        assert(got =~= want);
    }
    response
}

/// How a sign request goes on once the store was asked.
#[derive(Debug, Clone, PartialEq, Eq)]
pub enum SignStep {
    /// The key is not known, or nobody is logged in: answer `Failure`.
    Fail,
    /// Have the sealing worker open the sealed account key, then sign with
    /// the identity.
    Unseal { identity: IdentityDto, sealed_key: Vec<u8> },
}

/// Decides how a sign request goes on, given the identity that the store
/// has for the requested public key and the session that it holds.
pub fn begin_sign(identity: Option<IdentityDto>, auth: Option<AuthDto>) -> (step: SignStep)
    ensures
        match (identity, auth) {
            (Some(found), Some(session)) => step == (SignStep::Unseal {
                identity: found,
                sealed_key: session.symmetric_key,
            }),
            _ => step == SignStep::Fail,
        },
{
    match identity {
        None => SignStep::Fail,
        Some(found) => match auth {
            None => SignStep::Fail,
            Some(session) => SignStep::Unseal {
                identity: found,
                sealed_key: session.symmetric_key,
            },
        },
    }
}

/// Whether the flags of a request ask for SHA-512.
pub open spec fn wants_sha512(flags: u32) -> bool {
    flags & SignatureFlags::SSH_AGENT_RSA_SHA2_512 != 0
}

/// Whether the flags of a request ask for SHA-256.
pub open spec fn wants_sha256(flags: u32) -> bool {
    flags & SignatureFlags::SSH_AGENT_RSA_SHA2_256 != 0
}

/// The signature of a private key over data: the name of the scheme and the
/// signature. An RSA key signs with SHA-512 where the flags ask for it,
/// else with SHA-256 where they ask for that, and not at all otherwise. Any
/// other key signs with the scheme of its kind, whatever the flags.
pub open spec fn signature_of(key_text: Seq<u8>, data: Seq<u8>, flags: u32) -> Result<
    (Seq<char>, Seq<u8>),
    SignError,
> {
    match openssh_key_kind(key_text) {
        None => Err(SignError::InvalidPrivateKey),
        Some(KeyKind::Rsa) => if wants_sha512(flags) {
            match rsa_pkcs1v15_sha512(key_text, data) {
                Some(signature) => Ok((RSA_SHA2_512@, signature)),
                None => Err(SignError::SigningFailed),
            }
        } else if wants_sha256(flags) {
            match rsa_pkcs1v15_sha256(key_text, data) {
                Some(signature) => Ok((RSA_SHA2_256@, signature)),
                None => Err(SignError::SigningFailed),
            }
        } else {
            Err(SignError::Sha1Unsupported)
        },
        Some(KeyKind::Other) => match native_signature(key_text, data) {
            Some(signed) => Ok(signed),
            None => Err(SignError::SigningFailed),
        },
    }
}

/// The result of a signature as a mathematical value.
pub open spec fn signed_view(res: Result<(String, Vec<u8>), SignError>) -> Result<
    (Seq<char>, Seq<u8>),
    SignError,
> {
    match res {
        Ok((name, signature)) => Ok((name@, signature@)),
        Err(e) => Err(e),
    }
}

/// Signs data with a private key in the OpenSSH format.
pub fn sign_data(key_text: &[u8], data: &[u8], flags: u32) -> (res: Result<
    (String, Vec<u8>),
    SignError,
>)
    ensures
        signed_view(res) == signature_of(key_text@, data@, flags),
{
    match key_kind(key_text) {
        None => Err(SignError::InvalidPrivateKey),
        Some(KeyKind::Rsa) => {
            let asked = SignatureFlags::from_bits_truncate(flags);
            assert((flags & 7) & 4 == flags & 4) by (bit_vector);
            assert((flags & 7) & 2 == flags & 2) by (bit_vector);
            if asked.intersects(SignatureFlags::SSH_AGENT_RSA_SHA2_512) {
                match rsa_sign_sha512(key_text, data) {
                    Some(signature) => Ok((String::from_str(RSA_SHA2_512), signature)),
                    None => Err(SignError::SigningFailed),
                }
            } else if asked.intersects(SignatureFlags::SSH_AGENT_RSA_SHA2_256) {
                match rsa_sign_sha256(key_text, data) {
                    Some(signature) => Ok((String::from_str(RSA_SHA2_256), signature)),
                    None => Err(SignError::SigningFailed),
                }
            } else {
                Err(SignError::Sha1Unsupported)
            }
        },
        // Other algorithms do not depend on what the client asks for.
        Some(KeyKind::Other) => match sign_natively(key_text, data) {
            Some(signed) => Ok(signed),
            None => Err(SignError::SigningFailed),
        },
    }
}

/// What a sign request for an identity gives, once the account key is
/// open.
pub open spec fn sign_outcome(
    identity: IdentityDtoView,
    account_key: Seq<u8>,
    data: Seq<u8>,
    flags: u32,
) -> Result<ResponseView, SignError> {
    match effective_key(account_key, identity.intermediate_key) {
        Err(e) => Err(SignError::Crypto(e)),
        Ok(key) => match decrypt_encstr(key, encode_utf8(identity.private_key)) {
            Err(e) => Err(SignError::Crypto(e)),
            Ok(key_text) => match signature_of(key_text, data, flags) {
                Err(e) => Err(e),
                Ok((algo_name, signature)) => Ok(
                    ResponseView::SignResponse { algo_name, signature },
                ),
            },
        },
    }
}

/// The result of a sign request as a mathematical value.
pub open spec fn response_view(res: Result<Response, SignError>) -> Result<ResponseView, SignError> {
    match res {
        Ok(response) => Ok(response@),
        Err(e) => Err(e),
    }
}

/// Signs `data` with the private key of an identity. `account_key` is the
/// account key as the sealing worker opened it; it is wiped before the
/// function returns, and so is every key that is decrypted on the way.
pub fn sign_request(
    identity: &IdentityDto,
    account_key: &mut Vec<u8>,
    data: &[u8],
    flags: u32,
) -> (res: Result<Response, SignError>)
    ensures
        response_view(res) == sign_outcome(identity@, old(account_key)@, data@, flags),
        final(account_key)@.len() == 0,
{
    let unlocked = item_key(account_key.as_slice(), &identity.intermediate_key);
    wipe(account_key);
    let mut key = match unlocked {
        Ok(key) => key,
        Err(e) => {
            return Err(SignError::Crypto(e));
        },
    };
    let mut key_text = match bw_decrypt_encstr(key.as_slice(), identity.private_key.as_str()) {
        Ok(key_text) => key_text,
        Err(e) => {
            wipe(&mut key);
            return Err(SignError::Crypto(e));
        },
    };
    wipe(&mut key);
    let signed = sign_data(key_text.as_slice(), data, flags);
    wipe(&mut key_text);
    match signed {
        Ok((algo_name, signature)) => Ok(Response::SignResponse { algo_name, signature }),
        Err(e) => Err(e),
    }
}

/// The answer that a client gets for a sign request: the signature where
/// one was made, `Failure` where none was.
pub fn answer(res: Result<Response, SignError>) -> (response: Response)
    ensures
        match res {
            Ok(signed) => response == signed,
            Err(_) => response == Response::Failure,
        },
{
    match res {
        Ok(signed) => signed,
        Err(_) => Response::Failure,
    }
}

} // verus!
