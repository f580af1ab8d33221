use aes::cipher::{block_padding::Pkcs7, BlockEncryptMut, KeyIvInit};
use base64::{prelude::BASE64_STANDARD, Engine};
use bw_ssh_agent::agent::protocol::{Identity, Response};
use bw_ssh_agent::bitwarden::crypto::CryptoError;
use bw_ssh_agent::database::{AuthDto, IdentityDto};
use bw_ssh_agent::handler::{
    answer, begin_sign, identities, sign_data, sign_request, SignError, SignStep,
};
use pbkdf2::hmac::{Hmac, Mac};
use rsa::signature::Verifier;
use sha2::{Sha256, Sha512};

fn hex(text: &str) -> Vec<u8> {
    (0..text.len() / 2)
        .map(|i| u8::from_str_radix(&text[2 * i..2 * i + 2], 16).unwrap())
        .collect()
}

fn account_key() -> Vec<u8> {
    (0u8..64).collect()
}

fn seal(key: &[u8], plain: &[u8]) -> String {
    let iv = [0x24u8; 16];
    let mut buffer = vec![0u8; plain.len() + 16];
    buffer[..plain.len()].copy_from_slice(plain);
    let cipher = cbc::Encryptor::<aes::Aes256>::new_from_slices(&key[..32], &iv).unwrap();
    let ciphertext = cipher.encrypt_padded_mut::<Pkcs7>(&mut buffer, plain.len()).unwrap().to_vec();
    let mut mac = <Hmac<Sha256> as Mac>::new_from_slice(&key[32..]).unwrap();
    mac.update(&iv);
    mac.update(&ciphertext);
    let tag = mac.finalize().into_bytes();
    format!(
        "2.{}|{}|{}",
        BASE64_STANDARD.encode(iv),
        BASE64_STANDARD.encode(&ciphertext),
        BASE64_STANDARD.encode(tag)
    )
}

fn rsa_key() -> rsa::RsaPrivateKey {
    let p = rsa::BigUint::from_bytes_be(&hex(
        "f5e524dd0ef4216b1fbac69a48fbdad960296ece9e6d4fa0f871394555929329\
         d176ec2b2d8d98134685732a8e6d6dbc0f77852cbcb3e17e8116060e6411a851\
         5eaf0331da3160cdd6124297b7dadaa4bb57005fceb84005bd363a2bb03d3b41\
         6e7a35f1d3b3970fd0cf80fec150f504110295ea4d83fdd3e4e89ea992fec51b",
    ));
    let q = rsa::BigUint::from_bytes_be(&hex(
        "d6fe8eeec869add2ffa251c56ea6583d5c5915ba9fd06377a2aa7238f5af0387\
         b4d6cb1bcdabba7e5e69303e942e7745a1ca6aeae76c7b4ed65aee8a071d6784\
         07982328db3e4b940a7238087f16b87cd41259dd6c79db250b27d85ae920c1b2\
         add36dd0ef61d36a731de357a8c858da986887f27573ca2593a11426333c5fe9",
    ));
    rsa::RsaPrivateKey::from_p_q(p, q, rsa::BigUint::from(65537u32)).unwrap()
}

fn rsa_text() -> String {
    let pair = ssh_key::private::RsaKeypair::try_from(rsa_key()).unwrap();
    ssh_key::PrivateKey::from(pair).to_openssh(ssh_key::LineEnding::LF).unwrap().to_string()
}

fn ed25519() -> ssh_key::PrivateKey {
    ssh_key::PrivateKey::from(ssh_key::private::Ed25519Keypair::from_seed(&[9; 32]))
}

fn ed25519_text() -> String {
    ed25519().to_openssh(ssh_key::LineEnding::LF).unwrap().to_string()
}

fn identity_with(key: &[u8], text: &str) -> IdentityDto {
    IdentityDto {
        id: "item".to_string(),
        name: "work".to_string(),
        public_key: vec![1, 2, 3],
        private_key: seal(key, text.as_bytes()),
        intermediate_key: None,
    }
}

fn session() -> AuthDto {
    AuthDto {
        vault_url: "https://vault.example".to_string(),
        access_token: "access".to_string(),
        refresh_token: "refresh".to_string(),
        expires_at: 1_700_000_000,
        master_key: vec![1; 80],
        symmetric_key: vec![2; 90],
    }
}

#[test]
fn rsa_flag_handling() {
    let text = rsa_text();
    let public = rsa_key().to_public_key();

    let (name, signature) = sign_data(text.as_bytes(), b"hello", 0x04).unwrap();
    assert_eq!(name, "rsa-sha2-512");
    let verifier = rsa::pkcs1v15::VerifyingKey::<Sha512>::new(public.clone());
    let parsed = rsa::pkcs1v15::Signature::try_from(signature.as_slice()).unwrap();
    assert!(verifier.verify(b"hello", &parsed).is_ok());

    let (name, signature) = sign_data(text.as_bytes(), b"hello", 0x02).unwrap();
    assert_eq!(name, "rsa-sha2-256");
    let verifier = rsa::pkcs1v15::VerifyingKey::<Sha256>::new(public);
    let parsed = rsa::pkcs1v15::Signature::try_from(signature.as_slice()).unwrap();
    assert!(verifier.verify(b"hello", &parsed).is_ok());

    assert_eq!(sign_data(text.as_bytes(), b"hello", 0x00), Err(SignError::Sha1Unsupported));
    assert_eq!(answer(Err(SignError::Sha1Unsupported)), Response::Failure);
}

#[test]
fn rsa_prefers_sha512_and_ignores_other_bits() {
    let text = rsa_text();
    let (name, _) = sign_data(text.as_bytes(), b"hello", 0x06).unwrap();
    assert_eq!(name, "rsa-sha2-512");
    let (name, _) = sign_data(text.as_bytes(), b"hello", 0xFFFF_FFFB).unwrap();
    assert_eq!(name, "rsa-sha2-256");
    assert_eq!(sign_data(text.as_bytes(), b"hello", 0x01), Err(SignError::Sha1Unsupported));
    assert_eq!(sign_data(text.as_bytes(), b"hello", 0xF8), Err(SignError::Sha1Unsupported));
}

#[test]
fn rsa_sign_request_through_the_identity() {
    let mut key = account_key();
    let identity = identity_with(&key, &rsa_text());
    let response = sign_request(&identity, &mut key, b"hello", 4).unwrap();
    assert!(key.is_empty());
    match response {
        Response::SignResponse { algo_name, signature } => {
            assert_eq!(algo_name, "rsa-sha2-512");
            assert_eq!(signature.len(), 256);
            let verifier = rsa::pkcs1v15::VerifyingKey::<Sha512>::new(rsa_key().to_public_key());
            let parsed = rsa::pkcs1v15::Signature::try_from(signature.as_slice()).unwrap();
            assert!(verifier.verify(b"hello", &parsed).is_ok());
        }
        other => panic!("no signature: {:?}", other),
    }
    let mut key = account_key();
    assert_eq!(
        sign_request(&identity, &mut key, b"hello", 0),
        Err(SignError::Sha1Unsupported)
    );
    assert!(key.is_empty());
}

#[test]
fn ed25519_signs_whatever_the_flags() {
    let text = ed25519_text();
    let mut names = Vec::new();
    let mut signatures = Vec::new();
    for flags in [0u32, 2, 4, 6, 0xFFFF_FFFF] {
        let (name, signature) = sign_data(text.as_bytes(), b"hello", flags).unwrap();
        names.push(name);
        signatures.push(signature);
    }
    assert!(names.iter().all(|name| name == "ssh-ed25519"));
    assert!(signatures.iter().all(|signature| *signature == signatures[0]));
    let parsed = ssh_key::Signature::try_from(signatures[0].as_slice()).unwrap();
    assert_eq!(parsed.algorithm(), ssh_key::Algorithm::Ed25519);
    assert!(Verifier::verify(ed25519().public_key(), b"hello", &parsed).is_ok());
    assert!(Verifier::verify(ed25519().public_key(), b"hellp", &parsed).is_err());
}

#[test]
fn text_that_is_no_key_cannot_sign() {
    assert_eq!(sign_data(b"not a key", b"hello", 4), Err(SignError::InvalidPrivateKey));
    assert_eq!(sign_data(b"", b"hello", 4), Err(SignError::InvalidPrivateKey));
}

#[test]
fn sign_request_with_the_key_of_the_item() {
    let own: Vec<u8> = (64u8..128).collect();
    let mut identity = identity_with(&own, &ed25519_text());
    identity.intermediate_key = Some(seal(&account_key(), &own));
    let mut key = account_key();
    let response = sign_request(&identity, &mut key, b"payload", 0).unwrap();
    assert!(key.is_empty());
    match response {
        Response::SignResponse { algo_name, signature } => {
            assert_eq!(algo_name, "ssh-ed25519");
            let parsed = ssh_key::Signature::try_from(signature.as_slice()).unwrap();
            assert!(Verifier::verify(ed25519().public_key(), b"payload", &parsed).is_ok());
        }
        other => panic!("no signature: {:?}", other),
    }
}

#[test]
fn sign_request_fails_closed_on_bad_ciphertexts() {
    let identity = identity_with(&account_key(), &ed25519_text());
    let mut wrong: Vec<u8> = (1u8..65).collect();
    let res = sign_request(&identity, &mut wrong, b"x", 0);
    assert_eq!(res, Err(SignError::Crypto(CryptoError::MacMismatch)));
    assert!(wrong.is_empty());
    assert_eq!(answer(res), Response::Failure);

    let mut short = vec![0u8; 10];
    assert_eq!(
        sign_request(&identity, &mut short, b"x", 0),
        Err(SignError::Crypto(CryptoError::InvalidKeyLength))
    );
    assert!(short.is_empty());

    let mut sealed_nonsense = identity_with(&account_key(), "hello");
    sealed_nonsense.intermediate_key = Some("bogus".to_string());
    let mut key = account_key();
    assert_eq!(
        sign_request(&sealed_nonsense, &mut key, b"x", 0),
        Err(SignError::Crypto(CryptoError::UnsupportedEncType(3)))
    );
    assert!(key.is_empty());

    let no_key = identity_with(&account_key(), "hello");
    let mut key = account_key();
    assert_eq!(sign_request(&no_key, &mut key, b"x", 0), Err(SignError::InvalidPrivateKey));
}

#[test]
fn answer_passes_signatures_on() {
    let response = Response::SignResponse { algo_name: "a".to_string(), signature: vec![1] };
    assert_eq!(answer(Ok(response.clone())), response);
    assert_eq!(answer(Err(SignError::SigningFailed)), Response::Failure);
    assert_eq!(answer(Err(SignError::InvalidPrivateKey)), Response::Failure);
}

#[test]
fn begin_sign_needs_identity_and_session() {
    let identity = identity_with(&account_key(), "x");
    assert_eq!(begin_sign(None, Some(session())), SignStep::Fail);
    assert_eq!(begin_sign(Some(identity.clone()), None), SignStep::Fail);
    assert_eq!(begin_sign(None, None), SignStep::Fail);
    assert_eq!(
        begin_sign(Some(identity.clone()), Some(session())),
        SignStep::Unseal { identity, sealed_key: vec![2; 90] }
    );
}

#[test]
fn identities_lists_public_key_and_name() {
    let stored = vec![
        IdentityDto {
            id: "b".to_string(),
            name: "second".to_string(),
            public_key: vec![9, 9],
            private_key: "2.x|y|z".to_string(),
            intermediate_key: None,
        },
        IdentityDto {
            id: "a".to_string(),
            name: "first".to_string(),
            public_key: vec![1],
            private_key: "2.x|y|z".to_string(),
            intermediate_key: Some("2.k|k|k".to_string()),
        },
    ];
    assert_eq!(
        identities(stored),
        Response::Identities(vec![
            Identity { key_blob: vec![9, 9], key_comment: "second".to_string() },
            Identity { key_blob: vec![1], key_comment: "first".to_string() },
        ])
    );
}

#[test]
fn sign_error_messages() {
    assert_eq!(
        SignError::Sha1Unsupported.message(),
        "Server requested RSA SHA-1, but it's not supported"
    );
    assert_eq!(SignError::Crypto(CryptoError::MacMismatch).message(), "MAC verification failed");
}
