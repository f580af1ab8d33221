use aes::cipher::{block_padding::Pkcs7, BlockEncryptMut, KeyIvInit};
use base64::{prelude::BASE64_STANDARD, Engine};
use bw_ssh_agent::bitwarden::crypto::{
    bw_decrypt_encstr, bytes_equal, hkdf_expand_key, item_key, make_master_key,
    make_master_key_hash, split_bytes, CryptoError,
};
use bw_ssh_agent::text::{parse_decimal, parse_u32, parse_usize};
use pbkdf2::hmac::{Hmac, Mac};
use sha2::Sha256;

fn hex(text: &str) -> Vec<u8> {
    (0..text.len() / 2)
        .map(|i| u8::from_str_radix(&text[2 * i..2 * i + 2], 16).unwrap())
        .collect()
}

fn test_key() -> Vec<u8> {
    (0u8..64).collect()
}

fn tag_of(key: &[u8], iv: &[u8], ciphertext: &[u8]) -> Vec<u8> {
    let mut mac = <Hmac<Sha256> as Mac>::new_from_slice(&key[32..]).unwrap();
    mac.update(iv);
    mac.update(ciphertext);
    mac.finalize().into_bytes().to_vec()
}

fn encrypt(key: &[u8], iv: &[u8; 16], plain: &[u8]) -> Vec<u8> {
    let mut buffer = vec![0u8; plain.len() + 16];
    buffer[..plain.len()].copy_from_slice(plain);
    let cipher = cbc::Encryptor::<aes::Aes256>::new_from_slices(&key[..32], iv).unwrap();
    cipher.encrypt_padded_mut::<Pkcs7>(&mut buffer, plain.len()).unwrap().to_vec()
}

fn join(iv: &[u8], ciphertext: &[u8], tag: &[u8]) -> String {
    format!(
        "2.{}|{}|{}",
        BASE64_STANDARD.encode(iv),
        BASE64_STANDARD.encode(ciphertext),
        BASE64_STANDARD.encode(tag)
    )
}

fn seal(key: &[u8], iv: &[u8; 16], plain: &[u8]) -> String {
    let ciphertext = encrypt(key, iv, plain);
    let tag = tag_of(key, iv, &ciphertext);
    join(iv, &ciphertext, &tag)
}

#[test]
fn pbkdf2_known_answer() {
    assert_eq!(
        make_master_key("password", "salt", 1),
        Ok(hex("120fb6cffcf8b32c43e7225256c4f837a86548c92ccc35480805987cb70be17b"))
    );
}

#[test]
fn master_key_and_hash_vectors() {
    let master_key = make_master_key("correct horse", "user@example.com", 1000).unwrap();
    assert_eq!(
        master_key,
        hex("c31a689e0209d9d51d698f0bc48821171280b843471432d032aff6ede4555ed9")
    );
    assert_eq!(
        make_master_key_hash(&master_key, "correct horse"),
        Ok("k06QLzVz/vV/cwlFD6gIelAXKxW8EkF3tTbXXIyWLXI=".to_string())
    );
}

#[test]
fn master_key_hash_is_deterministic() {
    let first = make_master_key("pw", "a@b.c", 10).unwrap();
    let second = make_master_key("pw", "a@b.c", 10).unwrap();
    assert_eq!(first, second);
    assert_eq!(
        make_master_key_hash(&first, "pw").unwrap(),
        make_master_key_hash(&second, "pw").unwrap()
    );
    assert_ne!(first, make_master_key("pw", "a@b.c", 11).unwrap());
    assert_ne!(first, make_master_key("pw", "A@b.c", 10).unwrap());
}

#[test]
fn hkdf_expansion_vector() {
    let secret: Vec<u8> = (0u8..32).collect();
    let expanded = hkdf_expand_key(&secret).unwrap();
    assert_eq!(
        expanded.to_vec(),
        hex(
            "9c5639fac602366b486253191cb7900d7d8e3a1514676b118d5803a11dd97213\
             cce388b4ac0f05edee78d40dcbe78a7715640de75ed9ba06942fb42398d6b1f1"
        )
    );
}

#[test]
fn hkdf_expansion_is_enc_then_mac() {
    let secret = [7u8; 32];
    let expanded = hkdf_expand_key(&secret).unwrap();
    let hk = hkdf::Hkdf::<Sha256>::from_prk(&secret).unwrap();
    let mut enc = [0u8; 32];
    let mut mac = [0u8; 32];
    hk.expand(b"enc", &mut enc).unwrap();
    hk.expand(b"mac", &mut mac).unwrap();
    assert_eq!(&expanded[..32], &enc);
    assert_eq!(&expanded[32..], &mac);
}

#[test]
fn hkdf_refuses_short_secrets() {
    assert_eq!(hkdf_expand_key(&[1u8; 31]), Err(CryptoError::InvalidMasterKey));
    assert_eq!(hkdf_expand_key(&[]), Err(CryptoError::InvalidMasterKey));
    assert!(hkdf_expand_key(&[1u8; 33]).is_ok());
}

#[test]
fn decrypts_known_ciphertext() {
    let text = "2.ZGVmZ2hpamtsbW5vcHFycw==|PwuAANqYqZKI/ejla0okqA==|6qfp6wy7Y3XZu8TPlhyrttmhhHwioo5w537yTPDummk=";
    assert_eq!(bw_decrypt_encstr(&test_key(), text), Ok(b"hello vault".to_vec()));
}

#[test]
fn encrypt_then_decrypt_round_trips() {
    let key = test_key();
    let messages: Vec<Vec<u8>> = vec![
        vec![],
        vec![0],
        b"fifteen bytes!!".to_vec(),
        b"sixteen bytes!!!".to_vec(),
        (0..=255u8).collect(),
        vec![0xFF; 1000],
    ];
    for (n, message) in messages.iter().enumerate() {
        let text = seal(&key, &[n as u8; 16], message);
        assert_eq!(bw_decrypt_encstr(&key, &text), Ok(message.clone()));
    }
}

#[test]
fn any_flipped_bit_fails_the_mac() {
    let key = test_key();
    let iv = [3u8; 16];
    let ciphertext = encrypt(&key, &iv, b"attack at dawn");
    let tag = tag_of(&key, &iv, &ciphertext);
    assert_eq!(bw_decrypt_encstr(&key, &join(&iv, &ciphertext, &tag)), Ok(b"attack at dawn".to_vec()));
    for bit in 0..8 {
        for at in 0..iv.len() {
            let mut changed = iv;
            changed[at] ^= 1 << bit;
            assert_eq!(
                bw_decrypt_encstr(&key, &join(&changed, &ciphertext, &tag)),
                Err(CryptoError::MacMismatch)
            );
        }
        for at in 0..ciphertext.len() {
            let mut changed = ciphertext.clone();
            changed[at] ^= 1 << bit;
            assert_eq!(
                bw_decrypt_encstr(&key, &join(&iv, &changed, &tag)),
                Err(CryptoError::MacMismatch)
            );
        }
        for at in 0..tag.len() {
            let mut changed = tag.clone();
            changed[at] ^= 1 << bit;
            assert_eq!(
                bw_decrypt_encstr(&key, &join(&iv, &ciphertext, &changed)),
                Err(CryptoError::MacMismatch)
            );
        }
    }
}

#[test]
fn wrong_key_fails_the_mac() {
    let text = seal(&test_key(), &[1; 16], b"secret");
    let mut other = test_key();
    other[63] ^= 1;
    assert_eq!(bw_decrypt_encstr(&other, &text), Err(CryptoError::MacMismatch));
}

#[test]
fn truncated_tag_fails_the_mac() {
    let key = test_key();
    let iv = [3u8; 16];
    let ciphertext = encrypt(&key, &iv, b"x");
    let tag = tag_of(&key, &iv, &ciphertext);
    assert_eq!(
        bw_decrypt_encstr(&key, &join(&iv, &ciphertext, &tag[..31])),
        Err(CryptoError::MacMismatch)
    );
    assert_eq!(
        bw_decrypt_encstr(&key, &join(&iv, &ciphertext, &[])),
        Err(CryptoError::MacMismatch)
    );
}

#[test]
fn key_must_have_64_bytes() {
    let text = seal(&test_key(), &[1; 16], b"secret");
    assert_eq!(bw_decrypt_encstr(&test_key()[..63], &text), Err(CryptoError::InvalidKeyLength));
    assert_eq!(bw_decrypt_encstr(&[0u8; 32], &text), Err(CryptoError::InvalidKeyLength));
    assert_eq!(bw_decrypt_encstr(&[0u8; 65], &text), Err(CryptoError::InvalidKeyLength));
    assert_eq!(bw_decrypt_encstr(&[], "garbage"), Err(CryptoError::InvalidKeyLength));
}

#[test]
fn legacy_and_other_schemes_are_rejected() {
    let key = test_key();
    assert_eq!(
        bw_decrypt_encstr(&key, "ZGVmZ2hpamtsbW5vcHFycw=="),
        Err(CryptoError::UnsupportedEncType(3))
    );
    assert_eq!(bw_decrypt_encstr(&key, ""), Err(CryptoError::UnsupportedEncType(3)));
    assert_eq!(bw_decrypt_encstr(&key, "0.a|b|c"), Err(CryptoError::UnsupportedEncType(0)));
    assert_eq!(bw_decrypt_encstr(&key, "1.a|b"), Err(CryptoError::UnsupportedEncType(1)));
    assert_eq!(bw_decrypt_encstr(&key, "3.a|b|c"), Err(CryptoError::UnsupportedEncType(3)));
    assert_eq!(
        bw_decrypt_encstr(&key, "4294967295.a"),
        Err(CryptoError::UnsupportedEncType(4294967295))
    );
}

#[test]
fn scheme_must_be_a_number() {
    let key = test_key();
    assert_eq!(bw_decrypt_encstr(&key, "x.a|b|c"), Err(CryptoError::InvalidEncType));
    assert_eq!(bw_decrypt_encstr(&key, ".a|b|c"), Err(CryptoError::InvalidEncType));
    assert_eq!(bw_decrypt_encstr(&key, "-2.a|b|c"), Err(CryptoError::InvalidEncType));
    assert_eq!(bw_decrypt_encstr(&key, " 2.a|b|c"), Err(CryptoError::InvalidEncType));
    assert_eq!(bw_decrypt_encstr(&key, "4294967296.a|b|c"), Err(CryptoError::InvalidEncType));
}

#[test]
fn ciphertext_needs_three_pieces() {
    let key = test_key();
    assert_eq!(bw_decrypt_encstr(&key, "2.a|b"), Err(CryptoError::InvalidFormat));
    assert_eq!(bw_decrypt_encstr(&key, "2.a"), Err(CryptoError::InvalidFormat));
    assert_eq!(bw_decrypt_encstr(&key, "2."), Err(CryptoError::InvalidFormat));
    assert_eq!(bw_decrypt_encstr(&key, "2.a|b|c|d"), Err(CryptoError::InvalidFormat));
}

#[test]
fn pieces_must_be_base64() {
    let key = test_key();
    assert_eq!(bw_decrypt_encstr(&key, "2.!|AAAA|AAAA"), Err(CryptoError::InvalidBase64));
    assert_eq!(bw_decrypt_encstr(&key, "2.AAAA|!|AAAA"), Err(CryptoError::InvalidBase64));
    assert_eq!(bw_decrypt_encstr(&key, "2.AAAA|AAAA|A"), Err(CryptoError::InvalidBase64));
}

#[test]
fn iv_must_be_one_block() {
    let key = test_key();
    let iv = [3u8; 8];
    let ciphertext = encrypt(&key, &[0; 16], b"x");
    let tag = tag_of(&key, &iv, &ciphertext);
    assert_eq!(
        bw_decrypt_encstr(&key, &join(&iv, &ciphertext, &tag)),
        Err(CryptoError::InvalidIvLength)
    );
}

#[test]
fn malformed_padding_is_rejected_after_the_mac() {
    let key = test_key();
    let iv = [3u8; 16];
    let odd = vec![1u8; 15];
    let tag = tag_of(&key, &iv, &odd);
    assert_eq!(bw_decrypt_encstr(&key, &join(&iv, &odd, &tag)), Err(CryptoError::InvalidPadding));
    let empty: Vec<u8> = Vec::new();
    let tag = tag_of(&key, &iv, &empty);
    assert_eq!(
        bw_decrypt_encstr(&key, &join(&iv, &empty, &tag)),
        Err(CryptoError::InvalidPadding)
    );
    let mut padded = vec![0u8; 16];
    let cipher = cbc::Encryptor::<aes::Aes256>::new_from_slices(&key[..32], &iv).unwrap();
    padded[15] = 0x11;
    let block = cipher
        .encrypt_padded_mut::<aes::cipher::block_padding::NoPadding>(&mut padded, 16)
        .unwrap()
        .to_vec();
    let tag = tag_of(&key, &iv, &block);
    assert_eq!(
        bw_decrypt_encstr(&key, &join(&iv, &block, &tag)),
        Err(CryptoError::InvalidPadding)
    );
}

#[test]
fn plus_sign_and_leading_zeros_name_the_scheme_too() {
    let key = test_key();
    let text = seal(&key, &[1; 16], b"secret");
    let plus = format!("+{}", text);
    let zeros = format!("00{}", text);
    assert_eq!(bw_decrypt_encstr(&key, &plus), Ok(b"secret".to_vec()));
    assert_eq!(bw_decrypt_encstr(&key, &zeros), Ok(b"secret".to_vec()));
}

#[test]
fn text_after_a_second_dot_is_not_looked_at() {
    let key = test_key();
    let text = format!("{}.trailer|x", seal(&key, &[1; 16], b"secret"));
    assert_eq!(bw_decrypt_encstr(&key, &text), Ok(b"secret".to_vec()));
}

#[test]
fn item_key_is_the_account_key_or_its_own() {
    let account = test_key();
    assert_eq!(item_key(&account, &None), Ok(account.clone()));
    let own: Vec<u8> = (100u8..164).collect();
    let sealed = seal(&account, &[5; 16], &own);
    assert_eq!(item_key(&account, &Some(sealed)), Ok(own));
    assert_eq!(
        item_key(&account, &Some("nonsense".to_string())),
        Err(CryptoError::UnsupportedEncType(3))
    );
}

#[test]
fn parse_u32_reads_decimal_numbers() {
    assert_eq!(parse_u32(b"0"), Some(0));
    assert_eq!(parse_u32(b"2"), Some(2));
    assert_eq!(parse_u32(b"+2"), Some(2));
    assert_eq!(parse_u32(b"0002"), Some(2));
    assert_eq!(parse_u32(b"4294967295"), Some(u32::MAX));
    assert_eq!(parse_u32(b"4294967296"), None);
    assert_eq!(parse_u32(b"99999999999999999999999"), None);
    assert_eq!(parse_u32(b""), None);
    assert_eq!(parse_u32(b"+"), None);
    assert_eq!(parse_u32(b"-1"), None);
    assert_eq!(parse_u32(b"++1"), None);
    assert_eq!(parse_u32(b"1+"), None);
    assert_eq!(parse_u32(b"12a"), None);
    assert_eq!(parse_u32(b" 1"), None);
    for text in ["7", "+0", "010", "65536", "x", "4294967295", "4294967296", "", "+"] {
        assert_eq!(parse_u32(text.as_bytes()), text.parse::<u32>().ok());
    }
}

#[test]
fn split_bytes_cuts_like_str_split() {
    let pieces = |text: &str, separator: char| -> Vec<Vec<u8>> {
        text.split(separator).map(|piece| piece.as_bytes().to_vec()).collect()
    };
    for text in ["", "a", ".", "a.b", "a.", ".a", "a..b", "2.x|y|z", "..", "abc.def.ghi"] {
        assert_eq!(split_bytes(text.as_bytes(), b'.'), pieces(text, '.'));
    }
    assert_eq!(split_bytes(b"a|b|c", b'|'), vec![b"a".to_vec(), b"b".to_vec(), b"c".to_vec()]);
    assert_eq!(split_bytes(b"", b'|'), vec![Vec::<u8>::new()]);
}

#[test]
fn bytes_equal_compares_content() {
    assert!(bytes_equal(b"", b""));
    assert!(bytes_equal(b"true", b"true"));
    assert!(!bytes_equal(b"true", b"tru"));
    assert!(!bytes_equal(b"true", b"trux"));
    assert!(!bytes_equal(b"1", b""));
}

#[test]
fn crypto_error_messages() {
    assert_eq!(CryptoError::InvalidMasterKey.message(), "Invalid master key");
    assert_eq!(CryptoError::InvalidFormat.message(), "Invalid encrypted data format");
    assert_eq!(CryptoError::UnsupportedEncType(3).message(), "Unsupported encryption type");
    assert_eq!(CryptoError::MacMismatch.message(), "MAC verification failed");
}

#[test]
fn parse_usize_and_decimal_bounds() {
    assert_eq!(parse_usize(b"12345"), Some(12345));
    assert_eq!(parse_usize(b"+0"), Some(0));
    assert_eq!(parse_usize(usize::MAX.to_string().as_bytes()), Some(usize::MAX));
    assert_eq!(parse_usize(b"340282366920938463463374607431768211456"), None);
    assert_eq!(parse_usize(b"12 "), None);
    assert_eq!(parse_decimal(b"255", 255), Some(255));
    assert_eq!(parse_decimal(b"256", 255), None);
    assert_eq!(parse_decimal(b"18446744073709551615", u64::MAX), Some(u64::MAX));
    assert_eq!(parse_decimal(b"18446744073709551616", u64::MAX), None);
    assert_eq!(parse_decimal(b"0", 0), Some(0));
    assert_eq!(parse_decimal(b"1", 0), None);
}
