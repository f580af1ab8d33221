//! The vault's cryptography: the master key and its hash, the expansion of a
//! key into its two halves, and the authenticated decryption of a vault
//! ciphertext.
//!
//! A vault ciphertext is a text of the form `2.<iv>|<ciphertext>|<mac>`,
//! each of the three pieces in base64. The leading number names the scheme;
//! only scheme 2 is accepted: AES-256-CBC under the first half of a 64-byte
//! key, authenticated by HMAC-SHA-256 over IV and ciphertext under the
//! second half.

use crate::text::{decimal_u32, digits_value, parse_u32, unsigned_digits};
use super::primitives::{
    aes256_cbc_decrypt, aes256_cbc_pkcs7_decrypt, base64_decode, base64_encode,
    base64_standard_decode, base64_standard_encode, hkdf_expand, hkdf_sha256_expand,
    hmac_sha256, hmac_sha256_verify, pbkdf2_hmac_sha256, pbkdf2_sha256, wipe, BLOCK_LEN,
    HASH_LEN,
};
use vstd::prelude::*;
use vstd::slice::{slice_subrange, slice_to_vec};
use vstd::string::StringSliceAdditionalSpecFns;

verus! {

/// Bytes of an expanded key: an encryption key and a MAC key of 32 bytes
/// each.
pub const EXPANDED_KEY_LEN: usize = 64;

/// The one scheme of vault ciphertexts that is accepted.
pub const ENC_TYPE_AES_CBC256_HMAC_SHA256_B64: u32 = 2;

/// The scheme that a ciphertext without a header is taken to be of.
pub const ENC_TYPE_LEGACY: u32 = 3;

/// Why a key was not derived or a vault ciphertext not decrypted.
#[derive(Debug, Clone, Copy, PartialEq, Eq, Structural)]
pub enum CryptoError {
    /// The secret to expand is shorter than 32 bytes.
    InvalidMasterKey,
    /// The key is not an expanded key of 64 bytes.
    InvalidKeyLength,
    /// The scheme of the ciphertext is no number.
    InvalidEncType,
    /// The scheme of the ciphertext is not the one that is accepted.
    UnsupportedEncType(u32),
    /// The ciphertext does not have three pieces.
    InvalidFormat,
    /// A piece of the ciphertext is not base64.
    InvalidBase64,
    /// The authentication tag does not match: the data is not trusted.
    MacMismatch,
    /// The IV is not one block long.
    InvalidIvLength,
    /// The ciphertext is no whole number of blocks, or its padding is
    /// malformed.
    InvalidPadding,
}

impl CryptoError {
    /// What the error says.
    pub open spec fn text(self) -> Seq<char> {
        match self {
            CryptoError::InvalidMasterKey => "Invalid master key"@,
            CryptoError::InvalidKeyLength => "Invalid key length"@,
            CryptoError::InvalidEncType => "Invalid encryption type"@,
            CryptoError::UnsupportedEncType(_) => "Unsupported encryption type"@,
            CryptoError::InvalidFormat => "Invalid encrypted data format"@,
            CryptoError::InvalidBase64 => "Invalid base64 in encrypted data"@,
            CryptoError::MacMismatch => "MAC verification failed"@,
            CryptoError::InvalidIvLength => "Invalid IV length"@,
            CryptoError::InvalidPadding => "Invalid padding"@,
        }
    }

    /// A sentence for the user.
    pub fn message(&self) -> (text: &'static str)
        ensures
            text@ == self.text(),
    {
        match self {
            CryptoError::InvalidMasterKey => "Invalid master key",
            CryptoError::InvalidKeyLength => "Invalid key length",
            CryptoError::InvalidEncType => "Invalid encryption type",
            CryptoError::UnsupportedEncType(_) => "Unsupported encryption type",
            CryptoError::InvalidFormat => "Invalid encrypted data format",
            CryptoError::InvalidBase64 => "Invalid base64 in encrypted data",
            CryptoError::MacMismatch => "MAC verification failed",
            CryptoError::InvalidIvLength => "Invalid IV length",
            CryptoError::InvalidPadding => "Invalid padding",
        }
    }
}

/// The master key of an account: PBKDF2-HMAC-SHA-256 over the password,
/// salted with the account's email in lower case, 32 bytes long.
pub open spec fn master_key(password: Seq<char>, salt: Seq<char>, iterations: u32) -> Seq<u8> {
    pbkdf2_hmac_sha256(
        vstd::utf8::encode_utf8(password),
        vstd::utf8::encode_utf8(salt),
        iterations,
        HASH_LEN as nat,
    )
}

/// The hash of a master key, which stands for the password at login: one
/// round of PBKDF2-HMAC-SHA-256 over the master key, salted with the
/// password, in base64.
pub open spec fn master_key_hash(master_key: Seq<u8>, salt: Seq<char>) -> Seq<char> {
    base64_standard_encode(
        pbkdf2_hmac_sha256(master_key, vstd::utf8::encode_utf8(salt), 1, HASH_LEN as nat),
    )
}

/// What is sent as the password of an account at login.
pub open spec fn login_password(password: Seq<char>, email: Seq<char>, iterations: u32) -> Seq<
    char,
> {
    master_key_hash(master_key(password, email, iterations), password)
}

/// Derives the master key of an account. Always succeeds.
pub fn make_master_key(password: &str, salt: &str, iterations: u32) -> (res: Result<
    Vec<u8>,
    CryptoError,
>)
    ensures
        res matches Ok(key) && key@ == master_key(password@, salt@, iterations) && key@.len()
            == HASH_LEN,
{
    Ok(pbkdf2_sha256(password.as_bytes(), salt.as_bytes(), iterations, HASH_LEN))
}

/// Derives the hash of a master key. Always succeeds.
pub fn make_master_key_hash(master_key: &[u8], salt: &str) -> (res: Result<String, CryptoError>)
    ensures
        res matches Ok(hash) && hash@ == master_key_hash(master_key@, salt@),
{
    let mut hash = pbkdf2_sha256(master_key, salt.as_bytes(), 1, HASH_LEN);
    let text = base64_encode(hash.as_slice());
    wipe(&mut hash);
    Ok(text)
}

/// The same password, email and number of rounds always give the same login
/// password: it is a function of the three and of nothing else.
pub proof fn lemma_login_password_deterministic(
    password1: Seq<char>,
    email1: Seq<char>,
    iterations1: u32,
    password2: Seq<char>,
    email2: Seq<char>,
    iterations2: u32,
)
    requires
        password1 == password2,
        email1 == email2,
        iterations1 == iterations2,
    ensures
        login_password(password1, email1, iterations1) == login_password(
            password2,
            email2,
            iterations2,
        ),
{
}

/// The info string of the encryption half of an expanded key: `enc`.
pub open spec fn info_enc() -> Seq<u8> {
    seq![0x65u8, 0x6e, 0x63]
}

/// The info string of the MAC half of an expanded key: `mac`.
pub open spec fn info_mac() -> Seq<u8> {
    seq![0x6du8, 0x61, 0x63]
}

/// The expanded key of a secret: the expand step of HKDF-SHA-256 keyed with
/// the secret itself, once with `enc` and once with `mac`, 32 bytes each,
/// in that order.
pub open spec fn expanded_key(secret: Seq<u8>) -> Seq<u8> {
    hkdf_sha256_expand(secret, info_enc(), HASH_LEN as nat) + hkdf_sha256_expand(
        secret,
        info_mac(),
        HASH_LEN as nat,
    )
}

/// Expands a secret into its encryption key and its MAC key. A secret of
/// fewer than 32 bytes is refused.
pub fn hkdf_expand_key(master_key: &[u8]) -> (res: Result<[u8; 64], CryptoError>)
    ensures
        match res {
            Ok(key) => master_key@.len() >= HASH_LEN && key@ == expanded_key(master_key@),
            Err(e) => master_key@.len() < HASH_LEN && e == CryptoError::InvalidMasterKey,
        },
{
    let info_e: [u8; 3] = [0x65, 0x6e, 0x63];
    let info_m: [u8; 3] = [0x6d, 0x61, 0x63];
    assert(info_e@ =~= info_enc());
    assert(info_m@ =~= info_mac());
    let mut enc = match hkdf_expand(master_key, info_e.as_slice(), HASH_LEN) {
        Some(enc) => enc,
        None => {
            return Err(CryptoError::InvalidMasterKey);
        },
    };
    let mut mac = match hkdf_expand(master_key, info_m.as_slice(), HASH_LEN) {
        Some(mac) => mac,
        None => {
            return Err(CryptoError::InvalidMasterKey);
        },
    };
    let mut key = [0u8; 64];
    let mut i: usize = 0;
    while i < HASH_LEN
        invariant
            i <= HASH_LEN,
            enc@.len() == HASH_LEN,
            mac@.len() == HASH_LEN,
            forall|k: int| 0 <= k < i ==> key@[k] == enc@[k],
            forall|k: int| 0 <= k < i ==> key@[HASH_LEN + k] == mac@[k],
        decreases HASH_LEN - i,
    {
        key[i] = enc[i];
        key[HASH_LEN + i] = mac[i];
        i += 1;
    }
    assert(key@ =~= enc@ + mac@);
    wipe(&mut enc);
    wipe(&mut mac);
    Ok(key)
}

/// The pieces that a separator cuts a text into. A text without the
/// separator is one piece; two separators in a row have an empty piece
/// between them.
pub open spec fn split(text: Seq<u8>, separator: u8) -> Seq<Seq<u8>>
    decreases text.len(),
{
    if text.len() == 0 {
        seq![Seq::<u8>::empty()]
    } else {
        let before = split(text.drop_last(), separator);
        if text.last() == separator {
            before.push(Seq::<u8>::empty())
        } else {
            before.drop_last().push(before.last().push(text.last()))
        }
    }
}

/// The pieces of a list of byte strings as mathematical values.
pub open spec fn pieces_view(pieces: Seq<Vec<u8>>) -> Seq<Seq<u8>> {
    pieces.map_values(|piece: Vec<u8>| piece@)
}

/// A text is cut into at least one piece.
pub proof fn lemma_split_nonempty(text: Seq<u8>, separator: u8)
    ensures
        split(text, separator).len() >= 1,
    decreases text.len(),
{
    if text.len() > 0 {
        lemma_split_nonempty(text.drop_last(), separator);
    }
}

/// Cuts a text at each occurrence of a separator.
pub fn split_bytes(text: &[u8], separator: u8) -> (pieces: Vec<Vec<u8>>)
    ensures
        pieces_view(pieces@) == split(text@, separator),
{
    let mut done: Vec<Vec<u8>> = Vec::new();
    let mut current: Vec<u8> = Vec::new();
    let mut i: usize = 0;
    while i < text.len()
        invariant
            i <= text.len(),
            pieces_view(done@).push(current@) == split(text@.take(i as int), separator),
        decreases text.len() - i,
    {
        let byte: u8 = text[i];
        proof {
            let prefix = text@.take(i + 1);
            assert(prefix.drop_last() =~= text@.take(i as int));
            assert(prefix.last() == byte);
        }
        if byte == separator {
            let ghost before = pieces_view(done@);
            let ghost piece = current@;
            done.push(current);
            current = Vec::new();
            assert(pieces_view(done@) =~= before.push(piece));
        } else {
            let ghost before = current@;
            current.push(byte);
            assert(pieces_view(done@).push(before).drop_last() =~= pieces_view(done@));
        }
        i += 1;
    }
    assert(text@.take(i as int) =~= text@);
    let ghost before = pieces_view(done@);
    let ghost piece = current@;
    done.push(current);
    assert(pieces_view(done@) =~= before.push(piece));
    done
}

/// The three base64 pieces of a vault ciphertext: IV, ciphertext and
/// authentication tag. What follows a second dot is not looked at.
pub open spec fn encstr_pieces(text: Seq<u8>) -> Result<(Seq<u8>, Seq<u8>, Seq<u8>), CryptoError> {
    let header = split(text, 0x2e);
    if header.len() == 1 {
        Err(CryptoError::UnsupportedEncType(ENC_TYPE_LEGACY))
    } else {
        match decimal_u32(header[0]) {
            None => Err(CryptoError::InvalidEncType),
            Some(enc_type) => if enc_type != ENC_TYPE_AES_CBC256_HMAC_SHA256_B64 {
                Err(CryptoError::UnsupportedEncType(enc_type))
            } else {
                let pieces = split(header[1], 0x7c);
                if pieces.len() != 3 {
                    Err(CryptoError::InvalidFormat)
                } else {
                    Ok((pieces[0], pieces[1], pieces[2]))
                }
            },
        }
    }
}

/// What the decryption of IV, ciphertext and tag under an expanded key
/// gives. The tag is checked first: without a matching tag nothing is
/// decrypted.
pub open spec fn open_sealed(key: Seq<u8>, iv: Seq<u8>, ciphertext: Seq<u8>, tag: Seq<u8>) -> Result<
    Seq<u8>,
    CryptoError,
> {
    if tag != hmac_sha256(key.skip(HASH_LEN as int), iv + ciphertext) {
        Err(CryptoError::MacMismatch)
    } else if iv.len() != BLOCK_LEN {
        Err(CryptoError::InvalidIvLength)
    } else {
        match aes256_cbc_pkcs7_decrypt(key.take(HASH_LEN as int), iv, ciphertext) {
            None => Err(CryptoError::InvalidPadding),
            Some(plain) => Ok(plain),
        }
    }
}

/// What a vault ciphertext decrypts to under a key.
pub open spec fn decrypt_encstr(key: Seq<u8>, text: Seq<u8>) -> Result<Seq<u8>, CryptoError> {
    if key.len() != EXPANDED_KEY_LEN {
        Err(CryptoError::InvalidKeyLength)
    } else {
        match encstr_pieces(text) {
            Err(e) => Err(e),
            Ok((iv_text, ciphertext_text, tag_text)) => match base64_standard_decode(iv_text) {
                None => Err(CryptoError::InvalidBase64),
                Some(iv) => match base64_standard_decode(ciphertext_text) {
                    None => Err(CryptoError::InvalidBase64),
                    Some(ciphertext) => match base64_standard_decode(tag_text) {
                        None => Err(CryptoError::InvalidBase64),
                        Some(tag) => open_sealed(key, iv, ciphertext, tag),
                    },
                },
            },
        }
    }
}

/// The result of a decryption as a mathematical value.
pub open spec fn decrypted_view(res: Result<Vec<u8>, CryptoError>) -> Result<Seq<u8>, CryptoError> {
    match res {
        Ok(plain) => Ok(plain@),
        Err(e) => Err(e),
    }
}

/// Decrypts a vault ciphertext under an expanded key of 64 bytes.
pub fn bw_decrypt_encstr(key: &[u8], encrypted_data: &str) -> (res: Result<Vec<u8>, CryptoError>)
    ensures
        decrypted_view(res) == decrypt_encstr(key@, encrypted_data.spec_bytes()),
{
    if key.len() != EXPANDED_KEY_LEN {
        return Err(CryptoError::InvalidKeyLength);
    }
    let enc_key = slice_subrange(key, 0, HASH_LEN);
    let mac_key = slice_subrange(key, HASH_LEN, key.len());
    assert(enc_key@ =~= key@.take(HASH_LEN as int));
    assert(mac_key@ =~= key@.skip(HASH_LEN as int));

    let text = encrypted_data.as_bytes();
    let header_pieces = split_bytes(text, 0x2e);
    proof {
        lemma_split_nonempty(text@, 0x2e);
        assert(pieces_view(header_pieces@).len() == header_pieces@.len());
    }
    if header_pieces.len() == 1 {
        return Err(CryptoError::UnsupportedEncType(ENC_TYPE_LEGACY));
    }
    assert(pieces_view(header_pieces@)[0] == header_pieces@[0]@);
    assert(pieces_view(header_pieces@)[1] == header_pieces@[1]@);
    let enc_type: u32 = match parse_u32(header_pieces[0].as_slice()) {
        Some(enc_type) => enc_type,
        None => {
            return Err(CryptoError::InvalidEncType);
        },
    };
    // Only AES-256-CBC with HMAC-SHA-256 is supported.
    if enc_type != ENC_TYPE_AES_CBC256_HMAC_SHA256_B64 {
        return Err(CryptoError::UnsupportedEncType(enc_type));
    }
    let enc_pieces = split_bytes(header_pieces[1].as_slice(), 0x7c);
    assert(pieces_view(enc_pieces@).len() == enc_pieces@.len());
    if enc_pieces.len() != 3 {
        return Err(CryptoError::InvalidFormat);
    }
    assert(pieces_view(enc_pieces@)[0] == enc_pieces@[0]@);
    assert(pieces_view(enc_pieces@)[1] == enc_pieces@[1]@);
    assert(pieces_view(enc_pieces@)[2] == enc_pieces@[2]@);

    let iv = match base64_decode(enc_pieces[0].as_slice()) {
        Some(iv) => iv,
        None => {
            return Err(CryptoError::InvalidBase64);
        },
    };
    let data = match base64_decode(enc_pieces[1].as_slice()) {
        Some(data) => data,
        None => {
            return Err(CryptoError::InvalidBase64);
        },
    };
    let mac = match base64_decode(enc_pieces[2].as_slice()) {
        Some(mac) => mac,
        None => {
            return Err(CryptoError::InvalidBase64);
        },
    };

    // Verify the MAC before anything is decrypted.
    if !hmac_sha256_verify(mac_key, iv.as_slice(), data.as_slice(), mac.as_slice()) {
        return Err(CryptoError::MacMismatch);
    }
    if iv.len() != BLOCK_LEN {
        return Err(CryptoError::InvalidIvLength);
    }
    match aes256_cbc_decrypt(enc_key, iv.as_slice(), data.as_slice()) {
        Some(plain) => Ok(plain),
        None => Err(CryptoError::InvalidPadding),
    }
}

/// The key under which the fields of an item are encrypted: the key of the
/// item itself where it has one, decrypted under the account key, and the
/// account key otherwise.
pub open spec fn effective_key(account_key: Seq<u8>, intermediate_key: Option<Seq<char>>) -> Result<
    Seq<u8>,
    CryptoError,
> {
    match intermediate_key {
        Some(sealed) => decrypt_encstr(account_key, vstd::utf8::encode_utf8(sealed)),
        None => Ok(account_key),
    }
}

/// Opens the key under which the fields of an item are encrypted.
pub fn item_key(account_key: &[u8], intermediate_key: &Option<String>) -> (res: Result<
    Vec<u8>,
    CryptoError,
>)
    ensures
        decrypted_view(res) == effective_key(
            account_key@,
            crate::database::text_view(*intermediate_key),
        ),
{
    match intermediate_key {
        Some(sealed) => bw_decrypt_encstr(account_key, sealed.as_str()),
        None => Ok(slice_to_vec(account_key)),
    }
}

/// Whether two byte strings hold the same bytes.
pub fn bytes_equal(a: &[u8], b: &[u8]) -> (same: bool)
    ensures
        same == (a@ == b@),
{
    if a.len() != b.len() {
        return false;
    }
    let mut i: usize = 0;
    while i < a.len()
        invariant
            i <= a.len(),
            a@.len() == b@.len(),
            forall|k: int| 0 <= k < i ==> a@[k] == b@[k],
        decreases a.len() - i,
    {
        if a[i] != b[i] {
            return false;
        }
        i += 1;
    }
    assert(a@ =~= b@);
    true
}

/// Nothing is decrypted without a matching tag: where a decryption of IV,
/// ciphertext and tag succeeds, the tag is the HMAC-SHA-256 of IV and
/// ciphertext under the MAC half of the key.
pub proof fn lemma_output_is_authenticated(
    key: Seq<u8>,
    iv: Seq<u8>,
    ciphertext: Seq<u8>,
    tag: Seq<u8>,
)
    requires
        open_sealed(key, iv, ciphertext, tag) is Ok,
    ensures
        tag == hmac_sha256(key.skip(HASH_LEN as int), iv + ciphertext),
{
}

/// A tampered tag is rejected: where IV, ciphertext and tag are accepted,
/// the same IV and ciphertext with any other tag fail with `MacMismatch`.
pub proof fn lemma_tampered_tag_rejected(
    key: Seq<u8>,
    iv: Seq<u8>,
    ciphertext: Seq<u8>,
    tag: Seq<u8>,
    other_tag: Seq<u8>,
)
    requires
        open_sealed(key, iv, ciphertext, tag) is Ok,
        other_tag != tag,
    ensures
        open_sealed(key, iv, ciphertext, other_tag) == Err::<Seq<u8>, CryptoError>(
            CryptoError::MacMismatch,
        ),
{
}


/// Whether a byte does not occur in a text.
pub open spec fn free_of(text: Seq<u8>, byte: u8) -> bool {
    forall|i: int| 0 <= i < text.len() ==> #[trigger] text[i] != byte
}

/// The text of a vault ciphertext of the accepted scheme, put together
/// from its three base64 pieces.
pub open spec fn sealed_text(iv_text: Seq<u8>, ciphertext_text: Seq<u8>, tag_text: Seq<u8>) -> Seq<
    u8,
> {
    seq![0x32u8, 0x2e] + iv_text + seq![0x7cu8] + ciphertext_text + seq![0x7cu8] + tag_text
}

/// A text without the separator is one piece.
proof fn lemma_split_whole(text: Seq<u8>, separator: u8)
    requires
        free_of(text, separator),
    ensures
        split(text, separator) == seq![text],
    decreases text.len(),
{
    if text.len() == 0 {
        assert(text =~= Seq::<u8>::empty());
    } else {
        let front = text.drop_last();
        assert(free_of(front, separator)) by {
            assert forall|i: int| 0 <= i < front.len() implies #[trigger] front[i] != separator by {
                assert(text[i] != separator);
            }
        }
        lemma_split_whole(front, separator);
        assert(text[text.len() - 1] != separator);
        let before = split(front, separator);
        assert(before.drop_last() =~= Seq::<Seq<u8>>::empty());
        assert(before.last() == front);
        assert(front.push(text.last()) =~= text);
        assert(before.drop_last().push(before.last().push(text.last())) =~= seq![text]);
    }
}

/// A text without the separator, put behind another text, lengthens the
/// last piece of that text.
proof fn lemma_split_append(head: Seq<u8>, tail: Seq<u8>, separator: u8)
    requires
        free_of(tail, separator),
    ensures
        split(head + tail, separator) == split(head, separator).drop_last().push(
            split(head, separator).last() + tail,
        ),
    decreases tail.len(),
{
    lemma_split_nonempty(head, separator);
    let pieces = split(head, separator);
    if tail.len() == 0 {
        assert(head + tail =~= head);
        assert(pieces.last() + tail =~= pieces.last());
        assert(pieces.drop_last().push(pieces.last()) =~= pieces);
    } else {
        let front = tail.drop_last();
        assert(free_of(front, separator)) by {
            assert forall|i: int| 0 <= i < front.len() implies #[trigger] front[i] != separator by {
                assert(tail[i] != separator);
            }
        }
        lemma_split_append(head, front, separator);
        let whole = head + tail;
        assert(whole.drop_last() =~= head + front);
        assert(whole.last() == tail[tail.len() - 1]);
        assert(tail[tail.len() - 1] != separator);
        let before = split(head + front, separator);
        assert(before.drop_last() =~= pieces.drop_last());
        assert(before.last() == pieces.last() + front);
        assert((pieces.last() + front).push(tail.last()) =~= pieces.last() + tail);
    }
}

/// Two texts without the separator, put together around one, are cut into
/// themselves again.
proof fn lemma_split_pair(first: Seq<u8>, second: Seq<u8>, separator: u8)
    requires
        free_of(first, separator),
        free_of(second, separator),
    ensures
        split(first + seq![separator] + second, separator) == seq![first, second],
{
    let head = first + seq![separator];
    lemma_split_whole(first, separator);
    assert(head.drop_last() =~= first);
    assert(head.last() == separator);
    assert(split(head, separator) =~= seq![first, Seq::<u8>::empty()]);
    lemma_split_append(head, second, separator);
    assert(Seq::<u8>::empty() + second =~= second);
    assert(split(head + second, separator) =~= seq![first, second]);
}

/// A text that is put together from three pieces is taken apart into the
/// same three, as long as no piece holds a dot or a bar, which base64
/// never does.
pub proof fn lemma_sealed_text_pieces(iv_text: Seq<u8>, ciphertext_text: Seq<u8>, tag_text: Seq<u8>)
    requires
        free_of(iv_text, 0x2e) && free_of(iv_text, 0x7c),
        free_of(ciphertext_text, 0x2e) && free_of(ciphertext_text, 0x7c),
        free_of(tag_text, 0x2e) && free_of(tag_text, 0x7c),
    ensures
        encstr_pieces(sealed_text(iv_text, ciphertext_text, tag_text)) == Ok::<
            (Seq<u8>, Seq<u8>, Seq<u8>),
            CryptoError,
        >((iv_text, ciphertext_text, tag_text)),
{
    let scheme = seq![0x32u8];
    let front = iv_text + seq![0x7cu8] + ciphertext_text;
    let body = front + seq![0x7cu8] + tag_text;
    let text = sealed_text(iv_text, ciphertext_text, tag_text);
    assert(text =~= scheme + seq![0x2eu8] + body);
    assert(free_of(scheme, 0x2e));
    assert(free_of(body, 0x2e));
    lemma_split_pair(scheme, body, 0x2e);

    assert(unsigned_digits(scheme) == scheme);
    assert(scheme.drop_last() =~= Seq::<u8>::empty());
    assert(digits_value(scheme) == 2) by {
        reveal_with_fuel(digits_value, 2);
    }
    assert(decimal_u32(scheme) == Some(2u32));

    // The body is cut at its two bars.
    let head = iv_text + seq![0x7cu8];
    lemma_split_pair(iv_text, ciphertext_text, 0x7c);
    let inner = front + seq![0x7cu8];
    assert(inner.drop_last() =~= front);
    assert(inner.last() == 0x7cu8);
    assert(split(inner, 0x7c) =~= seq![iv_text, ciphertext_text, Seq::<u8>::empty()]);
    lemma_split_append(inner, tag_text, 0x7c);
    assert(Seq::<u8>::empty() + tag_text =~= tag_text);
    assert(split(body, 0x7c) =~= seq![iv_text, ciphertext_text, tag_text]);
}

/// What was sealed opens again. Take a key of 64 bytes, an IV of one
/// block, and a ciphertext that AES-256-CBC decrypts to a message under the
/// first half of the key. The text that holds the IV, the ciphertext and
/// their HMAC-SHA-256 under the second half of the key, each in base64,
/// decrypts to that message.
pub proof fn lemma_sealed_text_opens(
    key: Seq<u8>,
    iv: Seq<u8>,
    ciphertext: Seq<u8>,
    message: Seq<u8>,
    iv_text: Seq<u8>,
    ciphertext_text: Seq<u8>,
    tag_text: Seq<u8>,
)
    requires
        key.len() == EXPANDED_KEY_LEN,
        iv.len() == BLOCK_LEN,
        aes256_cbc_pkcs7_decrypt(key.take(HASH_LEN as int), iv, ciphertext) == Some(message),
        base64_standard_decode(iv_text) == Some(iv),
        base64_standard_decode(ciphertext_text) == Some(ciphertext),
        base64_standard_decode(tag_text) == Some(
            hmac_sha256(key.skip(HASH_LEN as int), iv + ciphertext),
        ),
        free_of(iv_text, 0x2e) && free_of(iv_text, 0x7c),
        free_of(ciphertext_text, 0x2e) && free_of(ciphertext_text, 0x7c),
        free_of(tag_text, 0x2e) && free_of(tag_text, 0x7c),
    ensures
        decrypt_encstr(key, sealed_text(iv_text, ciphertext_text, tag_text)) == Ok::<
            Seq<u8>,
            CryptoError,
        >(message),
{
    lemma_sealed_text_pieces(iv_text, ciphertext_text, tag_text);
}

} // verus!
