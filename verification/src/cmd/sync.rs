//! The sync: which notes of the vault expose a key to the agent, and what
//! has to change in the store so that it holds the exposed keys and no
//! others.
//!
//! A secure note is exposed by a custom field whose name is
//! `desu.tei.bw-ssh-agent:expose` and whose value is `1` or `true`. Its
//! body is the private key, its name the name of the identity.

use crate::bitwarden::crypto::{
    bw_decrypt_encstr, bytes_equal, decrypt_encstr, effective_key, item_key, CryptoError,
};
use crate::bitwarden::primitives::{wipe, wipe_text};
use crate::bitwarden::sync::{
    cipher_views, field_views, is_live_secure_note, CipherDetailsResponseModel, CipherFieldModel,
    CipherFieldView, CipherView,
};
use crate::agent::protocol::string_from_utf8;
use crate::database::{clone_text, identity_dto_views, IdentityDto, IdentityDtoView};
use crate::keys::{openssh_public_blob, public_blob, PublicBlobError};
use vstd::prelude::*;
use vstd::string::StringSliceAdditionalSpecFns;
use vstd::utf8::{decode_utf8, encode_utf8, valid_utf8};

verus! {

/// The name of the custom field that exposes a note to the agent.
pub const BW_EXPOSE_FIELD: &'static str = "desu.tei.bw-ssh-agent:expose";

/// Why a note gave no key.
#[derive(Debug, Clone, Copy, PartialEq, Eq, Structural)]
pub enum ExtractError {
    /// A ciphertext of the note could not be decrypted.
    Crypto(CryptoError),
    /// The body or the name of the note is not UTF-8.
    InvalidUtf8,
    /// The note has no name.
    MissingName,
}

impl ExtractError {
    /// What the error says.
    pub open spec fn text(self) -> Seq<char> {
        match self {
            ExtractError::Crypto(e) => e.text(),
            ExtractError::InvalidUtf8 => "invalid utf-8 sequence"@,
            ExtractError::MissingName => "the note has no name"@,
        }
    }

    /// A sentence for the log.
    pub fn message(&self) -> (text: &'static str)
        ensures
            text@ == self.text(),
    {
        match self {
            ExtractError::Crypto(e) => e.message(),
            ExtractError::InvalidUtf8 => "invalid utf-8 sequence",
            ExtractError::MissingName => "the note has no name",
        }
    }
}

/// Whether the value of the expose field says yes.
pub open spec fn says_yes(value: Seq<u8>) -> bool {
    value == encode_utf8("1"@) || value == encode_utf8("true"@)
}

/// Whether a custom field exposes its note, under the key of the note. A
/// field without a name, with another name or without a value does not.
pub open spec fn field_exposes(field: CipherFieldView, key: Seq<u8>) -> Result<bool, CryptoError> {
    match field.name {
        None => Ok(false),
        Some(name) => match decrypt_encstr(key, encode_utf8(name)) {
            Err(e) => Err(e),
            Ok(plain_name) => if plain_name != encode_utf8(BW_EXPOSE_FIELD@) {
                Ok(false)
            } else {
                match field.value {
                    None => Ok(false),
                    Some(value) => match decrypt_encstr(key, encode_utf8(value)) {
                        Err(e) => Err(e),
                        Ok(plain_value) => Ok(says_yes(plain_value)),
                    },
                }
            },
        },
    }
}

/// Whether one of the custom fields exposes the note. The fields are read
/// in order, all of them, and the first that cannot be decrypted fails the
/// whole.
pub open spec fn fields_expose(fields: Seq<CipherFieldView>, key: Seq<u8>) -> Result<
    bool,
    CryptoError,
>
    decreases fields.len(),
{
    if fields.len() == 0 {
        Ok(false)
    } else {
        match fields_expose(fields.drop_last(), key) {
            Err(e) => Err(e),
            Ok(before) => match field_exposes(fields.last(), key) {
                Err(e) => Err(e),
                Ok(here) => Ok(before || here),
            },
        }
    }
}

/// What an exposed note gives: the name of the identity, the private key
/// in the OpenSSH format, and the body of the note as the vault has it.
pub struct ExposedKeyView {
    pub name: Seq<char>,
    pub private_key: Seq<char>,
    pub encrypted_private_key: Seq<char>,
}

/// The key that an item of the vault exposes under the account key, if it
/// exposes one.
pub open spec fn extract_key(cipher: CipherView, symmetric_key: Seq<u8>) -> Result<
    Option<ExposedKeyView>,
    ExtractError,
> {
    match cipher.fields {
        None => Ok(None),
        Some(fields) => match effective_key(symmetric_key, cipher.key) {
            Err(e) => Err(ExtractError::Crypto(e)),
            Ok(cipher_key) => match fields_expose(fields, cipher_key) {
                Err(e) => Err(ExtractError::Crypto(e)),
                Ok(exposed) => if !exposed {
                    Ok(None)
                } else {
                    match cipher.notes {
                        None => Ok(None),
                        Some(note) => note_key(cipher, cipher_key, note),
                    }
                },
            },
        },
    }
}

/// The key in the body of an exposed note.
pub open spec fn note_key(cipher: CipherView, cipher_key: Seq<u8>, note: Seq<char>) -> Result<
    Option<ExposedKeyView>,
    ExtractError,
> {
    match decrypt_encstr(cipher_key, encode_utf8(note)) {
        Err(e) => Err(ExtractError::Crypto(e)),
        Ok(key_text) => if !valid_utf8(key_text) {
            Err(ExtractError::InvalidUtf8)
        } else {
            match cipher.name {
                None => Err(ExtractError::MissingName),
                Some(sealed_name) => match decrypt_encstr(cipher_key, encode_utf8(sealed_name)) {
                    Err(e) => Err(ExtractError::Crypto(e)),
                    Ok(name) => if !valid_utf8(name) {
                        Err(ExtractError::InvalidUtf8)
                    } else {
                        Ok(
                            Some(
                                ExposedKeyView {
                                    name: decode_utf8(name),
                                    private_key: decode_utf8(key_text),
                                    encrypted_private_key: note,
                                },
                            ),
                        )
                    },
                },
            }
        },
    }
}

/// What was extracted from a note as a mathematical value.
pub open spec fn extracted_view(res: Result<Option<(String, String, &String)>, ExtractError>) -> Result<
    Option<ExposedKeyView>,
    ExtractError,
> {
    match res {
        Ok(Some((name, private_key, encrypted_private_key))) => Ok(
            Some(
                ExposedKeyView {
                    name: name@,
                    private_key: private_key@,
                    encrypted_private_key: encrypted_private_key@,
                },
            ),
        ),
        Ok(None) => Ok(None),
        Err(e) => Err(e),
    }
}

fn exposes(field: &CipherFieldModel, cipher_key: &[u8]) -> (res: Result<bool, CryptoError>)
    ensures
        res == field_exposes(field@, cipher_key@),
{
    let name = match &field.name {
        Some(name) => name,
        None => {
            return Ok(false);
        },
    };
    let plain_name = match bw_decrypt_encstr(cipher_key, name.as_str()) {
        Ok(plain_name) => plain_name,
        Err(e) => {
            return Err(e);
        },
    };
    if !bytes_equal(plain_name.as_slice(), BW_EXPOSE_FIELD.as_bytes()) {
        return Ok(false);
    }
    let value = match &field.value {
        Some(value) => value,
        None => {
            return Ok(false);
        },
    };
    match bw_decrypt_encstr(cipher_key, value.as_str()) {
        Ok(plain_value) => Ok(
            bytes_equal(plain_value.as_slice(), "1".as_bytes()) || bytes_equal(
                plain_value.as_slice(),
                "true".as_bytes(),
            ),
        ),
        Err(e) => Err(e),
    }
}

fn any_exposes(fields: &Vec<CipherFieldModel>, cipher_key: &[u8]) -> (res: Result<
    bool,
    CryptoError,
>)
    ensures
        res == fields_expose(field_views(fields@), cipher_key@),
{
    let ghost all = field_views(fields@);
    let mut expose = false;
    let mut i: usize = 0;
    while i < fields.len()
        invariant
            i <= fields.len(),
            all == field_views(fields@),
            fields_expose(all.take(i as int), cipher_key@) == Ok::<bool, CryptoError>(expose),
        decreases fields.len() - i,
    {
        proof {
            let next = all.take(i + 1);
            assert(next.drop_last() =~= all.take(i as int));
            assert(next.last() == fields@[i as int]@);
        }
        match exposes(&fields[i], cipher_key) {
            Ok(here) => {
                if here {
                    expose = true;
                }
            },
            Err(e) => {
                proof {
                    lemma_fields_expose_fails(all, i + 1, cipher_key@);
                }
                return Err(e);
            },
        }
        i += 1;
    }
    assert(all.take(i as int) =~= all);
    Ok(expose)
}

/// A failure among the first fields is the failure of the whole.
proof fn lemma_fields_expose_fails(fields: Seq<CipherFieldView>, n: int, key: Seq<u8>)
    requires
        0 <= n <= fields.len(),
        fields_expose(fields.take(n), key) is Err,
    ensures
        fields_expose(fields, key) == fields_expose(fields.take(n), key),
    decreases fields.len() - n,
{
    if n == fields.len() {
        assert(fields.take(n) =~= fields);
    } else {
        let next = fields.take(n + 1);
        assert(next.drop_last() =~= fields.take(n));
        lemma_fields_expose_fails(fields, n + 1, key);
    }
}

/// Reads the key that an item of the vault exposes, if it exposes one:
/// the name of the identity, the private key, and the body of the note as
/// the vault has it.
pub fn extract_key_from_cipher<'a>(
    cipher: &'a CipherDetailsResponseModel,
    symmetric_key: &[u8],
) -> (res: Result<Option<(String, String, &'a String)>, ExtractError>)
    ensures
        extracted_view(res) == extract_key(cipher@, symmetric_key@),
{
    let fields = match &cipher.fields {
        Some(fields) => fields,
        None => {
            return Ok(None);
        },
    };
    let mut cipher_key = match item_key(symmetric_key, &cipher.key) {
        Ok(cipher_key) => cipher_key,
        Err(e) => {
            return Err(ExtractError::Crypto(e));
        },
    };
    let res = extract_with_key(cipher, fields, cipher_key.as_slice());
    wipe(&mut cipher_key);
    res
}

fn extract_with_key<'a>(
    cipher: &'a CipherDetailsResponseModel,
    fields: &Vec<CipherFieldModel>,
    cipher_key: &[u8],
) -> (res: Result<Option<(String, String, &'a String)>, ExtractError>)
    requires
        cipher@.fields == Some(field_views(fields@)),
    ensures
        extracted_view(res) == (match fields_expose(field_views(fields@), cipher_key@) {
            Err(e) => Err(ExtractError::Crypto(e)),
            Ok(exposed) => if !exposed {
                Ok(None)
            } else {
                match cipher@.notes {
                    None => Ok(None),
                    Some(note) => note_key(cipher@, cipher_key@, note),
                }
            },
        }),
{
    match any_exposes(fields, cipher_key) {
        Ok(true) => {},
        Ok(false) => {
            return Ok(None);
        },
        Err(e) => {
            return Err(ExtractError::Crypto(e));
        },
    }
    let encrypted_private_key = match &cipher.notes {
        Some(note) => note,
        None => {
            return Ok(None);
        },
    };
    let key_text = match bw_decrypt_encstr(cipher_key, encrypted_private_key.as_str()) {
        Ok(key_text) => key_text,
        Err(e) => {
            return Err(ExtractError::Crypto(e));
        },
    };
    let private_key = match string_from_utf8(key_text) {
        Some(private_key) => private_key,
        None => {
            return Err(ExtractError::InvalidUtf8);
        },
    };
    let sealed_name = match &cipher.name {
        Some(sealed_name) => sealed_name,
        None => {
            return Err(ExtractError::MissingName);
        },
    };
    let name_bytes = match bw_decrypt_encstr(cipher_key, sealed_name.as_str()) {
        Ok(name_bytes) => name_bytes,
        Err(e) => {
            return Err(ExtractError::Crypto(e));
        },
    };
    let name = match string_from_utf8(name_bytes) {
        Some(name) => name,
        None => {
            return Err(ExtractError::InvalidUtf8);
        },
    };
    Ok(Some((name, private_key, encrypted_private_key)))
}


/// A note that was passed over, for the log.
#[derive(Debug, Clone, PartialEq, Eq)]
pub enum Skipped {
    /// No key could be read from the note.
    ExtractFailed { cipher_id: String, error: ExtractError },
    /// The body of the note is no private key in the OpenSSH format.
    KeyRejected { name: String },
}

/// A note that was passed over, as a mathematical value.
pub enum SkippedView {
    ExtractFailed { cipher_id: Seq<char>, error: ExtractError },
    KeyRejected { name: Seq<char> },
}

impl View for Skipped {
    type V = SkippedView;

    open spec fn view(&self) -> SkippedView {
        match self {
            Skipped::ExtractFailed { cipher_id, error } => SkippedView::ExtractFailed {
                cipher_id: cipher_id@,
                error: *error,
            },
            Skipped::KeyRejected { name } => SkippedView::KeyRejected { name: name@ },
        }
    }
}

/// The notes of a list that were passed over, as mathematical values.
pub open spec fn skipped_views(skipped: Seq<Skipped>) -> Seq<SkippedView> {
    skipped.map_values(|note: Skipped| note@)
}

/// What one item of the vault contributes to a sync.
pub enum Observation {
    /// Nothing: the item is no live secure note, or it is not exposed.
    Ignored,
    /// A line in the log.
    Skipped(SkippedView),
    /// An identity.
    Exposed(IdentityDtoView),
    /// The end of the sync: the public key could not be encoded.
    Fatal,
}

/// What an item of the vault contributes to a sync under the account key.
pub open spec fn observe(cipher: CipherView, symmetric_key: Seq<u8>) -> Observation {
    if !is_live_secure_note(cipher) {
        Observation::Ignored
    } else {
        match extract_key(cipher, symmetric_key) {
            Ok(None) => Observation::Ignored,
            Err(error) => Observation::Skipped(
                SkippedView::ExtractFailed { cipher_id: cipher.id, error },
            ),
            Ok(Some(exposed)) => match openssh_public_blob(encode_utf8(exposed.private_key)) {
                Err(PublicBlobError::Parse) => Observation::Skipped(
                    SkippedView::KeyRejected { name: exposed.name },
                ),
                Err(PublicBlobError::Encode) => Observation::Fatal,
                Ok(public_key) => Observation::Exposed(
                    IdentityDtoView {
                        id: cipher.id,
                        name: exposed.name,
                        public_key,
                        private_key: exposed.encrypted_private_key,
                        intermediate_key: cipher.key,
                    },
                ),
            },
        }
    }
}

/// What the items of the vault contribute to a sync, taken together.
pub struct Survey {
    /// The identities that the vault exposes, in the order of the items.
    pub observed: Seq<IdentityDtoView>,
    /// The notes that were passed over, in the order of the items.
    pub skipped: Seq<SkippedView>,
    /// Whether the sync ended early.
    pub aborted: bool,
}

/// Reads the items of the vault in order, up to the first that ends the
/// sync.
pub open spec fn survey(ciphers: Seq<CipherView>, symmetric_key: Seq<u8>) -> Survey
    decreases ciphers.len(),
{
    if ciphers.len() == 0 {
        Survey { observed: Seq::empty(), skipped: Seq::empty(), aborted: false }
    } else {
        let before = survey(ciphers.drop_last(), symmetric_key);
        if before.aborted {
            before
        } else {
            match observe(ciphers.last(), symmetric_key) {
                Observation::Ignored => before,
                Observation::Skipped(note) => Survey {
                    skipped: before.skipped.push(note),
                    ..before
                },
                Observation::Exposed(identity) => Survey {
                    observed: before.observed.push(identity),
                    ..before
                },
                Observation::Fatal => Survey { aborted: true, ..before },
            }
        }
    }
}

/// The first identity of a list that has a given id.
pub open spec fn find_by_id(identities: Seq<IdentityDtoView>, id: Seq<char>) -> Option<
    IdentityDtoView,
>
    decreases identities.len(),
{
    if identities.len() == 0 {
        None
    } else if identities[0].id == id {
        Some(identities[0])
    } else {
        find_by_id(identities.drop_first(), id)
    }
}

/// Whether an exposed identity has to be written: the store does not know
/// its id, or knows it under another name or with another public key.
pub open spec fn needs_upsert(stored: Seq<IdentityDtoView>, identity: IdentityDtoView) -> bool {
    match find_by_id(stored, identity.id) {
        Some(old) => old.name != identity.name || old.public_key != identity.public_key,
        None => true,
    }
}

/// The exposed identities that have to be written, in order.
pub open spec fn upserts_of(observed: Seq<IdentityDtoView>, stored: Seq<IdentityDtoView>) -> Seq<
    IdentityDtoView,
>
    decreases observed.len(),
{
    if observed.len() == 0 {
        Seq::empty()
    } else {
        let before = upserts_of(observed.drop_last(), stored);
        if needs_upsert(stored, observed.last()) {
            before.push(observed.last())
        } else {
            before
        }
    }
}

/// Whether a list of identities has one with a given id.
pub open spec fn has_id(identities: Seq<IdentityDtoView>, id: Seq<char>) -> bool {
    exists|k: int| 0 <= k < identities.len() && (#[trigger] identities[k]).id == id
}

/// Whether a list of identities has one with a given public key.
pub open spec fn has_key(identities: Seq<IdentityDtoView>, public_key: Seq<u8>) -> bool {
    exists|k: int| 0 <= k < identities.len() && (#[trigger] identities[k]).public_key == public_key
}

/// Whether a stored identity is stale once the exposed identities are
/// written: it was not written in this run, and no exposed identity has its
/// public key.
pub open spec fn is_stale(
    identity: IdentityDtoView,
    observed: Seq<IdentityDtoView>,
    upserts: Seq<IdentityDtoView>,
) -> bool {
    !has_id(upserts, identity.id) && !has_key(observed, identity.public_key)
}

/// The stored identities that have to go, in the order of the store.
pub open spec fn deletes_of(
    stored: Seq<IdentityDtoView>,
    observed: Seq<IdentityDtoView>,
    upserts: Seq<IdentityDtoView>,
) -> Seq<IdentityDtoView>
    decreases stored.len(),
{
    if stored.len() == 0 {
        Seq::empty()
    } else {
        let before = deletes_of(stored.drop_last(), observed, upserts);
        if is_stale(stored.last(), observed, upserts) {
            before.push(stored.last())
        } else {
            before
        }
    }
}

/// What a sync changes in the store: first the upserts, by id, then the
/// deletes.
#[derive(Debug, Clone, PartialEq, Eq)]
pub struct SyncPlan {
    /// The identities to write, in the order of the vault's items.
    pub upserts: Vec<IdentityDto>,
    /// The identities to delete, in the order of the store.
    pub deletes: Vec<IdentityDto>,
    /// The notes that were passed over, for the log.
    pub skipped: Vec<Skipped>,
    /// The number of keys that the vault exposes.
    pub found: usize,
    /// Whether the sync ended early, before anything was deleted.
    pub aborted: bool,
}

/// The changes of a sync as a mathematical value.
pub struct SyncPlanView {
    pub upserts: Seq<IdentityDtoView>,
    pub deletes: Seq<IdentityDtoView>,
    pub skipped: Seq<SkippedView>,
    pub found: nat,
    pub aborted: bool,
}

impl View for SyncPlan {
    type V = SyncPlanView;

    open spec fn view(&self) -> SyncPlanView {
        SyncPlanView {
            upserts: identity_dto_views(self.upserts@),
            deletes: identity_dto_views(self.deletes@),
            skipped: skipped_views(self.skipped@),
            found: self.found as nat,
            aborted: self.aborted,
        }
    }
}

/// What a sync of the vault's items changes in a store. Every exposed
/// identity that the store does not have under its id with the same name
/// and public key is written. Every stored identity that is stale after
/// that is deleted, unless the sync ended early.
pub open spec fn sync_plan(
    ciphers: Seq<CipherView>,
    symmetric_key: Seq<u8>,
    stored: Seq<IdentityDtoView>,
) -> SyncPlanView {
    let seen = survey(ciphers, symmetric_key);
    let upserts = upserts_of(seen.observed, stored);
    SyncPlanView {
        upserts,
        deletes: if seen.aborted {
            Seq::empty()
        } else {
            deletes_of(stored, seen.observed, upserts)
        },
        skipped: seen.skipped,
        found: seen.observed.len(),
        aborted: seen.aborted,
    }
}

/// Once a sync has ended early, later items change nothing.
proof fn lemma_survey_aborted(ciphers: Seq<CipherView>, n: int, symmetric_key: Seq<u8>)
    requires
        0 <= n <= ciphers.len(),
        survey(ciphers.take(n), symmetric_key).aborted,
    ensures
        survey(ciphers, symmetric_key) == survey(ciphers.take(n), symmetric_key),
    decreases ciphers.len() - n,
{
    if n == ciphers.len() {
        assert(ciphers.take(n) =~= ciphers);
    } else {
        let next = ciphers.take(n + 1);
        assert(next.drop_last() =~= ciphers.take(n));
        lemma_survey_aborted(ciphers, n + 1, symmetric_key);
    }
}

/// No more identities are exposed than there are items.
proof fn lemma_survey_bounded(ciphers: Seq<CipherView>, symmetric_key: Seq<u8>)
    ensures
        survey(ciphers, symmetric_key).observed.len() <= ciphers.len(),
    decreases ciphers.len(),
{
    if ciphers.len() > 0 {
        lemma_survey_bounded(ciphers.drop_last(), symmetric_key);
    }
}

fn find_identity<'a>(stored: &'a Vec<IdentityDto>, id: &String) -> (found: Option<&'a IdentityDto>)
    ensures
        match found {
            Some(identity) => find_by_id(identity_dto_views(stored@), id@) == Some(identity@),
            None => find_by_id(identity_dto_views(stored@), id@) is None,
        },
{
    let ghost all = identity_dto_views(stored@);
    let mut i: usize = 0;
    assert(all.skip(0) =~= all);
    while i < stored.len()
        invariant
            i <= stored.len(),
            all == identity_dto_views(stored@),
            find_by_id(all, id@) == find_by_id(all.skip(i as int), id@),
        decreases stored.len() - i,
    {
        proof {
            assert(all.skip(i as int)[0] == stored@[i as int]@);
            assert(all.skip(i as int).drop_first() =~= all.skip(i + 1));
        }
        if stored[i].id == *id {
            return Some(&stored[i]);
        }
        i += 1;
    }
    None
}

fn contains_id(identities: &Vec<IdentityDto>, id: &String) -> (found: bool)
    ensures
        found == has_id(identity_dto_views(identities@), id@),
{
    let ghost all = identity_dto_views(identities@);
    let mut i: usize = 0;
    while i < identities.len()
        invariant
            i <= identities.len(),
            all == identity_dto_views(identities@),
            forall|k: int| 0 <= k < i ==> (#[trigger] all[k]).id != id@,
        decreases identities.len() - i,
    {
        if identities[i].id == *id {
            assert(all[i as int].id == id@);
            return true;
        }
        i += 1;
    }
    false
}

fn contains_key(keys: &Vec<Vec<u8>>, public_key: &[u8]) -> (found: bool)
    ensures
        found == (exists|k: int| 0 <= k < keys@.len() && (#[trigger] keys@[k])@ == public_key@),
{
    let mut i: usize = 0;
    while i < keys.len()
        invariant
            i <= keys.len(),
            forall|k: int| 0 <= k < i ==> (#[trigger] keys@[k])@ != public_key@,
        decreases keys.len() - i,
    {
        if bytes_equal(keys[i].as_slice(), public_key) {
            return true;
        }
        i += 1;
    }
    false
}

/// Works out what a sync changes in the store, from the items that the
/// vault handed out, the account key, and the identities that the store
/// holds.
pub fn sync_keys(
    ciphers: &Vec<CipherDetailsResponseModel>,
    symmetric_key: &[u8],
    identities: &Vec<IdentityDto>,
) -> (plan: SyncPlan)
    ensures
        plan@ == sync_plan(cipher_views(ciphers@), symmetric_key@, identity_dto_views(identities@)),
{
    let ghost all = cipher_views(ciphers@);
    let ghost stored = identity_dto_views(identities@);
    let ghost key = symmetric_key@;
    let mut found: usize = 0;
    let mut aborted = false;
    let mut skipped: Vec<Skipped> = Vec::new();
    let mut upserts: Vec<IdentityDto> = Vec::new();
    let mut new_identities: Vec<Vec<u8>> = Vec::new();

    let mut i: usize = 0;
    while i < ciphers.len() && !aborted
        invariant
            i <= ciphers.len(),
            all == cipher_views(ciphers@),
            stored == identity_dto_views(identities@),
            key == symmetric_key@,
            survey(all.take(i as int), key).aborted == aborted,
            survey(all.take(i as int), key).skipped == skipped_views(skipped@),
            survey(all.take(i as int), key).observed.len() == found,
            new_identities@.len() == found,
            forall|k: int|
                0 <= k < found ==> (#[trigger] new_identities@[k])@ == survey(
                    all.take(i as int),
                    key,
                ).observed[k].public_key,
            identity_dto_views(upserts@) == upserts_of(
                survey(all.take(i as int), key).observed,
                stored,
            ),
        decreases ciphers.len() - i,
    {
        let cipher = &ciphers[i];
        let ghost before = survey(all.take(i as int), key);
        proof {
            let next = all.take(i + 1);
            assert(next.drop_last() =~= all.take(i as int));
            assert(next.last() == cipher@);
            lemma_survey_bounded(all.take(i as int), key);
        }
        i += 1;
        if !cipher.is_live_secure_note() {
            continue ;
        }
        let (name, mut private_key, encrypted_private_key) = match extract_key_from_cipher(
            cipher,
            symmetric_key,
        ) {
            Ok(Some(keys)) => keys,
            Ok(None) => {
                continue ;
            },
            Err(error) => {
                let ghost old_skipped = skipped_views(skipped@);
                let note = Skipped::ExtractFailed { cipher_id: cipher.id.clone(), error };
                skipped.push(note);
                assert(skipped_views(skipped@) =~= old_skipped.push(note@));
                continue ;
            },
        };
        let blob = public_blob(private_key.as_str().as_bytes());
        wipe_text(&mut private_key);
        let pub_key = match blob {
            Ok(pub_key) => pub_key,
            Err(PublicBlobError::Parse) => {
                let ghost old_skipped = skipped_views(skipped@);
                let note = Skipped::KeyRejected { name };
                skipped.push(note);
                assert(skipped_views(skipped@) =~= old_skipped.push(note@));
                continue ;
            },
            Err(PublicBlobError::Encode) => {
                aborted = true;
                continue ;
            },
        };
        found += 1;

        let should_update = match find_identity(identities, &cipher.id) {
            Some(old) => old.name != name || !bytes_equal(
                old.public_key.as_slice(),
                pub_key.as_slice(),
            ),
            None => true,
        };
        let identity = IdentityDto {
            id: cipher.id.clone(),
            name,
            public_key: pub_key.clone(),
            private_key: encrypted_private_key.clone(),
            intermediate_key: clone_text(&cipher.key),
        };
        proof {
            let now = survey(all.take(i as int), key);
            assert(now.observed == before.observed.push(identity@));
            assert(now.observed.drop_last() =~= before.observed);
            assert(should_update == needs_upsert(stored, identity@));
        }
        if should_update {
            let ghost old_upserts = identity_dto_views(upserts@);
            upserts.push(identity);
            assert(identity_dto_views(upserts@) =~= old_upserts.push(identity@));
        }
        new_identities.push(pub_key);
    }
    proof {
        if aborted {
            lemma_survey_aborted(all, i as int, key);
        } else {
            assert(all.take(i as int) =~= all);
        }
    }
    let ghost seen = survey(all, key);

    // Delete the identities that the vault no longer exposes.
    let mut deletes: Vec<IdentityDto> = Vec::new();
    if !aborted {
        let mut j: usize = 0;
        while j < identities.len()
            invariant
                j <= identities.len(),
                stored == identity_dto_views(identities@),
                new_identities@.len() == seen.observed.len(),
                forall|k: int|
                    0 <= k < seen.observed.len() ==> (#[trigger] new_identities@[k])@
                        == seen.observed[k].public_key,
                identity_dto_views(deletes@) == deletes_of(
                    stored.take(j as int),
                    seen.observed,
                    identity_dto_views(upserts@),
                ),
            decreases identities.len() - j,
        {
            let old = &identities[j];
            proof {
                let next = stored.take(j + 1);
                assert(next.drop_last() =~= stored.take(j as int));
                assert(next.last() == old@);
            }
            let written = contains_id(&upserts, &old.id);
            let exposed = contains_key(&new_identities, old.public_key.as_slice());
            proof {
                if exposed {
                    let k = choose|k: int|
                        0 <= k < new_identities@.len() && (#[trigger] new_identities@[k])@
                            == old.public_key@;
                    assert(seen.observed[k].public_key == old@.public_key);
                }
                if has_key(seen.observed, old@.public_key) {
                    let k = choose|k: int|
                        0 <= k < seen.observed.len() && (#[trigger] seen.observed[k]).public_key
                            == old@.public_key;
                    assert(new_identities@[k]@ == old.public_key@);
                }
                assert(exposed == has_key(seen.observed, old@.public_key));
            }
            if !written && !exposed {
                let ghost old_deletes = identity_dto_views(deletes@);
                deletes.push(old.duplicate());
                assert(identity_dto_views(deletes@) =~= old_deletes.push(old@));
            }
            j += 1;
        }
        assert(stored.take(j as int) =~= stored);
    }
    let plan = SyncPlan { upserts, deletes, skipped, found, aborted };
    assert(plan@.deletes =~= sync_plan(all, key, stored).deletes);
    plan
}

} // verus!
