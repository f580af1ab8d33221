//! What is kept on disk: the identities and the session. The store holds
//! ciphertexts and the public half of each key, nothing else.

use vstd::prelude::*;

verus! {

/// A stored identity. `private_key` and `intermediate_key` are vault
/// ciphertexts; `id` is the vault's own name for the item.
#[derive(Debug, Clone, PartialEq, Eq)]
pub struct IdentityDto {
    pub id: String,
    pub name: String,
    pub public_key: Vec<u8>,
    pub private_key: String,
    pub intermediate_key: Option<String>,
}

/// A stored identity as a mathematical value.
pub struct IdentityDtoView {
    pub id: Seq<char>,
    pub name: Seq<char>,
    pub public_key: Seq<u8>,
    pub private_key: Seq<char>,
    pub intermediate_key: Option<Seq<char>>,
}

/// The text of an optional string.
pub open spec fn text_view(text: Option<String>) -> Option<Seq<char>> {
    match text {
        Some(t) => Some(t@),
        None => None,
    }
}

impl View for IdentityDto {
    type V = IdentityDtoView;

    open spec fn view(&self) -> IdentityDtoView {
        IdentityDtoView {
            id: self.id@,
            name: self.name@,
            public_key: self.public_key@,
            private_key: self.private_key@,
            intermediate_key: text_view(self.intermediate_key),
        }
    }
}

/// A copy of an optional string.
pub fn clone_text(text: &Option<String>) -> (copy: Option<String>)
    ensures
        text_view(copy) == text_view(*text),
{
    match text {
        Some(t) => Some(t.clone()),
        None => None,
    }
}

impl IdentityDto {
    /// A copy of the identity.
    pub fn duplicate(&self) -> (copy: IdentityDto)
        ensures
            copy@ == self@,
    {
        IdentityDto {
            id: self.id.clone(),
            name: self.name.clone(),
            public_key: self.public_key.clone(),
            private_key: self.private_key.clone(),
            intermediate_key: clone_text(&self.intermediate_key),
        }
    }
}

/// The stored identities of a list as mathematical values.
pub open spec fn identity_dto_views(identities: Seq<IdentityDto>) -> Seq<IdentityDtoView> {
    identities.map_values(|identity: IdentityDto| identity@)
}

/// The stored session. `master_key` and `symmetric_key` are sealed by the
/// keystore; only the sealing worker can open them.
#[derive(Debug, Clone, PartialEq, Eq)]
pub struct AuthDto {
    pub vault_url: String,
    pub access_token: String,
    pub refresh_token: String,
    pub expires_at: i64,
    pub master_key: Vec<u8>,
    pub symmetric_key: Vec<u8>,
}


/// The version of the schema that the agent works with.
pub const SCHEMA_VERSION: i32 = 1;

/// What has to happen to a store before it is used.
#[derive(Debug, Clone, Copy, PartialEq, Eq, Structural)]
pub enum Migration {
    /// The store is new: create the tables, and tag it with the version.
    Create,
    /// The store is up to date.
    Nothing,
    /// The store has a version that the agent does not know: refuse it.
    Refuse,
}

/// Decides what has to happen to a store that is tagged with a version. A
/// store without a tag has version 0.
pub fn migration(found: i32) -> (step: Migration)
    ensures
        step == (if found == 0 {
            Migration::Create
        } else if found == SCHEMA_VERSION {
            Migration::Nothing
        } else {
            Migration::Refuse
        }),
{
    if found == 0 {
        Migration::Create
    } else if found == SCHEMA_VERSION {
        Migration::Nothing
    } else {
        Migration::Refuse
    }
}

/// The table of identities as a mathematical value: a map from the id,
/// which is its primary key, to the row.
pub type IdentityTable = Map<Seq<char>, IdentityDtoView>;

/// Whether no two identities of a list have the same id.
pub open spec fn ids_distinct(identities: Seq<IdentityDtoView>) -> bool {
    forall|i: int, j: int|
        0 <= i < j < identities.len() ==> (#[trigger] identities[i]).id != (
        #[trigger] identities[j]).id
}

/// Whether no two identities of a list have the same public key.
pub open spec fn keys_distinct(identities: Seq<IdentityDtoView>) -> bool {
    forall|i: int, j: int|
        0 <= i < j < identities.len() ==> (#[trigger] identities[i]).public_key != (
        #[trigger] identities[j]).public_key
}

/// The table after each identity of a list was written by its id, in
/// order: a row with the same id is replaced, another is added.
pub open spec fn upsert_all(table: IdentityTable, identities: Seq<IdentityDtoView>) -> IdentityTable
    decreases identities.len(),
{
    if identities.len() == 0 {
        table
    } else {
        upsert_all(table, identities.drop_last()).insert(identities.last().id, identities.last())
    }
}

/// The table after each identity of a list was deleted by its id.
pub open spec fn delete_all(table: IdentityTable, identities: Seq<IdentityDtoView>) -> IdentityTable
    decreases identities.len(),
{
    if identities.len() == 0 {
        table
    } else {
        delete_all(table, identities.drop_last()).remove(identities.last().id)
    }
}

/// The table that holds the identities of a list and no others.
pub open spec fn table_of(identities: Seq<IdentityDtoView>) -> IdentityTable {
    upsert_all(Map::empty(), identities)
}

} // verus!
