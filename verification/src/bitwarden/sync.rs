//! The content of the vault as a sync hands it out. The structures hold only
//! what the agent reads.

use crate::database::text_view;
use vstd::prelude::*;

verus! {

/// What `GET {api}/sync` answers.
#[derive(Debug, Clone, PartialEq)]
pub struct SyncResponseModel {
    pub ciphers: Vec<CipherDetailsResponseModel>,
}

/// The kind of a vault item.
#[derive(Debug, Clone, Copy, PartialEq, Eq, Structural)]
pub enum CipherType {
    Login,
    SecureNote,
    Card,
    Identity,
}

impl CipherType {
    /// The number that stands for the kind in the vault's answers.
    pub open spec fn spec_code(self) -> u8 {
        match self {
            CipherType::Login => 1,
            CipherType::SecureNote => 2,
            CipherType::Card => 3,
            CipherType::Identity => 4,
        }
    }

    /// The number that stands for the kind in the vault's answers.
    pub fn code(&self) -> (code: u8)
        ensures
            code == self.spec_code(),
    {
        match self {
            CipherType::Login => 1,
            CipherType::SecureNote => 2,
            CipherType::Card => 3,
            CipherType::Identity => 4,
        }
    }

    /// The kind that a number stands for, if any.
    pub fn from_code(code: u8) -> (kind: Option<CipherType>)
        ensures
            match kind {
                Some(k) => k.spec_code() == code,
                None => forall|k: CipherType| k.spec_code() != code,
            },
    {
        match code {
            1 => Some(CipherType::Login),
            2 => Some(CipherType::SecureNote),
            3 => Some(CipherType::Card),
            4 => Some(CipherType::Identity),
            _ => None,
        }
    }
}

/// One item of the vault. `name`, `notes`, `key` and the fields are vault
/// ciphertexts.
#[derive(Debug, Clone, PartialEq)]
pub struct CipherDetailsResponseModel {
    pub creation_date: String,
    pub deleted_date: Option<String>,
    pub fields: Option<Vec<CipherFieldModel>>,
    pub id: String,
    pub name: Option<String>,
    pub notes: Option<String>,
    pub secure_note: Option<CipherSecureNoteModel>,
    pub type_field: CipherType,
    pub key: Option<String>,
}

/// The kind of a custom field.
#[derive(Debug, Clone, Copy, PartialEq, Eq, Structural)]
pub enum FieldType {
    Text,
    Hidden,
    Boolean,
    Linked,
}

impl FieldType {
    /// The number that stands for the kind in the vault's answers.
    pub open spec fn spec_code(self) -> i32 {
        match self {
            FieldType::Text => 0,
            FieldType::Hidden => 1,
            FieldType::Boolean => 2,
            FieldType::Linked => 3,
        }
    }

    /// The number that stands for the kind in the vault's answers.
    pub fn code(&self) -> (code: i32)
        ensures
            code == self.spec_code(),
    {
        match self {
            FieldType::Text => 0,
            FieldType::Hidden => 1,
            FieldType::Boolean => 2,
            FieldType::Linked => 3,
        }
    }

    /// The kind that a number stands for, if any.
    pub fn from_code(code: i32) -> (kind: Option<FieldType>)
        ensures
            match kind {
                Some(k) => k.spec_code() == code,
                None => forall|k: FieldType| k.spec_code() != code,
            },
    {
        match code {
            0 => Some(FieldType::Text),
            1 => Some(FieldType::Hidden),
            2 => Some(FieldType::Boolean),
            3 => Some(FieldType::Linked),
            _ => None,
        }
    }
}

/// A custom field of an item. Name and value are vault ciphertexts.
#[derive(Debug, Clone, PartialEq)]
pub struct CipherFieldModel {
    pub name: Option<String>,
    pub type_field: FieldType,
    pub value: Option<String>,
}

/// What marks an item as a secure note.
#[derive(Debug, Clone, Copy, PartialEq, Eq, Structural)]
pub struct CipherSecureNoteModel {
    pub type_field: u8,
}


/// A custom field as a mathematical value.
pub struct CipherFieldView {
    pub name: Option<Seq<char>>,
    pub type_field: FieldType,
    pub value: Option<Seq<char>>,
}

impl View for CipherFieldModel {
    type V = CipherFieldView;

    open spec fn view(&self) -> CipherFieldView {
        CipherFieldView {
            name: text_view(self.name),
            type_field: self.type_field,
            value: text_view(self.value),
        }
    }
}

/// The custom fields of a list as mathematical values.
pub open spec fn field_views(fields: Seq<CipherFieldModel>) -> Seq<CipherFieldView> {
    fields.map_values(|field: CipherFieldModel| field@)
}

/// An item of the vault as a mathematical value.
pub struct CipherView {
    pub creation_date: Seq<char>,
    pub deleted_date: Option<Seq<char>>,
    pub fields: Option<Seq<CipherFieldView>>,
    pub id: Seq<char>,
    pub name: Option<Seq<char>>,
    pub notes: Option<Seq<char>>,
    pub secure_note: Option<CipherSecureNoteModel>,
    pub type_field: CipherType,
    pub key: Option<Seq<char>>,
}

impl View for CipherDetailsResponseModel {
    type V = CipherView;

    open spec fn view(&self) -> CipherView {
        CipherView {
            creation_date: self.creation_date@,
            deleted_date: text_view(self.deleted_date),
            fields: match self.fields {
                Some(fields) => Some(field_views(fields@)),
                None => None,
            },
            id: self.id@,
            name: text_view(self.name),
            notes: text_view(self.notes),
            secure_note: self.secure_note,
            type_field: self.type_field,
            key: text_view(self.key),
        }
    }
}

/// The items of a list as mathematical values.
pub open spec fn cipher_views(ciphers: Seq<CipherDetailsResponseModel>) -> Seq<CipherView> {
    ciphers.map_values(|cipher: CipherDetailsResponseModel| cipher@)
}

/// Whether an item can hold a key for the agent: it is a secure note, and
/// it is not deleted.
pub open spec fn is_live_secure_note(cipher: CipherView) -> bool {
    &&& cipher.type_field == CipherType::SecureNote
    &&& cipher.secure_note is Some
    &&& cipher.deleted_date is None
}

impl CipherDetailsResponseModel {
    /// Whether the item can hold a key for the agent.
    pub fn is_live_secure_note(&self) -> (live: bool)
        ensures
            live == is_live_secure_note(self@),
    {
        let is_note = match self.type_field {
            CipherType::SecureNote => true,
            _ => false,
        };
        is_note && self.secure_note.is_some() && self.deleted_date.is_none()
    }
}

} // verus!
