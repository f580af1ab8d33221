//! The sealing worker: what it does with each command, and what its
//! callers read from its responses.
//!
//! The keystore is not safe to call from several threads and may prompt
//! the user, so one worker owns the handles of the keypair and serves one
//! command at a time. The calls into the keystore are made by the thread
//! that runs the worker; the decisions around them are made here.

use vstd::prelude::*;
use vstd::string::StringExecFns;

verus! {

/// The label under which the keypair is kept in the keystore.
pub const KEY_LABEL: &'static str = "desu.tei.bw-ssh-agent.main-key";

/// What is said where data is to be sealed and the worker has no public
/// key.
pub const NO_PUBLIC_KEY: &'static str = "No public key available";

/// What is said where data is to be opened and the worker has no private
/// key.
pub const NO_PRIVATE_KEY: &'static str = "No private key available";

/// What is said where the worker answers with something that was not asked
/// for, or not at all.
pub const UNEXPECTED_RESPONSE: &'static str = "Unexpected response";

/// A command for the worker.
#[derive(Debug, Clone, PartialEq, Eq)]
pub enum KeychainCommand {
    EnsureKeypair,
    EncryptData(Vec<u8>),
    DecryptData(Vec<u8>),
    Terminate,
}

/// A response of the worker.
#[derive(Debug, Clone, PartialEq, Eq)]
pub enum KeychainResponse {
    /// The command was carried out.
    Done,
    /// The command was carried out, and this came of it.
    OkWithData(Vec<u8>),
    /// The command failed.
    Failed(String),
}

/// A response as a mathematical value.
pub enum KeychainResponseView {
    Done,
    OkWithData(Seq<u8>),
    Failed(Seq<char>),
}

impl View for KeychainResponse {
    type V = KeychainResponseView;

    open spec fn view(&self) -> KeychainResponseView {
        match self {
            KeychainResponse::Done => KeychainResponseView::Done,
            KeychainResponse::OkWithData(data) => KeychainResponseView::OkWithData(data@),
            KeychainResponse::Failed(text) => KeychainResponseView::Failed(text@),
        }
    }
}

/// What the worker does next.
#[derive(Debug, Clone, PartialEq, Eq)]
pub enum WorkerStep {
    /// Drop the handles and end the thread.
    Stop,
    /// Look the private key up in the keystore by its label.
    FindKey,
    /// Generate a keypair in the keystore under the label.
    GenerateKey,
    /// Seal the data with the public key.
    Encrypt(Vec<u8>),
    /// Open the data with the private key. The keystore may prompt the
    /// user.
    Decrypt(Vec<u8>),
    /// Send the response.
    Respond(KeychainResponse),
}

/// What the worker does next, as a mathematical value.
pub enum WorkerStepView {
    Stop,
    FindKey,
    GenerateKey,
    Encrypt(Seq<u8>),
    Decrypt(Seq<u8>),
    Respond(KeychainResponseView),
}

impl View for WorkerStep {
    type V = WorkerStepView;

    open spec fn view(&self) -> WorkerStepView {
        match self {
            WorkerStep::Stop => WorkerStepView::Stop,
            WorkerStep::FindKey => WorkerStepView::FindKey,
            WorkerStep::GenerateKey => WorkerStepView::GenerateKey,
            WorkerStep::Encrypt(data) => WorkerStepView::Encrypt(data@),
            WorkerStep::Decrypt(data) => WorkerStepView::Decrypt(data@),
            WorkerStep::Respond(response) => WorkerStepView::Respond(response@),
        }
    }
}

/// What a call into the keystore came back with.
#[derive(Debug, Clone, PartialEq, Eq)]
pub enum KeystoreEvent {
    /// The private key was found; its public key may be missing.
    KeyFound { has_public_key: bool },
    /// No private key has the label.
    KeyMissing,
    /// A keypair was generated.
    KeyGenerated,
    /// Data was sealed or opened.
    Data(Vec<u8>),
    /// The keystore refused.
    Failed(String),
}

/// The handles that the worker holds.
#[derive(Debug, Clone, Copy, PartialEq, Eq, Structural)]
pub struct KeychainThread {
    /// Whether it holds the private key.
    pub has_key: bool,
    /// Whether it holds the public key.
    pub has_pub_key: bool,
}

/// What a command makes of a worker: the handles that it holds afterwards,
/// and what it does next.
pub open spec fn command_step(worker: KeychainThread, command: KeychainCommand) -> (
    KeychainThread,
    WorkerStepView,
) {
    match command {
        KeychainCommand::Terminate => (
            KeychainThread { has_key: false, has_pub_key: false },
            WorkerStepView::Stop,
        ),
        KeychainCommand::EnsureKeypair => (worker, WorkerStepView::FindKey),
        KeychainCommand::EncryptData(data) => if worker.has_pub_key {
            (worker, WorkerStepView::Encrypt(data@))
        } else {
            (worker, WorkerStepView::Respond(KeychainResponseView::Failed(NO_PUBLIC_KEY@)))
        },
        KeychainCommand::DecryptData(data) => if worker.has_key {
            (worker, WorkerStepView::Decrypt(data@))
        } else {
            (worker, WorkerStepView::Respond(KeychainResponseView::Failed(NO_PRIVATE_KEY@)))
        },
    }
}

/// What an answer of the keystore makes of a worker: the handles that it
/// holds afterwards, and what it does next.
pub open spec fn event_step(worker: KeychainThread, event: KeystoreEvent) -> (
    KeychainThread,
    WorkerStepView,
) {
    match event {
        KeystoreEvent::KeyFound { has_public_key } => (
            KeychainThread { has_key: true, has_pub_key: has_public_key },
            WorkerStepView::Respond(KeychainResponseView::Done),
        ),
        KeystoreEvent::KeyMissing => (worker, WorkerStepView::GenerateKey),
        KeystoreEvent::KeyGenerated => (
            KeychainThread { has_key: true, has_pub_key: true },
            WorkerStepView::Respond(KeychainResponseView::Done),
        ),
        KeystoreEvent::Data(data) => (
            worker,
            WorkerStepView::Respond(KeychainResponseView::OkWithData(data@)),
        ),
        KeystoreEvent::Failed(text) => (
            worker,
            WorkerStepView::Respond(KeychainResponseView::Failed(text@)),
        ),
    }
}

impl KeychainThread {
    /// A worker that holds no handle yet.
    pub fn new() -> (worker: Self)
        ensures
            worker == (KeychainThread { has_key: false, has_pub_key: false }),
    {
        KeychainThread { has_key: false, has_pub_key: false }
    }

    /// One turn of the worker's loop: decides what a command asks of the
    /// keystore. Data is sealed only with a public key at hand and opened
    /// only with a private key at hand; `Terminate` drops both.
    pub fn thread_loop(&mut self, command: KeychainCommand) -> (step: WorkerStep)
        ensures
            (*final(self), step@) == command_step(*old(self), command),
    {
        match command {
            KeychainCommand::Terminate => {
                self.has_key = false;
                self.has_pub_key = false;
                WorkerStep::Stop
            },
            KeychainCommand::EnsureKeypair => WorkerStep::FindKey,
            KeychainCommand::EncryptData(data) => self.encrypt_or_decrypt_data(true, data),
            KeychainCommand::DecryptData(data) => self.encrypt_or_decrypt_data(false, data),
        }
    }

    /// Decides whether data can be sealed or opened with the handles at
    /// hand.
    pub fn encrypt_or_decrypt_data(&self, encrypt: bool, data: Vec<u8>) -> (step: WorkerStep)
        ensures
            step@ == (if encrypt {
                if self.has_pub_key {
                    WorkerStepView::Encrypt(data@)
                } else {
                    WorkerStepView::Respond(KeychainResponseView::Failed(NO_PUBLIC_KEY@))
                }
            } else {
                if self.has_key {
                    WorkerStepView::Decrypt(data@)
                } else {
                    WorkerStepView::Respond(KeychainResponseView::Failed(NO_PRIVATE_KEY@))
                }
            }),
    {
        if encrypt {
            if !self.has_pub_key {
                return WorkerStep::Respond(KeychainResponse::Failed(String::from_str(NO_PUBLIC_KEY)));
            }
            WorkerStep::Encrypt(data)
        } else {
            if !self.has_key {
                return WorkerStep::Respond(
                    KeychainResponse::Failed(String::from_str(NO_PRIVATE_KEY)),
                );
            }
            WorkerStep::Decrypt(data)
        }
    }

    /// Takes in what a call into the keystore came back with. A key that
    /// was found or generated is kept; a key that is missing is generated;
    /// everything else is handed on as the response.
    pub fn keystore_answered(&mut self, event: KeystoreEvent) -> (step: WorkerStep)
        ensures
            (*final(self), step@) == event_step(*old(self), event),
    {
        match event {
            KeystoreEvent::KeyFound { has_public_key } => {
                self.has_key = true;
                self.has_pub_key = has_public_key;
                WorkerStep::Respond(KeychainResponse::Done)
            },
            KeystoreEvent::KeyMissing => WorkerStep::GenerateKey,
            KeystoreEvent::KeyGenerated => {
                self.has_key = true;
                self.has_pub_key = true;
                WorkerStep::Respond(KeychainResponse::Done)
            },
            KeystoreEvent::Data(data) => WorkerStep::Respond(KeychainResponse::OkWithData(data)),
            KeystoreEvent::Failed(text) => WorkerStep::Respond(KeychainResponse::Failed(text)),
        }
    }
}

/// What the caller of `EnsureKeypair` has from a response, as a
/// mathematical value.
pub open spec fn ensured(response: Option<KeychainResponse>) -> Result<(), Seq<char>> {
    match response {
        Some(KeychainResponse::Done) => Ok(()),
        Some(KeychainResponse::Failed(text)) => Err(text@),
        _ => Err(UNEXPECTED_RESPONSE@),
    }
}

/// What the caller of `EncryptData` or `DecryptData` has from a response,
/// as a mathematical value.
pub open spec fn delivered(response: Option<KeychainResponse>) -> Result<Seq<u8>, Seq<char>> {
    match response {
        Some(KeychainResponse::OkWithData(data)) => Ok(data@),
        Some(KeychainResponse::Failed(text)) => Err(text@),
        _ => Err(UNEXPECTED_RESPONSE@),
    }
}

/// The result of a call as a mathematical value.
pub open spec fn data_view(res: Result<Vec<u8>, String>) -> Result<Seq<u8>, Seq<char>> {
    match res {
        Ok(data) => Ok(data@),
        Err(text) => Err(text@),
    }
}

/// The result of a call without data as a mathematical value.
pub open spec fn unit_view(res: Result<(), String>) -> Result<(), Seq<char>> {
    match res {
        Ok(()) => Ok(()),
        Err(text) => Err(text@),
    }
}

/// Reads the response to `EnsureKeypair`; `None` stands for a worker that
/// is gone.
pub fn ensure_keypair(response: Option<KeychainResponse>) -> (res: Result<(), String>)
    ensures
        unit_view(res) == ensured(response),
{
    match response {
        Some(KeychainResponse::Done) => Ok(()),
        Some(KeychainResponse::Failed(text)) => Err(text),
        _ => Err(String::from_str(UNEXPECTED_RESPONSE)),
    }
}

/// Reads the response to `EncryptData`; `None` stands for a worker that
/// is gone.
pub fn encrypt_data(response: Option<KeychainResponse>) -> (res: Result<Vec<u8>, String>)
    ensures
        data_view(res) == delivered(response),
{
    match response {
        Some(KeychainResponse::OkWithData(data)) => Ok(data),
        Some(KeychainResponse::Failed(text)) => Err(text),
        _ => Err(String::from_str(UNEXPECTED_RESPONSE)),
    }
}

/// Reads the response to `DecryptData`; `None` stands for a worker that
/// is gone. What it returns is key material: the caller wipes it after
/// use.
pub fn decrypt_data(response: Option<KeychainResponse>) -> (res: Result<Vec<u8>, String>)
    ensures
        data_view(res) == delivered(response),
{
    match response {
        Some(KeychainResponse::OkWithData(data)) => Ok(data),
        Some(KeychainResponse::Failed(text)) => Err(text),
        _ => Err(String::from_str(UNEXPECTED_RESPONSE)),
    }
}

} // verus!
