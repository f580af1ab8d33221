//! An SSH authentication agent that keeps no private key in cleartext at rest.
//!
//! Private keys live encrypted inside a password-manager vault. The agent
//! fetches them, decrypts them on demand and signs for the clients that
//! connect through a local socket. This crate holds the rules of that
//! pipeline: the wire codec of the agent protocol, the vault's key
//! derivation and authenticated decryption, the reconciliation of the
//! vault's notes with the stored identities, the choice of a signature
//! algorithm, and the decisions of the token manager, of the login flow and
//! of the sealing worker. Sockets, HTTPS, the keystore and the database are
//! driven by the program around it.

pub mod agent;
pub mod bitwarden;
pub mod cmd;
pub mod constants;
pub mod database;
pub mod handler;
pub mod keychain;
pub mod keys;
pub mod text;

