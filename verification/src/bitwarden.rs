//! The vault: what it sends, what is sent to it, and its cryptography.

pub mod auth;
pub mod config;
pub mod constants;
pub mod crypto;
pub mod primitives;
pub mod sync;
