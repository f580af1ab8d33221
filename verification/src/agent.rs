//! The SSH agent protocol: its wire codec and the routing of requests.

pub mod handler;
pub mod protocol;
