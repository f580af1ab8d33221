//! The routing of requests, and the reading of a connection's end.
//!
//! Only two requests are honored: the list of the identities, and a
//! signature. Everything else is answered with `Failure`.

use super::protocol::{Request, Response};
use vstd::prelude::*;
use vstd::string::StringSliceAdditionalSpecFns;

verus! {

/// What a request asks of the handler.
#[derive(Debug, Clone, PartialEq, Eq)]
pub enum Dispatch {
    /// List the identities.
    Identities,
    /// Sign `data` with the key whose public blob is `pubkey`.
    Sign { pubkey: Vec<u8>, data: Vec<u8>, flags: u32 },
    /// Answer at once.
    Reply(Response),
}

/// Routes a request: the two that are honored go to the handler, and any
/// other is answered with `Failure` without the handler.
pub fn handle_request(request: Request) -> (dispatch: Dispatch)
    ensures
        match request {
            Request::RequestIdentities => dispatch == Dispatch::Identities,
            Request::SignRequest { pubkey_blob, data, flags } => dispatch == (Dispatch::Sign {
                pubkey: pubkey_blob,
                data,
                flags,
            }),
            Request::Extension { .. } => dispatch == Dispatch::Reply(Response::Failure),
            Request::Unknown => dispatch == Dispatch::Reply(Response::Failure),
        },
{
    match request {
        Request::RequestIdentities => Dispatch::Identities,
        Request::SignRequest { pubkey_blob, data, flags } => Dispatch::Sign {
            pubkey: pubkey_blob,
            data,
            flags,
        },
        Request::Unknown => Dispatch::Reply(Response::Failure),
        Request::Extension { .. } => Dispatch::Reply(Response::Failure),
    }
}

/// What the error of a peer that closed the connection says.
pub const PEER_CLOSED: &'static str = "unexpected end of file";

/// Whether `needle` occurs in `haystack`.
pub open spec fn occurs_in(needle: Seq<u8>, haystack: Seq<u8>) -> bool {
    exists|i: int|
        0 <= i <= haystack.len() - needle.len() && #[trigger] haystack.subrange(
            i,
            i + needle.len(),
        ) == needle
}

fn matches_at(needle: &[u8], haystack: &[u8], at: usize) -> (hit: bool)
    requires
        at + needle@.len() <= haystack@.len(),
    ensures
        hit == (haystack@.subrange(at as int, at + needle@.len()) == needle@),
{
    let ghost window = haystack@.subrange(at as int, at + needle@.len());
    let size: usize = haystack.len();
    let mut k: usize = 0;
    while k < needle.len()
        invariant
            k <= needle.len(),
            size == haystack@.len(),
            at + needle@.len() <= size,
            window == haystack@.subrange(at as int, at + needle@.len()),
            forall|j: int| 0 <= j < k ==> window[j] == needle@[j],
        decreases needle.len() - k,
    {
        if haystack[at + k] != needle[k] {
            assert(window[k as int] != needle@[k as int]);
            return false;
        }
        k += 1;
    }
    assert(window =~= needle@);
    true
}

/// Whether `needle` occurs in `haystack`.
pub fn contains_bytes(haystack: &[u8], needle: &[u8]) -> (found: bool)
    ensures
        found == occurs_in(needle@, haystack@),
{
    if needle.len() > haystack.len() {
        return false;
    }
    let last: usize = haystack.len() - needle.len();
    let mut i: usize = 0;
    loop
        invariant
            i <= last,
            last == haystack@.len() - needle@.len(),
            forall|j: int|
                0 <= j < i ==> #[trigger] haystack@.subrange(j, j + needle@.len()) != needle@,
        decreases last - i,
    {
        if matches_at(needle, haystack, i) {
            return true;
        }
        if i == last {
            return false;
        }
        i += 1;
    }
}

/// Whether the error that ended a connection only says that the peer
/// closed it: such an end is not logged.
pub fn is_peer_closed(error_text: &str) -> (silent: bool)
    ensures
        silent == occurs_in(PEER_CLOSED.spec_bytes(), error_text.spec_bytes()),
{
    contains_bytes(error_text.as_bytes(), PEER_CLOSED.as_bytes())
}

} // verus!
