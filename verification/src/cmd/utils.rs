//! The PID file of the daemon: plain text, a single decimal integer.

use crate::text::{decimal_usize, parse_usize, trim, trimmed};
use vstd::prelude::*;
use vstd::string::StringSliceAdditionalSpecFns;
use vstd::utf8::encode_utf8;

verus! {

/// The process id in a PID file: the number that the content spells once
/// the whitespace around it is taken off. `None` where the content spells
/// no number that fits a `usize`.
pub fn parse_pid(content: &str) -> (pid: Option<usize>)
    ensures
        pid == decimal_usize(encode_utf8(trimmed(content@))),
{
    parse_usize(trim(content).as_bytes())
}

} // verus!
