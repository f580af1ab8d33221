//! Wire codec of the SSH agent protocol.
//!
//! A frame is a 4-byte big-endian length followed by that many bytes of
//! payload. The first byte of a payload is the message type; strings and
//! byte strings inside a payload carry a 4-byte big-endian length of their
//! own.

use byteorder::{BigEndian, ByteOrder};
use vstd::prelude::*;
use vstd::slice::{slice_subrange, slice_to_vec};
use vstd::utf8::{decode_utf8, encode_utf8, valid_utf8};

verus! {

/// The number that four bytes spell in big-endian order.
pub open spec fn be_u32(b: Seq<u8>) -> u32
    recommends
        b.len() >= 4,
{
    (b[0] as int * 0x100_0000 + b[1] as int * 0x1_0000 + b[2] as int * 0x100 + b[3] as int) as u32
}

/// The four bytes that spell `n` in big-endian order.
pub open spec fn be_bytes(n: u32) -> Seq<u8> {
    seq![
        (n / 0x100_0000) as u8,
        (n / 0x1_0000 % 0x100) as u8,
        (n / 0x100 % 0x100) as u8,
        (n % 0x100) as u8,
    ]
}

/// Reading back what `be_bytes` wrote gives the number again.
pub proof fn lemma_be_round_trip(n: u32)
    ensures
        be_bytes(n).len() == 4,
        be_u32(be_bytes(n)) == n,
{
}

/// Calls `byteorder::BigEndian::read_u32`, which reads the first four bytes
/// of `buf` as a big-endian number and panics on a shorter buffer.
#[verifier::external_body]
fn read_u32_be(buf: &[u8]) -> (n: u32)
    requires
        buf@.len() >= 4,
    ensures
        n == be_u32(buf@),
{
    BigEndian::read_u32(buf)
}

/// Calls `byteorder::BigEndian::write_u32` on a buffer of four bytes, which
/// it fills with `n` in big-endian order.
#[verifier::external_body]
fn u32_be_bytes(n: u32) -> (out: [u8; 4])
    ensures
        out@ == be_bytes(n),
{
    let mut out = [0u8; 4];
    BigEndian::write_u32(&mut out, n);
    out
}


/// What can go wrong while a message is decoded or encoded.
#[derive(Debug, Clone, Copy, PartialEq, Eq, Structural)]
pub enum ProtocolError {
    /// The payload ends before the field that is being read.
    UnexpectedEof,
    /// The name of an extension is not UTF-8.
    InvalidUtf8,
    /// A length does not fit the 32 bits that the wire gives it.
    TooLong,
    /// The request has no form on the wire.
    Unrepresentable,
}

impl ProtocolError {
    /// What the error says.
    pub open spec fn text(self) -> Seq<char> {
        match self {
            ProtocolError::UnexpectedEof => "unexpected end of file"@,
            ProtocolError::InvalidUtf8 => "invalid utf-8 sequence"@,
            ProtocolError::TooLong => "length exceeds 32 bits"@,
            ProtocolError::Unrepresentable => "request cannot be encoded"@,
        }
    }

    /// A sentence for the log.
    pub fn message(&self) -> (text: &'static str)
        ensures
            text@ == self.text(),
    {
        match self {
            ProtocolError::UnexpectedEof => "unexpected end of file",
            ProtocolError::InvalidUtf8 => "invalid utf-8 sequence",
            ProtocolError::TooLong => "length exceeds 32 bits",
            ProtocolError::Unrepresentable => "request cannot be encoded",
        }
    }
}

/// The type codes that a client may send.
#[derive(Debug, Copy, Clone, PartialEq, Eq, Structural)]
pub enum MessageRequest {
    RequestIdentities,
    SignRequest,
    AddIdentity,
    RemoveIdentity,
    RemoveAllIdentities,
    AddIdConstrained,
    AddSmartcardKey,
    RemoveSmartcardKey,
    Lock,
    Unlock,
    AddSmartcardKeyConstrained,
    Extension,
    Unknown,
}

impl MessageRequest {
    /// The message type that a type code stands for.
    pub open spec fn of_code(value: u8) -> MessageRequest {
        if value == 11 {
            MessageRequest::RequestIdentities
        } else if value == 13 {
            MessageRequest::SignRequest
        } else if value == 17 {
            MessageRequest::AddIdentity
        } else if value == 18 {
            MessageRequest::RemoveIdentity
        } else if value == 19 {
            MessageRequest::RemoveAllIdentities
        } else if value == 20 {
            MessageRequest::AddSmartcardKey
        } else if value == 21 {
            MessageRequest::RemoveSmartcardKey
        } else if value == 22 {
            MessageRequest::Lock
        } else if value == 23 {
            MessageRequest::Unlock
        } else if value == 25 {
            MessageRequest::AddIdConstrained
        } else if value == 26 {
            MessageRequest::AddSmartcardKeyConstrained
        } else if value == 27 {
            MessageRequest::Extension
        } else {
            MessageRequest::Unknown
        }
    }

    pub fn from_u8(value: u8) -> (kind: MessageRequest)
        ensures
            kind == Self::of_code(value),
    {
        match value {
            11 => MessageRequest::RequestIdentities,
            13 => MessageRequest::SignRequest,
            17 => MessageRequest::AddIdentity,
            18 => MessageRequest::RemoveIdentity,
            19 => MessageRequest::RemoveAllIdentities,
            25 => MessageRequest::AddIdConstrained,
            20 => MessageRequest::AddSmartcardKey,
            21 => MessageRequest::RemoveSmartcardKey,
            22 => MessageRequest::Lock,
            23 => MessageRequest::Unlock,
            26 => MessageRequest::AddSmartcardKeyConstrained,
            27 => MessageRequest::Extension,
            _ => MessageRequest::Unknown,
        }
    }
}

/// Type code of `Failure`.
pub const AGENT_FAILURE: u8 = 5;

/// Type code of `Success`.
pub const AGENT_SUCCESS: u8 = 6;

/// Type code of a request for the identities.
pub const AGENTC_REQUEST_IDENTITIES: u8 = 11;

/// Type code of the answer that lists the identities.
pub const AGENT_IDENTITIES_ANSWER: u8 = 12;

/// Type code of a request for a signature.
pub const AGENTC_SIGN_REQUEST: u8 = 13;

/// Type code of the answer that carries a signature.
pub const AGENT_SIGN_RESPONSE: u8 = 14;

/// Type code of an extension message.
pub const AGENTC_EXTENSION: u8 = 27;

/// A length-prefixed string: the length in four big-endian bytes, then the
/// bytes themselves.
pub open spec fn lp(s: Seq<u8>) -> Seq<u8> {
    be_bytes(s.len() as u32) + s
}

/// Whether the length of `s` fits its prefix.
pub open spec fn fits_u32(s: Seq<u8>) -> bool {
    s.len() <= u32::MAX
}

/// Splits a length-prefixed string off the front of `input`: the string and
/// what follows it, or `None` where `input` ends too early.
pub open spec fn read_lp(input: Seq<u8>) -> Option<(Seq<u8>, Seq<u8>)> {
    if input.len() < 4 {
        None
    } else {
        let n = be_u32(input.take(4)) as int;
        if input.len() - 4 < n {
            None
        } else {
            Some((input.subrange(4, 4 + n), input.skip(4 + n)))
        }
    }
}

/// A length-prefixed string followed by anything reads back as itself and
/// what followed.
pub proof fn lemma_read_lp_of_lp(s: Seq<u8>, rest: Seq<u8>)
    requires
        fits_u32(s),
    ensures
        read_lp(lp(s) + rest) == Some((s, rest)),
{
    let n = s.len() as u32;
    let input = lp(s) + rest;
    lemma_be_round_trip(n);
    assert(input.take(4) =~= be_bytes(n));
    assert(input.subrange(4, 4 + n as int) =~= s);
    assert(input.skip(4 + n as int) =~= rest);
}

/// Reads a length-prefixed string from the front of `input`. Returns the
/// string and the number of bytes that it took with its prefix.
pub fn read_message(input: &[u8]) -> (res: Result<(Vec<u8>, usize), ProtocolError>)
    ensures
        match res {
            Ok((message, used)) => {
                &&& used <= input@.len()
                &&& read_lp(input@) == Some((message@, input@.skip(used as int)))
            },
            Err(e) => e == ProtocolError::UnexpectedEof && read_lp(input@) is None,
        },
{
    if input.len() < 4 {
        return Err(ProtocolError::UnexpectedEof);
    }
    let n: u32 = read_u32_be(slice_subrange(input, 0, 4));
    if input.len() - 4 < n as usize {
        return Err(ProtocolError::UnexpectedEof);
    }
    let end: usize = 4 + n as usize;
    let message = slice_to_vec(slice_subrange(input, 4, end));
    Ok((message, end))
}

/// Appends `bytes` to `out` as a length-prefixed string. Leaves `out` as it
/// was where the length does not fit 32 bits.
pub fn write_message(out: &mut Vec<u8>, bytes: &[u8]) -> (res: Result<(), ProtocolError>)
    ensures
        match res {
            Ok(()) => fits_u32(bytes@) && final(out)@ == old(out)@ + lp(bytes@),
            Err(e) => e == ProtocolError::TooLong && !fits_u32(bytes@) && final(out)@ == old(out)@,
        },
{
    if bytes.len() > u32::MAX as usize {
        return Err(ProtocolError::TooLong);
    }
    let prefix = u32_be_bytes(bytes.len() as u32);
    out.extend_from_slice(prefix.as_slice());
    out.extend_from_slice(bytes);
    proof {
        assert(out@ =~= old(out)@ + lp(bytes@));
    }
    Ok(())
}


/// The bits of the flags of a sign request.
#[derive(Debug, Clone, Copy, PartialEq, Eq, Hash, Structural)]
pub struct SignatureFlags {
    bits: u32,
}

impl View for SignatureFlags {
    type V = u32;

    closed spec fn view(&self) -> u32 {
        self.bits
    }
}

impl SignatureFlags {
    /// Bit 0, which is reserved.
    pub const RESERVED: u32 = 1;

    /// Bit 1: sign with RSA and SHA-256.
    pub const SSH_AGENT_RSA_SHA2_256: u32 = 2;

    /// Bit 2: sign with RSA and SHA-512.
    pub const SSH_AGENT_RSA_SHA2_512: u32 = 4;

    /// All the bits that have a meaning.
    pub const ALL: u32 = 7;

    /// Keeps the bits that have a meaning and drops the others.
    pub fn from_bits_truncate(bits: u32) -> (flags: SignatureFlags)
        ensures
            flags@ == bits & 7,
    {
        SignatureFlags { bits: bits & Self::ALL }
    }

    /// The bits that are set.
    pub fn bits(&self) -> (bits: u32)
        ensures
            bits == self@,
    {
        self.bits
    }

    /// Whether one of the bits of `mask` is set.
    pub fn intersects(&self, mask: u32) -> (hit: bool)
        ensures
            hit == (self@ & mask != 0),
    {
        self.bits & mask != 0
    }

    /// Whether all the bits of `mask` are set.
    pub fn contains(&self, mask: u32) -> (all: bool)
        ensures
            all == (self@ & mask == mask),
    {
        self.bits & mask == mask
    }
}

/// A request of a client.
#[derive(Debug, Clone, PartialEq, Eq)]
pub enum Request {
    RequestIdentities,
    SignRequest {
        /// Blob of the public key, encoded as RFC 4253 section 6.6 says.
        pubkey_blob: Vec<u8>,
        /// The data to sign.
        data: Vec<u8>,
        /// Request flags.
        flags: u32,
    },
    Extension {
        /// The name of the extension.
        name: String,
        /// The data to be sent to the extension.
        data: Vec<u8>,
    },
    Unknown,
}

/// A request as a mathematical value.
pub enum RequestView {
    RequestIdentities,
    SignRequest { pubkey_blob: Seq<u8>, data: Seq<u8>, flags: u32 },
    Extension { name: Seq<char>, data: Seq<u8> },
    Unknown,
}

impl View for Request {
    type V = RequestView;

    open spec fn view(&self) -> RequestView {
        match self {
            Request::RequestIdentities => RequestView::RequestIdentities,
            Request::SignRequest { pubkey_blob, data, flags } => RequestView::SignRequest {
                pubkey_blob: pubkey_blob@,
                data: data@,
                flags: *flags,
            },
            Request::Extension { name, data } => RequestView::Extension {
                name: name@,
                data: data@,
            },
            Request::Unknown => RequestView::Unknown,
        }
    }
}

/// What a payload decodes to. Bytes that follow the last field of a message
/// are not looked at, and neither is the body of a message whose type the
/// agent does not honor.
pub open spec fn parse_request(payload: Seq<u8>) -> Result<RequestView, ProtocolError> {
    if payload.len() == 0 {
        Err(ProtocolError::UnexpectedEof)
    } else {
        let body = payload.skip(1);
        match MessageRequest::of_code(payload[0]) {
            MessageRequest::RequestIdentities => Ok(RequestView::RequestIdentities),
            MessageRequest::SignRequest => match read_lp(body) {
                None => Err(ProtocolError::UnexpectedEof),
                Some((pubkey_blob, after_blob)) => match read_lp(after_blob) {
                    None => Err(ProtocolError::UnexpectedEof),
                    Some((data, after_data)) => if after_data.len() < 4 {
                        Err(ProtocolError::UnexpectedEof)
                    } else {
                        Ok(
                            RequestView::SignRequest {
                                pubkey_blob,
                                data,
                                flags: be_u32(after_data.take(4)),
                            },
                        )
                    },
                },
            },
            MessageRequest::Extension => match read_lp(body) {
                None => Err(ProtocolError::UnexpectedEof),
                Some((name, after_name)) => if !valid_utf8(name) {
                    Err(ProtocolError::InvalidUtf8)
                } else {
                    match read_lp(after_name) {
                        None => Err(ProtocolError::UnexpectedEof),
                        Some((data, _)) => Ok(
                            RequestView::Extension { name: decode_utf8(name), data },
                        ),
                    }
                },
            },
            _ => Ok(RequestView::Unknown),
        }
    }
}

/// Whether a request has a form on the wire: it is of a type that the codec
/// writes, and each of its strings fits its length prefix.
pub open spec fn request_fits(r: RequestView) -> bool {
    match r {
        RequestView::RequestIdentities => true,
        RequestView::SignRequest { pubkey_blob, data, flags } => fits_u32(pubkey_blob) && fits_u32(
            data,
        ),
        RequestView::Extension { name, data } => fits_u32(encode_utf8(name)) && fits_u32(data),
        RequestView::Unknown => false,
    }
}

/// The payload that carries a request.
pub open spec fn request_payload(r: RequestView) -> Seq<u8> {
    match r {
        RequestView::RequestIdentities => seq![AGENTC_REQUEST_IDENTITIES],
        RequestView::SignRequest { pubkey_blob, data, flags } => seq![AGENTC_SIGN_REQUEST] + lp(
            pubkey_blob,
        ) + lp(data) + be_bytes(flags),
        RequestView::Extension { name, data } => seq![AGENTC_EXTENSION] + lp(encode_utf8(name))
            + lp(data),
        RequestView::Unknown => Seq::empty(),
    }
}

/// Calls `String::from_utf8` of std, which gives the text that the bytes
/// encode where they are UTF-8, and an error where they are not.
#[verifier::external_body]
pub(crate) fn string_from_utf8(bytes: Vec<u8>) -> (res: Option<String>)
    ensures
        match res {
            Some(text) => valid_utf8(bytes@) && text@ == decode_utf8(bytes@),
            None => !valid_utf8(bytes@),
        },
{
    String::from_utf8(bytes).ok()
}

impl Request {
    /// Decodes the payload of a frame.
    pub fn read(payload: &[u8]) -> (res: Result<Request, ProtocolError>)
        ensures
            match res {
                Ok(request) => parse_request(payload@) == Ok::<RequestView, ProtocolError>(
                    request@,
                ),
                Err(e) => parse_request(payload@) == Err::<RequestView, ProtocolError>(e),
            },
    {
        if payload.len() == 0 {
            return Err(ProtocolError::UnexpectedEof);
        }
        let body = slice_subrange(payload, 1, payload.len());
        assert(body@ == payload@.skip(1));
        match MessageRequest::from_u8(payload[0]) {
            MessageRequest::RequestIdentities => Ok(Request::RequestIdentities),
            MessageRequest::SignRequest => {
                let (pubkey_blob, used) = match read_message(body) {
                    Ok(found) => found,
                    Err(e) => {
                        return Err(e);
                    },
                };
                let after_blob = slice_subrange(body, used, body.len());
                assert(after_blob@ == body@.skip(used as int));
                let (data, used_by_data) = match read_message(after_blob) {
                    Ok(found) => found,
                    Err(e) => {
                        return Err(e);
                    },
                };
                let after_data = slice_subrange(after_blob, used_by_data, after_blob.len());
                assert(after_data@ == after_blob@.skip(used_by_data as int));
                if after_data.len() < 4 {
                    return Err(ProtocolError::UnexpectedEof);
                }
                let head = slice_subrange(after_data, 0, 4);
                assert(head@ == after_data@.take(4));
                let flags: u32 = read_u32_be(head);
                Ok(Request::SignRequest { pubkey_blob, data, flags })
            },
            MessageRequest::Extension => {
                let (name_bytes, used) = match read_message(body) {
                    Ok(found) => found,
                    Err(e) => {
                        return Err(e);
                    },
                };
                let name = match string_from_utf8(name_bytes) {
                    Some(name) => name,
                    None => {
                        return Err(ProtocolError::InvalidUtf8);
                    },
                };
                let after_name = slice_subrange(body, used, body.len());
                assert(after_name@ == body@.skip(used as int));
                let (data, _) = match read_message(after_name) {
                    Ok(found) => found,
                    Err(e) => {
                        return Err(e);
                    },
                };
                Ok(Request::Extension { name, data })
            },
            _ => Ok(Request::Unknown),
        }
    }

    /// Appends the payload of the request to `out`. Leaves `out` as it was
    /// where the request has no form on the wire.
    pub fn write(&self, out: &mut Vec<u8>) -> (res: Result<(), ProtocolError>)
        ensures
            match res {
                Ok(()) => request_fits(self@) && final(out)@ == old(out)@ + request_payload(
                    self@,
                ),
                Err(e) => !request_fits(self@) && final(out)@ == old(out)@ && e == (if self@
                    is Unknown {
                    ProtocolError::Unrepresentable
                } else {
                    ProtocolError::TooLong
                }),
            },
    {
        match self {
            Request::RequestIdentities => {
                out.push(AGENTC_REQUEST_IDENTITIES);
                assert(out@ =~= old(out)@ + request_payload(self@));
                Ok(())
            },
            Request::SignRequest { pubkey_blob, data, flags } => {
                if pubkey_blob.len() > u32::MAX as usize || data.len() > u32::MAX as usize {
                    return Err(ProtocolError::TooLong);
                }
                out.push(AGENTC_SIGN_REQUEST);
                let _ = write_message(out, pubkey_blob.as_slice());
                let _ = write_message(out, data.as_slice());
                let tail = u32_be_bytes(*flags);
                out.extend_from_slice(tail.as_slice());
                assert(out@ =~= old(out)@ + request_payload(self@));
                Ok(())
            },
            Request::Extension { name, data } => {
                let name_bytes = name.as_str().as_bytes();
                if name_bytes.len() > u32::MAX as usize || data.len() > u32::MAX as usize {
                    return Err(ProtocolError::TooLong);
                }
                out.push(AGENTC_EXTENSION);
                let _ = write_message(out, name_bytes);
                let _ = write_message(out, data.as_slice());
                assert(out@ =~= old(out)@ + request_payload(self@));
                Ok(())
            },
            Request::Unknown => Err(ProtocolError::Unrepresentable),
        }
    }
}

proof fn lemma_sign_round_trip(pubkey_blob: Seq<u8>, data: Seq<u8>, flags: u32, trailing: Seq<u8>)
    requires
        fits_u32(pubkey_blob),
        fits_u32(data),
    ensures
        parse_request(
            request_payload(RequestView::SignRequest { pubkey_blob, data, flags }) + trailing,
        ) == Ok::<RequestView, ProtocolError>(RequestView::SignRequest { pubkey_blob, data, flags }),
{
    let payload = request_payload(RequestView::SignRequest { pubkey_blob, data, flags })
        + trailing;
    let after_data = be_bytes(flags) + trailing;
    let after_blob = lp(data) + after_data;
    assert(payload.len() > 0);
    assert(payload[0] == AGENTC_SIGN_REQUEST);
    assert(payload.skip(1) =~= lp(pubkey_blob) + after_blob);
    lemma_read_lp_of_lp(pubkey_blob, after_blob);
    lemma_read_lp_of_lp(data, after_data);
    lemma_be_round_trip(flags);
    assert(after_data.take(4) =~= be_bytes(flags));
}

proof fn lemma_extension_round_trip(name: Seq<char>, data: Seq<u8>, trailing: Seq<u8>)
    requires
        fits_u32(encode_utf8(name)),
        fits_u32(data),
    ensures
        parse_request(request_payload(RequestView::Extension { name, data }) + trailing) == Ok::<
            RequestView,
            ProtocolError,
        >(RequestView::Extension { name, data }),
{
    let payload = request_payload(RequestView::Extension { name, data }) + trailing;
    let name_bytes = encode_utf8(name);
    let after_name = lp(data) + trailing;
    assert(payload.len() > 0);
    assert(payload[0] == AGENTC_EXTENSION);
    assert(payload.skip(1) =~= lp(name_bytes) + after_name);
    lemma_read_lp_of_lp(name_bytes, after_name);
    lemma_read_lp_of_lp(data, trailing);
    assert(valid_utf8(name_bytes)) by {
        vstd::utf8::encode_utf8_valid_utf8(name);
    }
    assert(decode_utf8(name_bytes) == name) by {
        vstd::utf8::encode_utf8_decode_utf8(name);
    }
}

/// Decoding what was encoded gives the request again: for every request
/// that has a form on the wire, whatever bytes follow its payload.
pub proof fn lemma_request_round_trip(r: RequestView, trailing: Seq<u8>)
    requires
        request_fits(r),
    ensures
        parse_request(request_payload(r) + trailing) == Ok::<RequestView, ProtocolError>(r),
{
    match r {
        RequestView::RequestIdentities => {
            let payload = request_payload(r) + trailing;
            assert(payload[0] == AGENTC_REQUEST_IDENTITIES);
        },
        RequestView::SignRequest { pubkey_blob, data, flags } => {
            lemma_sign_round_trip(pubkey_blob, data, flags, trailing);
        },
        RequestView::Extension { name, data } => {
            lemma_extension_round_trip(name, data, trailing);
        },
        RequestView::Unknown => {},
    }
}

/// An identity as the agent lists it.
#[derive(Debug, Clone, PartialEq, Eq)]
pub struct Identity {
    pub key_blob: Vec<u8>,
    pub key_comment: String,
}

/// An identity as a mathematical value.
pub struct IdentityView {
    pub key_blob: Seq<u8>,
    pub key_comment: Seq<char>,
}

impl View for Identity {
    type V = IdentityView;

    open spec fn view(&self) -> IdentityView {
        IdentityView { key_blob: self.key_blob@, key_comment: self.key_comment@ }
    }
}

/// An answer of the agent.
#[derive(Debug, Clone, PartialEq, Eq)]
pub enum Response {
    Success,
    Failure,
    Identities(Vec<Identity>),
    SignResponse { algo_name: String, signature: Vec<u8> },
}

/// An answer as a mathematical value.
pub enum ResponseView {
    Success,
    Failure,
    Identities(Seq<IdentityView>),
    SignResponse { algo_name: Seq<char>, signature: Seq<u8> },
}

/// The identities of a list as mathematical values.
pub open spec fn identity_views(identities: Seq<Identity>) -> Seq<IdentityView> {
    identities.map_values(|identity: Identity| identity@)
}

impl View for Response {
    type V = ResponseView;

    open spec fn view(&self) -> ResponseView {
        match self {
            Response::Success => ResponseView::Success,
            Response::Failure => ResponseView::Failure,
            Response::Identities(identities) => ResponseView::Identities(
                identity_views(identities@),
            ),
            Response::SignResponse { algo_name, signature } => ResponseView::SignResponse {
                algo_name: algo_name@,
                signature: signature@,
            },
        }
    }
}

/// One identity on the wire: its key blob, then its comment.
pub open spec fn identity_wire(identity: IdentityView) -> Seq<u8> {
    lp(identity.key_blob) + lp(encode_utf8(identity.key_comment))
}

/// The identities of a list on the wire, one after the other.
pub open spec fn identities_wire(identities: Seq<IdentityView>) -> Seq<u8>
    decreases identities.len(),
{
    if identities.len() == 0 {
        Seq::empty()
    } else {
        identities_wire(identities.drop_last()) + identity_wire(identities.last())
    }
}

/// Whether each string of each identity fits its length prefix.
pub open spec fn identities_fit(identities: Seq<IdentityView>) -> bool {
    forall|i: int|
        0 <= i < identities.len() ==> fits_u32(#[trigger] identities[i].key_blob) && fits_u32(
            encode_utf8(identities[i].key_comment),
        )
}

/// The signature blob of a sign response: the name of the algorithm, then
/// the signature.
pub open spec fn signature_blob(algo_name: Seq<char>, signature: Seq<u8>) -> Seq<u8> {
    lp(encode_utf8(algo_name)) + lp(signature)
}

/// Whether an answer has a form on the wire: each count and each length
/// fits 32 bits.
pub open spec fn response_fits(r: ResponseView) -> bool {
    match r {
        ResponseView::Success => true,
        ResponseView::Failure => true,
        ResponseView::Identities(identities) => identities.len() <= u32::MAX && identities_fit(
            identities,
        ),
        ResponseView::SignResponse { algo_name, signature } => {
            &&& fits_u32(encode_utf8(algo_name))
            &&& fits_u32(signature)
            &&& fits_u32(signature_blob(algo_name, signature))
        },
    }
}

/// The payload that carries an answer.
pub open spec fn response_payload(r: ResponseView) -> Seq<u8> {
    match r {
        ResponseView::Success => seq![AGENT_SUCCESS],
        ResponseView::Failure => seq![AGENT_FAILURE],
        ResponseView::Identities(identities) => seq![AGENT_IDENTITIES_ANSWER] + be_bytes(
            identities.len() as u32,
        ) + identities_wire(identities),
        ResponseView::SignResponse { algo_name, signature } => seq![AGENT_SIGN_RESPONSE] + lp(
            signature_blob(algo_name, signature),
        ),
    }
}

/// Whether an answer fits a frame: it has a form on the wire, and the length
/// of its payload fits 32 bits.
pub open spec fn frame_fits(r: ResponseView) -> bool {
    response_fits(r) && fits_u32(response_payload(r))
}

/// The frame that carries an answer: the length of the payload, then the
/// payload.
pub open spec fn response_frame(r: ResponseView) -> Seq<u8> {
    lp(response_payload(r))
}

/// Appends the identities to `out` as the wire has them. Leaves what was
/// written so far where a string does not fit.
fn write_identities(identities: &Vec<Identity>, out: &mut Vec<u8>) -> (res: Result<
    (),
    ProtocolError,
>)
    ensures
        match res {
            Ok(()) => identities_fit(identity_views(identities@)) && final(out)@ == old(out)@
                + identities_wire(identity_views(identities@)),
            Err(e) => e == ProtocolError::TooLong && !identities_fit(identity_views(identities@)),
        },
{
    let ghost all = identity_views(identities@);
    let mut i: usize = 0;
    while i < identities.len()
        invariant
            i <= identities.len(),
            all == identity_views(identities@),
            out@ == old(out)@ + identities_wire(all.take(i as int)),
            identities_fit(all.take(i as int)),
        decreases identities.len() - i,
    {
        let identity = &identities[i];
        let ghost before = out@;
        assert(all[i as int] == identity@);
        match write_message(out, identity.key_blob.as_slice()) {
            Ok(()) => {},
            Err(e) => {
                assert(!fits_u32(all[i as int].key_blob));
                return Err(e);
            },
        }
        match write_message(out, identity.key_comment.as_str().as_bytes()) {
            Ok(()) => {},
            Err(e) => {
                assert(fits_u32(all[i as int].key_blob));
                assert(!fits_u32(encode_utf8(all[i as int].key_comment)));
                return Err(e);
            },
        }
        proof {
            let next = all.take(i + 1);
            assert(next.drop_last() =~= all.take(i as int));
            assert(next.last() == all[i as int]);
            assert(out@ =~= before + identity_wire(all[i as int]));
            assert forall|k: int| 0 <= k < next.len() implies fits_u32(
                #[trigger] next[k].key_blob,
            ) && fits_u32(encode_utf8(next[k].key_comment)) by {
                if k < i {
                    assert(next[k] == all.take(i as int)[k]);
                }
            }
        }
        i += 1;
    }
    assert(all.take(i as int) =~= all);
    Ok(())
}

impl Response {
    /// Appends the payload of the answer to `out`. Where a length does not
    /// fit, `out` is left with what was written before it.
    fn append_payload(&self, out: &mut Vec<u8>) -> (res: Result<(), ProtocolError>)
        ensures
            match res {
                Ok(()) => response_fits(self@) && final(out)@ == old(out)@ + response_payload(
                    self@,
                ),
                Err(e) => e == ProtocolError::TooLong && !response_fits(self@),
            },
    {
        match self {
            Response::Success => {
                out.push(AGENT_SUCCESS);
                assert(out@ =~= old(out)@ + response_payload(self@));
                Ok(())
            },
            Response::Failure => {
                out.push(AGENT_FAILURE);
                assert(out@ =~= old(out)@ + response_payload(self@));
                Ok(())
            },
            Response::Identities(identities) => {
                if identities.len() > u32::MAX as usize {
                    return Err(ProtocolError::TooLong);
                }
                out.push(AGENT_IDENTITIES_ANSWER);
                let count = u32_be_bytes(identities.len() as u32);
                out.extend_from_slice(count.as_slice());
                match write_identities(identities, out) {
                    Ok(()) => {},
                    Err(e) => {
                        return Err(e);
                    },
                }
                assert(out@ =~= old(out)@ + response_payload(self@));
                Ok(())
            },
            Response::SignResponse { algo_name, signature } => {
                let mut full_sig: Vec<u8> = Vec::new();
                match write_message(&mut full_sig, algo_name.as_str().as_bytes()) {
                    Ok(()) => {},
                    Err(e) => {
                        return Err(e);
                    },
                }
                match write_message(&mut full_sig, signature.as_slice()) {
                    Ok(()) => {},
                    Err(e) => {
                        return Err(e);
                    },
                }
                assert(full_sig@ =~= signature_blob(algo_name@, signature@));
                if full_sig.len() > u32::MAX as usize {
                    return Err(ProtocolError::TooLong);
                }
                out.push(AGENT_SIGN_RESPONSE);
                let _ = write_message(out, full_sig.as_slice());
                assert(out@ =~= old(out)@ + response_payload(self@));
                Ok(())
            },
        }
    }

    /// The payload of the answer: its type code, then its body.
    pub fn payload(&self) -> (res: Result<Vec<u8>, ProtocolError>)
        ensures
            match res {
                Ok(bytes) => response_fits(self@) && bytes@ == response_payload(self@),
                Err(e) => e == ProtocolError::TooLong && !response_fits(self@),
            },
    {
        let mut bytes: Vec<u8> = Vec::new();
        match self.append_payload(&mut bytes) {
            Ok(()) => {
                assert(bytes@ =~= response_payload(self@));
                Ok(bytes)
            },
            Err(e) => Err(e),
        }
    }

    /// Appends the frame of the answer to `out`: the length of the payload
    /// in four big-endian bytes, then the payload. Leaves `out` as it was
    /// where a length does not fit 32 bits.
    pub fn write(&self, out: &mut Vec<u8>) -> (res: Result<(), ProtocolError>)
        ensures
            match res {
                Ok(()) => frame_fits(self@) && final(out)@ == old(out)@ + response_frame(self@),
                Err(e) => e == ProtocolError::TooLong && !frame_fits(self@) && final(out)@ == old(
                    out,
                )@,
            },
    {
        let payload = match self.payload() {
            Ok(payload) => payload,
            Err(e) => {
                return Err(e);
            },
        };
        write_message(out, payload.as_slice())
    }
}

} // verus!
