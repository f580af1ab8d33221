use bw_ssh_agent::agent::handler::{
    contains_bytes, handle_request, is_peer_closed, Dispatch,
};
use bw_ssh_agent::agent::protocol::{
    read_message, write_message, Identity, MessageRequest, ProtocolError, Request, Response,
    SignatureFlags,
};

fn frame_of(response: &Response) -> Vec<u8> {
    let mut out = Vec::new();
    response.write(&mut out).unwrap();
    out
}

fn payload_of(request: &Request) -> Vec<u8> {
    let mut out = Vec::new();
    request.write(&mut out).unwrap();
    out
}

#[test]
fn empty_identities_exchange() {
    let frame = [0x00u8, 0x00, 0x00, 0x01, 0x0B];
    let (payload, used) = read_message(&frame).unwrap();
    assert_eq!(used, 5);
    assert_eq!(Request::read(&payload), Ok(Request::RequestIdentities));
    assert_eq!(handle_request(Request::RequestIdentities), Dispatch::Identities);
    let response = bw_ssh_agent::handler::identities(Vec::new());
    assert_eq!(response, Response::Identities(Vec::new()));
    assert_eq!(
        frame_of(&response),
        vec![0x00, 0x00, 0x00, 0x05, 0x0C, 0x00, 0x00, 0x00, 0x00]
    );
}

#[test]
fn unknown_request_gets_failure() {
    let request = Request::read(&[17]).unwrap();
    assert_eq!(request, Request::Unknown);
    let dispatch = handle_request(request);
    assert_eq!(dispatch, Dispatch::Reply(Response::Failure));
    assert_eq!(Response::Failure.payload().unwrap(), vec![0x05]);
    assert_eq!(frame_of(&Response::Failure), vec![0x00, 0x00, 0x00, 0x01, 0x05]);
}

#[test]
fn extension_gets_failure() {
    let payload = [
        27, 0, 0, 0, 5, b'q', b'u', b'e', b'r', b'y', 0, 0, 0, 3, 1, 2, 3,
    ];
    let request = Request::read(&payload).unwrap();
    assert_eq!(
        request,
        Request::Extension { name: "query".to_string(), data: vec![1, 2, 3] }
    );
    assert_eq!(handle_request(request), Dispatch::Reply(Response::Failure));
}

#[test]
fn add_remove_lock_codes_decode_as_unknown() {
    for code in 17u8..=26 {
        assert_eq!(Request::read(&[code, 1, 2, 3]), Ok(Request::Unknown));
    }
    assert_eq!(Request::read(&[0]), Ok(Request::Unknown));
    assert_eq!(Request::read(&[255]), Ok(Request::Unknown));
    assert_eq!(Request::read(&[12]), Ok(Request::Unknown));
}

#[test]
fn message_request_table() {
    assert_eq!(MessageRequest::from_u8(11), MessageRequest::RequestIdentities);
    assert_eq!(MessageRequest::from_u8(13), MessageRequest::SignRequest);
    assert_eq!(MessageRequest::from_u8(17), MessageRequest::AddIdentity);
    assert_eq!(MessageRequest::from_u8(18), MessageRequest::RemoveIdentity);
    assert_eq!(MessageRequest::from_u8(19), MessageRequest::RemoveAllIdentities);
    assert_eq!(MessageRequest::from_u8(20), MessageRequest::AddSmartcardKey);
    assert_eq!(MessageRequest::from_u8(21), MessageRequest::RemoveSmartcardKey);
    assert_eq!(MessageRequest::from_u8(22), MessageRequest::Lock);
    assert_eq!(MessageRequest::from_u8(23), MessageRequest::Unlock);
    assert_eq!(MessageRequest::from_u8(25), MessageRequest::AddIdConstrained);
    assert_eq!(MessageRequest::from_u8(26), MessageRequest::AddSmartcardKeyConstrained);
    assert_eq!(MessageRequest::from_u8(27), MessageRequest::Extension);
    assert_eq!(MessageRequest::from_u8(24), MessageRequest::Unknown);
    assert_eq!(MessageRequest::from_u8(5), MessageRequest::Unknown);
}

#[test]
fn sign_request_wire_vector() {
    let request = Request::SignRequest {
        pubkey_blob: vec![0xAA, 0xBB],
        data: b"hello".to_vec(),
        flags: 4,
    };
    let payload = payload_of(&request);
    assert_eq!(
        payload,
        vec![
            13, 0, 0, 0, 2, 0xAA, 0xBB, 0, 0, 0, 5, b'h', b'e', b'l', b'l', b'o', 0, 0, 0, 4
        ]
    );
    assert_eq!(Request::read(&payload), Ok(request.clone()));
    assert_eq!(
        handle_request(request),
        Dispatch::Sign { pubkey: vec![0xAA, 0xBB], data: b"hello".to_vec(), flags: 4 }
    );
}

#[test]
fn requests_round_trip() {
    let requests = vec![
        Request::RequestIdentities,
        Request::SignRequest { pubkey_blob: vec![], data: vec![], flags: 0 },
        Request::SignRequest {
            pubkey_blob: vec![7; 300],
            data: vec![9; 70000],
            flags: 0xDEAD_BEEF,
        },
        Request::Extension { name: String::new(), data: vec![] },
        Request::Extension { name: "séssion-bind@openssh.com".to_string(), data: vec![0, 1] },
    ];
    for request in requests {
        let payload = payload_of(&request);
        assert_eq!(Request::read(&payload), Ok(request.clone()));
        let mut longer = payload.clone();
        longer.extend_from_slice(&[1, 2, 3]);
        assert_eq!(Request::read(&longer), Ok(request));
    }
}

#[test]
fn unknown_request_is_not_written() {
    let mut out = vec![1, 2];
    assert_eq!(Request::Unknown.write(&mut out), Err(ProtocolError::Unrepresentable));
    assert_eq!(out, vec![1, 2]);
}

#[test]
fn flags_are_big_endian() {
    let payload = [13, 0, 0, 0, 0, 0, 0, 0, 0, 0x01, 0x02, 0x03, 0x04];
    assert_eq!(
        Request::read(&payload),
        Ok(Request::SignRequest { pubkey_blob: vec![], data: vec![], flags: 0x0102_0304 })
    );
}

#[test]
fn malformed_requests_are_rejected() {
    assert_eq!(Request::read(&[]), Err(ProtocolError::UnexpectedEof));
    assert_eq!(Request::read(&[13]), Err(ProtocolError::UnexpectedEof));
    assert_eq!(Request::read(&[13, 0, 0, 0]), Err(ProtocolError::UnexpectedEof));
    assert_eq!(Request::read(&[13, 0, 0, 0, 2, 1]), Err(ProtocolError::UnexpectedEof));
    assert_eq!(
        Request::read(&[13, 0, 0, 0, 1, 1, 0, 0, 0, 0, 0, 0, 0]),
        Err(ProtocolError::UnexpectedEof)
    );
    assert_eq!(Request::read(&[27, 0, 0, 0, 1]), Err(ProtocolError::UnexpectedEof));
    assert_eq!(
        Request::read(&[27, 0, 0, 0, 1, 0xFF, 0, 0, 0, 0]),
        Err(ProtocolError::InvalidUtf8)
    );
    assert_eq!(Request::read(&[27, 0, 0, 0, 1, b'a']), Err(ProtocolError::UnexpectedEof));
    assert_eq!(
        Request::read(&[27, 0xFF, 0xFF, 0xFF, 0xFF, b'a']),
        Err(ProtocolError::UnexpectedEof)
    );
}

#[test]
fn request_identities_ignores_its_body() {
    assert_eq!(Request::read(&[11, 9, 9, 9]), Ok(Request::RequestIdentities));
}

#[test]
fn length_prefixed_strings() {
    let mut out = vec![0xEE];
    write_message(&mut out, b"abc").unwrap();
    assert_eq!(out, vec![0xEE, 0, 0, 0, 3, b'a', b'b', b'c']);
    let (message, used) = read_message(&out[1..]).unwrap();
    assert_eq!(message, b"abc".to_vec());
    assert_eq!(used, 7);
    assert_eq!(read_message(&[0, 0, 1, 0, 5]), Err(ProtocolError::UnexpectedEof));
    assert_eq!(read_message(&[0, 0, 0]), Err(ProtocolError::UnexpectedEof));
    let (empty, used) = read_message(&[0, 0, 0, 0, 7, 7]).unwrap();
    assert!(empty.is_empty());
    assert_eq!(used, 4);
    let mut long = Vec::new();
    write_message(&mut long, &vec![5u8; 0x01_02_03]).unwrap();
    assert_eq!(&long[..4], &[0x00, 0x01, 0x02, 0x03]);
    assert_eq!(long.len(), 4 + 0x01_02_03);
}

#[test]
fn success_and_failure_are_single_bytes() {
    assert_eq!(Response::Success.payload().unwrap(), vec![6]);
    assert_eq!(Response::Failure.payload().unwrap(), vec![5]);
    assert_eq!(frame_of(&Response::Success), vec![0, 0, 0, 1, 6]);
}

#[test]
fn identities_answer_wire_vector() {
    let response = Response::Identities(vec![
        Identity { key_blob: vec![1, 2, 3], key_comment: "work".to_string() },
        Identity { key_blob: vec![], key_comment: "é".to_string() },
    ]);
    assert_eq!(
        response.payload().unwrap(),
        vec![
            12, 0, 0, 0, 2, 0, 0, 0, 3, 1, 2, 3, 0, 0, 0, 4, b'w', b'o', b'r', b'k', 0, 0, 0, 0,
            0, 0, 0, 2, 0xC3, 0xA9
        ]
    );
    let frame = frame_of(&response);
    assert_eq!(&frame[..4], &[0, 0, 0, 30]);
    assert_eq!(&frame[4..], &response.payload().unwrap()[..]);
}

#[test]
fn sign_response_wire_vector() {
    let response = Response::SignResponse {
        algo_name: "rsa-sha2-512".to_string(),
        signature: vec![0xDE, 0xAD],
    };
    let mut expected = vec![14, 0, 0, 0, 22, 0, 0, 0, 12];
    expected.extend_from_slice(b"rsa-sha2-512");
    expected.extend_from_slice(&[0, 0, 0, 2, 0xDE, 0xAD]);
    assert_eq!(response.payload().unwrap(), expected);
}

#[test]
fn write_appends_to_what_is_there() {
    let mut out = vec![9, 9];
    Response::Failure.write(&mut out).unwrap();
    assert_eq!(out, vec![9, 9, 0, 0, 0, 1, 5]);
}

#[test]
fn signature_flags_keep_known_bits() {
    let flags = SignatureFlags::from_bits_truncate(0xFFFF_FFFF);
    assert_eq!(flags.bits(), 7);
    let sha512 = SignatureFlags::from_bits_truncate(4);
    assert!(sha512.intersects(SignatureFlags::SSH_AGENT_RSA_SHA2_512));
    assert!(!sha512.intersects(SignatureFlags::SSH_AGENT_RSA_SHA2_256));
    assert!(!sha512.intersects(SignatureFlags::RESERVED));
    let both = SignatureFlags::from_bits_truncate(6 | 0x100);
    assert_eq!(both.bits(), 6);
    assert!(both.contains(6));
    assert!(!both.contains(7));
    assert!(both.intersects(3));
    assert_eq!(SignatureFlags::from_bits_truncate(8).bits(), 0);
}

#[test]
fn protocol_error_messages() {
    assert_eq!(ProtocolError::UnexpectedEof.message(), "unexpected end of file");
    assert!(is_peer_closed(ProtocolError::UnexpectedEof.message()));
    assert!(!is_peer_closed(ProtocolError::InvalidUtf8.message()));
}

#[test]
fn peer_closed_is_recognised_anywhere_in_the_text() {
    assert!(is_peer_closed("io error: unexpected end of file (os error)"));
    assert!(is_peer_closed("unexpected end of file"));
    assert!(!is_peer_closed("unexpected end of fil"));
    assert!(!is_peer_closed(""));
    assert!(!is_peer_closed("connection reset by peer"));
}

#[test]
fn contains_bytes_finds_subslices() {
    assert!(contains_bytes(b"abcabd", b"abd"));
    assert!(contains_bytes(b"abc", b""));
    assert!(contains_bytes(b"", b""));
    assert!(!contains_bytes(b"", b"a"));
    assert!(!contains_bytes(b"ab", b"abc"));
    assert!(contains_bytes(b"aab", b"ab"));
    assert!(!contains_bytes(b"abab", b"ba b"));
}
