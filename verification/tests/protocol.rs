use maze_ssh::protocol::{
    decode_message, encode_message, try_read_frame, AgentError, AgentMessage, AgentResponse,
    SSH_AGENTC_REMOVE_ALL_IDENTITIES, SSH_AGENTC_REQUEST_IDENTITIES, SSH_AGENTC_SIGN_REQUEST,
    SSH_AGENT_FAILURE, SSH_AGENT_IDENTITIES_ANSWER, SSH_AGENT_RSA_SHA2_256,
    SSH_AGENT_SIGN_RESPONSE, SSH_AGENT_SUCCESS,
};

fn put_u32(buf: &mut Vec<u8>, v: u32) {
    buf.extend_from_slice(&v.to_be_bytes());
}

fn put_string(buf: &mut Vec<u8>, d: &[u8]) {
    put_u32(buf, d.len() as u32);
    buf.extend_from_slice(d);
}

fn make_request_identities() -> Vec<u8> {
    vec![0, 0, 0, 1, SSH_AGENTC_REQUEST_IDENTITIES]
}

fn make_sign_request(key: &[u8], data: &[u8], flags: u32) -> Vec<u8> {
    let mut payload = Vec::new();
    payload.push(SSH_AGENTC_SIGN_REQUEST);
    put_string(&mut payload, key);
    put_string(&mut payload, data);
    put_u32(&mut payload, flags);
    let mut msg = Vec::new();
    put_u32(&mut msg, payload.len() as u32);
    msg.extend_from_slice(&payload);
    msg
}

#[test]
fn decode_request_identities() {
    let buf = make_request_identities();
    let msg = decode_message(&buf).unwrap();
    assert!(matches!(msg, AgentMessage::RequestIdentities));
}

#[test]
fn decode_sign_request() {
    let key = b"fake-key-blob";
    let data = b"data-to-sign";
    let buf = make_sign_request(key, data, SSH_AGENT_RSA_SHA2_256);
    let msg = decode_message(&buf).unwrap();
    match msg {
        AgentMessage::SignRequest { key_blob, data: d, flags } => {
            assert_eq!(key_blob, key);
            assert_eq!(d, data);
            assert_eq!(flags, SSH_AGENT_RSA_SHA2_256);
        }
        _ => panic!("expected SignRequest"),
    }
}

#[test]
fn decode_too_short() {
    let buf = vec![0, 0, 0];
    assert!(decode_message(&buf).is_err());
}

#[test]
fn encode_failure() {
    let msg = encode_message(&AgentResponse::Failure);
    assert_eq!(msg, vec![0, 0, 0, 1, SSH_AGENT_FAILURE]);
}

#[test]
fn encode_success() {
    let msg = encode_message(&AgentResponse::Success);
    assert_eq!(msg, vec![0, 0, 0, 1, SSH_AGENT_SUCCESS]);
}

#[test]
fn encode_identities_answer() {
    let msg = encode_message(&AgentResponse::IdentitiesAnswer {
        identities: vec![(b"key1".to_vec(), "comment1".to_string())],
    });
    assert_eq!(msg[4], SSH_AGENT_IDENTITIES_ANSWER);
    let count = u32::from_be_bytes([msg[5], msg[6], msg[7], msg[8]]);
    assert_eq!(count, 1);
}

#[test]
fn encode_sign_response() {
    let sig = b"signature-data";
    let msg = encode_message(&AgentResponse::SignResponse { signature_blob: sig.to_vec() });
    assert_eq!(msg[4], SSH_AGENT_SIGN_RESPONSE);
}

#[test]
fn round_trip_identities() {
    let response = AgentResponse::IdentitiesAnswer {
        identities: vec![
            (b"key-blob-1".to_vec(), "test key".to_string()),
            (b"key-blob-2".to_vec(), "other key".to_string()),
        ],
    };
    let encoded = encode_message(&response);
    let (frame, consumed) = try_read_frame(&encoded).unwrap();
    assert_eq!(consumed, encoded.len());
    assert_eq!(frame, encoded);
}

#[test]
fn try_read_frame_incomplete() {
    assert!(try_read_frame(&[0, 0, 0]).is_none());
    assert!(try_read_frame(&[0, 0, 0, 10, 1]).is_none());
}

#[test]
fn try_read_frame_exact() {
    let buf = vec![0, 0, 0, 2, 11, 0];
    let (frame, consumed) = try_read_frame(&buf).unwrap();
    assert_eq!(consumed, 6);
    assert_eq!(frame, buf);
}

#[test]
fn decode_remove_all() {
    let buf = vec![0, 0, 0, 1, SSH_AGENTC_REMOVE_ALL_IDENTITIES];
    let msg = decode_message(&buf).unwrap();
    assert!(matches!(msg, AgentMessage::RemoveAllIdentities));
}

#[test]
fn decode_unknown_type() {
    let buf = vec![0, 0, 0, 3, 99, 0xAB, 0xCD];
    let msg = decode_message(&buf).unwrap();
    match msg {
        AgentMessage::Unknown { msg_type, payload } => {
            assert_eq!(msg_type, 99);
            assert_eq!(payload, vec![0xAB, 0xCD]);
        }
        _ => panic!("expected Unknown"),
    }
}

// ── Further cases ──

#[test]
fn decode_too_short_reports_need_and_got() {
    match decode_message(&[0, 0, 0]) {
        Err(AgentError::TooShort { need, got }) => {
            assert_eq!(need, 5);
            assert_eq!(got, 3);
        }
        _ => panic!("expected TooShort"),
    }
}

#[test]
fn decode_message_too_large() {
    // length 0x00040001 = 262145 > 262144
    match decode_message(&[0, 4, 0, 1, 11]) {
        Err(AgentError::InvalidFormat(m)) => {
            assert_eq!(m, "message too large: 262145 bytes (max 262144)")
        }
        _ => panic!("expected InvalidFormat"),
    }
}

#[test]
fn decode_truncated_frame() {
    match decode_message(&[0, 0, 0, 9, 13, 0]) {
        Err(AgentError::TooShort { need, got }) => {
            assert_eq!(need, 13);
            assert_eq!(got, 6);
        }
        _ => panic!("expected TooShort"),
    }
}

#[test]
fn decode_sign_request_without_flags() {
    let mut payload = vec![SSH_AGENTC_SIGN_REQUEST];
    put_string(&mut payload, b"k");
    put_string(&mut payload, b"d");
    let mut msg = Vec::new();
    put_u32(&mut msg, payload.len() as u32);
    msg.extend_from_slice(&payload);
    match decode_message(&msg).unwrap() {
        AgentMessage::SignRequest { key_blob, data, flags } => {
            assert_eq!(key_blob, b"k");
            assert_eq!(data, b"d");
            assert_eq!(flags, 0);
        }
        _ => panic!("expected SignRequest"),
    }
}

#[test]
fn decode_string_too_large() {
    let msg = vec![0, 0, 0, 5, 18, 0, 5, 0, 0];
    match decode_message(&msg) {
        Err(AgentError::InvalidFormat(m)) => assert_eq!(m, "string too large: 327680 bytes"),
        _ => panic!("expected InvalidFormat"),
    }
}

#[test]
fn decode_extension_and_add_identity() {
    let mut payload = vec![27];
    put_string(&mut payload, b"query");
    payload.extend_from_slice(&[1, 2]);
    let mut msg = Vec::new();
    put_u32(&mut msg, payload.len() as u32);
    msg.extend_from_slice(&payload);
    match decode_message(&msg).unwrap() {
        AgentMessage::Extension { name, data } => {
            assert_eq!(name, "query");
            assert_eq!(data, vec![1, 2]);
        }
        _ => panic!("expected Extension"),
    }
    match decode_message(&[0, 0, 0, 3, 25, 7, 8]).unwrap() {
        AgentMessage::AddIdentity { raw } => assert_eq!(raw, vec![7, 8]),
        _ => panic!("expected AddIdentity"),
    }
}

#[test]
fn decode_extension_bad_utf8() {
    let msg = vec![0, 0, 0, 6, 27, 0, 0, 0, 1, 0xFF];
    match decode_message(&msg) {
        Err(AgentError::InvalidFormat(m)) => assert!(m.starts_with("extension name: ")),
        _ => panic!("expected InvalidFormat"),
    }
}

#[test]
fn encode_identities_exact_bytes() {
    let msg = encode_message(&AgentResponse::IdentitiesAnswer {
        identities: vec![(vec![0xAA], "c".to_string())],
    });
    assert_eq!(msg, vec![0, 0, 0, 15, 12, 0, 0, 0, 1, 0, 0, 0, 1, 0xAA, 0, 0, 0, 1, b'c']);
}

#[test]
fn frame_too_large_rejected_and_extra_bytes_left() {
    assert!(try_read_frame(&[0, 4, 0, 1, 0]).is_none());
    let (frame, n) = try_read_frame(&[0, 0, 0, 1, 6, 9, 9]).unwrap();
    assert_eq!(frame, vec![0, 0, 0, 1, 6]);
    assert_eq!(n, 5);
}

#[test]
fn bytes_after_a_frame_do_not_change_decoding() {
    let frame = vec![0, 0, 0, 3, 99, 0xAB, 0xCD];
    let mut longer = frame.clone();
    longer.extend_from_slice(&[1, 2, 3, 4]);
    match (decode_message(&frame).unwrap(), decode_message(&longer).unwrap()) {
        (AgentMessage::Unknown { msg_type: a, payload: p }, AgentMessage::Unknown { msg_type: b, payload: q }) => {
            assert_eq!(a, b);
            assert_eq!(p, q);
        }
        _ => panic!("expected Unknown"),
    }
}
