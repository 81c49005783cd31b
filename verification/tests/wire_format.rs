use chat::error::ChatError;
use chat::message::{AuthRequest, AuthResponse, ClientMessage};
use chat::wire::{decode_string, encode_string};

fn be64(x: u64) -> Vec<u8> {
    x.to_be_bytes().to_vec()
}

fn frame(s: &str) -> Vec<u8> {
    let mut v = be64(s.len() as u64);
    v.extend_from_slice(s.as_bytes());
    v
}

#[test]
fn client_message_encode_exact_bytes() {
    let msg = ClientMessage::new(7, 2, "hi".to_string());
    let bytes = msg.encode().unwrap();
    let mut expected = be64(2);
    expected.extend(be64(7));
    expected.extend(frame("hi"));
    assert_eq!(bytes, expected);
}

#[test]
fn client_message_roundtrip() {
    let msg = ClientMessage::new(42, 1001, "héllo wörld ✓".to_string());
    let bytes = msg.encode().unwrap();
    let back = ClientMessage::decode(&bytes).unwrap();
    assert_eq!(back.get_sender_id(), 42);
    assert_eq!(back.get_recipient_id(), 1001);
    assert_eq!(back.get_content(), "héllo wörld ✓");
}

#[test]
fn client_message_ignores_trailing_bytes() {
    let msg = ClientMessage::new(1, 2, "abc".to_string());
    let mut bytes = msg.encode().unwrap();
    bytes.extend_from_slice(&[9, 9, 9]);
    let back = ClientMessage::decode(&bytes).unwrap();
    assert_eq!(back.get_content(), "abc");
}

#[test]
fn client_message_too_short_is_protocol_error() {
    match ClientMessage::decode(&[0u8; 15]) {
        Err(ChatError::Protocol(m)) => assert_eq!(m, "Message too short for header"),
        _ => panic!("expected a protocol error"),
    }
}

#[test]
fn client_message_without_content_frame_is_decode_error() {
    let bytes = [0u8; 16];
    assert!(matches!(ClientMessage::decode(&bytes), Err(ChatError::Decode(_))));
    let mut truncated = be64(1);
    truncated.extend(be64(2));
    truncated.extend(be64(10));
    truncated.extend_from_slice(b"abc");
    assert!(matches!(ClientMessage::decode(&truncated), Err(ChatError::Decode(_))));
    let mut huge = be64(1);
    huge.extend(be64(2));
    huge.extend(be64(u64::MAX));
    assert!(matches!(ClientMessage::decode(&huge), Err(ChatError::Decode(_))));
}

#[test]
fn client_message_invalid_utf8_is_decode_error() {
    let mut bytes = be64(1);
    bytes.extend(be64(2));
    bytes.extend(be64(2));
    bytes.extend_from_slice(&[0xff, 0xfe]);
    assert!(matches!(ClientMessage::decode(&bytes), Err(ChatError::Decode(_))));
}

#[test]
fn decode_recipient_id_reads_header_only() {
    let msg = ClientMessage::new(5, 0x0102030405060708, "x".to_string());
    let bytes = msg.encode().unwrap();
    assert_eq!(ClientMessage::decode_recipient_id(&bytes).unwrap(), 0x0102030405060708);
    assert_eq!(ClientMessage::decode_recipient_id(&bytes[..8]).unwrap(), 0x0102030405060708);
    match ClientMessage::decode_recipient_id(&bytes[..7]) {
        Err(ChatError::Protocol(m)) => assert_eq!(m, "Buffer too short for recipient_id"),
        _ => panic!("expected a protocol error"),
    }
}

#[test]
fn string_frame_matches_bincode() {
    let s = "grüße".to_string();
    let ours = encode_string(&s).unwrap();
    let config = bincode::config::standard().with_big_endian().with_fixed_int_encoding();
    let theirs = bincode::encode_to_vec(&s, config).unwrap();
    assert_eq!(ours, theirs);
    assert_eq!(ours, frame("grüße"));
    let (back, n) = decode_string(&ours).unwrap();
    assert_eq!(back, s);
    assert_eq!(n, ours.len());
    assert!(decode_string(&ours[..5]).is_err());
}

#[test]
fn auth_request_encode_exact_bytes() {
    let reg = AuthRequest::Register { username: "al".to_string(), password: "pw".to_string() };
    let mut expected = vec![0, 0, 0, 0];
    expected.extend(frame("al"));
    expected.extend(frame("pw"));
    assert_eq!(reg.encode().unwrap(), expected);

    let login = AuthRequest::Login { username: "al".to_string(), password: "pw".to_string() };
    assert_eq!(login.encode().unwrap()[..4], [0, 0, 0, 1]);

    let lookup = AuthRequest::Lookup { username: "bo".to_string() };
    let mut expected = vec![0, 0, 0, 2];
    expected.extend(frame("bo"));
    assert_eq!(lookup.encode().unwrap(), expected);

    assert_eq!(AuthRequest::StartChat.encode().unwrap(), vec![0, 0, 0, 3]);
}

#[test]
fn auth_request_roundtrip() {
    let reqs = vec![
        AuthRequest::Register { username: "alice".to_string(), password: "s3cret".to_string() },
        AuthRequest::Login { username: "bob".to_string(), password: "".to_string() },
        AuthRequest::Lookup { username: "carol".to_string() },
        AuthRequest::StartChat,
    ];
    for req in reqs {
        let bytes = req.encode().unwrap();
        let back = AuthRequest::decode(&bytes).unwrap();
        match (req, back) {
            (
                AuthRequest::Register { username: a, password: b },
                AuthRequest::Register { username: c, password: d },
            ) => assert_eq!((a, b), (c, d)),
            (
                AuthRequest::Login { username: a, password: b },
                AuthRequest::Login { username: c, password: d },
            ) => assert_eq!((a, b), (c, d)),
            (AuthRequest::Lookup { username: a }, AuthRequest::Lookup { username: c }) => assert_eq!(a, c),
            (AuthRequest::StartChat, AuthRequest::StartChat) => {}
            _ => panic!("variant changed"),
        }
    }
}

#[test]
fn auth_request_bad_input_is_decode_error() {
    assert!(matches!(AuthRequest::decode(&[0, 0, 0]), Err(ChatError::Decode(_))));
    assert!(matches!(AuthRequest::decode(&[0, 0, 0, 4]), Err(ChatError::Decode(_))));
    let mut only_name = vec![0, 0, 0, 0];
    only_name.extend(frame("al"));
    assert!(matches!(AuthRequest::decode(&only_name), Err(ChatError::Decode(_))));
}

#[test]
fn auth_response_encode_and_roundtrip() {
    let mut expected = vec![0, 0, 0, 0];
    expected.extend(be64(9));
    assert_eq!(AuthResponse::Success { user_id: 9 }.encode().unwrap(), expected);

    let mut expected = vec![0, 0, 0, 1];
    expected.extend(frame("nope"));
    assert_eq!(AuthResponse::Failure { reason: "nope".to_string() }.encode().unwrap(), expected);

    let mut expected = vec![0, 0, 0, 2];
    expected.extend(be64(3));
    assert_eq!(AuthResponse::LookupResult { user_id: 3 }.encode().unwrap(), expected);

    let bytes = AuthResponse::Failure { reason: "User not found".to_string() }.encode().unwrap();
    match AuthResponse::decode(&bytes).unwrap() {
        AuthResponse::Failure { reason } => assert_eq!(reason, "User not found"),
        _ => panic!("variant changed"),
    }
    let bytes = AuthResponse::LookupResult { user_id: u64::MAX }.encode().unwrap();
    assert!(matches!(AuthResponse::decode(&bytes).unwrap(), AuthResponse::LookupResult { user_id } if user_id == u64::MAX));
}

#[test]
fn auth_response_bad_input_is_decode_error() {
    assert!(matches!(AuthResponse::decode(&[]), Err(ChatError::Decode(_))));
    assert!(matches!(AuthResponse::decode(&[0, 0, 0, 0, 1, 2]), Err(ChatError::Decode(_))));
    assert!(matches!(AuthResponse::decode(&[0, 0, 0, 3, 0, 0, 0, 0, 0, 0, 0, 0]), Err(ChatError::Decode(_))));
}

#[test]
fn chat_error_from_io_error() {
    let e: ChatError = std::io::Error::new(std::io::ErrorKind::Other, "x").into();
    assert!(matches!(e, ChatError::Io(_)));
}

#[test]
fn unknown_variant_index_is_named_in_the_error() {
    match AuthRequest::decode(&[0, 0, 0, 4]) {
        Err(ChatError::Decode(bincode::error::DecodeError::Other(text))) => {
            assert_eq!(text, "unexpected variant index of AuthRequest")
        }
        _ => panic!("expected a decoding error"),
    }
    match AuthResponse::decode(&[0, 0, 0, 3]) {
        Err(ChatError::Decode(bincode::error::DecodeError::Other(text))) => {
            assert_eq!(text, "unexpected variant index of AuthResponse")
        }
        _ => panic!("expected a decoding error"),
    }
}
