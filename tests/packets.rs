use mcclient::error::ProtocolError;
use mcclient::packets::{
    chat_from_server, chat_message_packet, favicon_png, handshake_packet, keep_alive_response,
    login_start_packet, login_success, operator_command, ping_request_packet, ping_response,
    play_dispatch, play_packet, set_compression, split_status_reply, status_request_packet,
    status_response, OperatorCommand, PlayAction,
};

#[test]
fn handshake_bytes() {
    let p = handshake_packet(0x00, 757, "a.b", 25565, 2);
    assert_eq!(p, vec![0x00, 0xf5, 0x05, 3, b'a', b'.', b'b', 0x63, 0xdd, 0x02]);
}

#[test]
fn status_and_ping_requests() {
    assert_eq!(status_request_packet(0x00), vec![0x01, 0x00]);
    assert_eq!(ping_request_packet(), vec![9, 0x01, 0, 0, 0, 0, 0, 0, 0, 77]);
}

#[test]
fn login_start_limits_name() {
    assert_eq!(login_start_packet("Steve"), Some(vec![7, 0x00, 5, b'S', b't', b'e', b'v', b'e']));
    assert_eq!(login_start_packet("abcdefghijklmnopq"), None);
    assert!(login_start_packet("abcdefghijklmnop").is_some());
}

#[test]
fn keep_alive_echo_frame() {
    let token = [1u8, 2, 3, 4, 5, 6, 7, 8];
    assert_eq!(keep_alive_response(&token), vec![10, 0x00, 0x0f, 1, 2, 3, 4, 5, 6, 7, 8]);
    match play_dispatch(true, 0x21, &token).unwrap() {
        (true, PlayAction::KeepAlive(frame)) => {
            assert_eq!(frame, vec![10, 0x00, 0x0f, 1, 2, 3, 4, 5, 6, 7, 8])
        }
        other => panic!("unexpected {:?}", other),
    }
    assert_eq!(play_dispatch(true, 0x21, &token[..7]).unwrap_err(), ProtocolError::ProtocolViolation);
}

#[test]
fn chat_packet_and_commands() {
    assert_eq!(chat_message_packet("hi"), Some(vec![5, 0x00, 0x03, 2, b'h', b'i']));
    let long = "x".repeat(257);
    assert_eq!(chat_message_packet(&long), None);
    assert!(matches!(operator_command(&long), OperatorCommand::TooLong));
    assert!(matches!(operator_command("/help"), OperatorCommand::Help));
    assert!(matches!(operator_command("/quit"), OperatorCommand::Quit));
    assert!(matches!(operator_command("/all players"), OperatorCommand::ListPlayers));
    match operator_command("hello") {
        OperatorCommand::Send(v) => assert_eq!(v, vec![8, 0, 3, 5, b'h', b'e', b'l', b'l', b'o']),
        other => panic!("unexpected {:?}", other),
    }
}

#[test]
fn status_reply_split_and_read() {
    let json = br#"{"version":{"name":"1.18"}}"#;
    let mut status = vec![0x00, json.len() as u8];
    status.extend_from_slice(json);
    let mut reply = vec![status.len() as u8];
    reply.extend_from_slice(&status);
    let pong = vec![9, 0x01, 0, 0, 0, 0, 0, 0, 0, 77];
    reply.extend_from_slice(&pong);
    let (first, second) = split_status_reply(&reply).unwrap();
    assert_eq!(second, pong);
    let s = status_response(&first).unwrap();
    assert_eq!((s.packet_id, s.packet_size, s.json_size), (0, status.len() as i32, json.len() as i32));
    assert_eq!(s.json.as_bytes(), &json[..]);
    let p = ping_response(&second).unwrap();
    assert_eq!((p.packet_id, p.packet_size, p.payload), (1, 9, 77));
    assert_eq!(ping_response(&[3, 1, 0, 0]).unwrap_err(), ProtocolError::ProtocolViolation);
}

#[test]
fn set_compression_threshold() {
    assert_eq!(set_compression(&[0x03, 0x80, 0x02]), Ok(256));
    assert_eq!(set_compression(&[0x02, 0x80, 0x02]), Err(ProtocolError::ProtocolViolation));
}

#[test]
fn play_packet_plain_and_compressed() {
    assert_eq!(play_packet(&[0x00, 0x21, 1, 2]), Ok((0x21, vec![1, 2])));
    let inner = vec![0x0f, 4, b'"', b'h', b'i', b'"'];
    let c = yazi::compress(&inner, yazi::Format::Zlib, yazi::CompressionLevel::Default).unwrap();
    let mut payload = vec![inner.len() as u8];
    payload.extend_from_slice(&c);
    assert_eq!(play_packet(&payload), Ok((0x0f, inner[1..].to_vec())));
    let mut bad = payload.clone();
    let last = bad.len() - 1;
    bad[last] ^= 0xff;
    assert_eq!(play_packet(&bad), Err(ProtocolError::CorruptPayload));
}

#[test]
fn login_success_and_chat_text() {
    let mut body = vec![7u8; 16];
    body.extend_from_slice(&[3, b'B', b'o', b'b']);
    assert_eq!(login_success(&body), Ok((vec![7u8; 16], "Bob".to_string())));
    match play_dispatch(false, 0x02, &body).unwrap() {
        (true, PlayAction::LoggedIn(u, n)) => assert_eq!((u, n), (vec![7u8; 16], "Bob".to_string())),
        other => panic!("unexpected {:?}", other),
    }
    assert!(matches!(play_dispatch(true, 0x02, &[1]).unwrap(), (true, PlayAction::Ignore)));
    assert!(matches!(play_dispatch(false, 0x50, &[1]).unwrap(), (false, PlayAction::Ignore)));
    assert_eq!(chat_from_server(&[2, b'{', b'}', 9]), Ok("{}".to_string()));
    assert_eq!(chat_from_server(&[5, b'{']), Err(ProtocolError::TruncatedStream));
}

#[test]
fn favicon_decoding() {
    assert_eq!(favicon_png("data:image/png;base64,aGk="), Some(b"hi".to_vec()));
    assert_eq!(favicon_png("aGk="), Some(b"hi".to_vec()));
    assert_eq!(favicon_png("data:image/png;base64,!!"), None);
}
