use mcclient::error::ProtocolError;
use mcclient::player_info::{decode_player_info, player_info, RosterUpdate};
use mcclient::roster::{PlayerInfo, Players};

fn player(id: u8, name: &str, ping: i32) -> PlayerInfo {
    PlayerInfo { uuid: vec![id; 16], username: name.to_string(), ping }
}

fn names_and_pings(p: &Players) -> Vec<(String, i32)> {
    p.players().iter().map(|r| (r.username.clone(), r.ping)).collect()
}

#[test]
fn register_twice_keeps_one_record() {
    let mut roster = Players::new();
    roster.register(player(1, "Alice", 30));
    roster.register(player(1, "Alice", 30));
    assert_eq!(names_and_pings(&roster), vec![("Alice".to_string(), 30)]);
}

#[test]
fn register_known_uuid_updates_only_ping() {
    let mut roster = Players::new();
    roster.register(player(1, "Alice", 30));
    roster.register(player(2, "Bob", 50));
    roster.register(player(1, "Mallory", 99));
    assert_eq!(
        names_and_pings(&roster),
        vec![("Alice".to_string(), 99), ("Bob".to_string(), 50)]
    );
}

#[test]
fn remove_then_lookup_and_remove_again() {
    let mut roster = Players::new();
    roster.register(player(1, "Alice", 30));
    roster.register(player(2, "Bob", 50));
    roster.remove_player(&[1; 16]);
    assert_eq!(roster.position(&[1; 16]), None);
    assert_eq!(names_and_pings(&roster), vec![("Bob".to_string(), 50)]);
    roster.remove_player(&[1; 16]);
    assert_eq!(names_and_pings(&roster), vec![("Bob".to_string(), 50)]);
}

#[test]
fn update_ping_of_known_and_unknown() {
    let mut roster = Players::new();
    roster.register(player(1, "Alice", 30));
    roster.update_ping(&[1; 16], 12);
    roster.update_ping(&[7; 16], 99);
    assert_eq!(names_and_pings(&roster), vec![("Alice".to_string(), 12)]);
    assert_eq!(roster.len(), 1);
}

fn add_payload(uuid: [u8; 16], name: &str, ping: u8) -> Vec<u8> {
    let mut p = vec![0x00, 0x01];
    p.extend_from_slice(&uuid);
    p.push(name.len() as u8);
    p.extend_from_slice(name.as_bytes());
    p.push(0x00); // no properties
    p.push(0x01); // game mode
    p.push(ping);
    p.push(0x00); // no display name
    p
}

#[test]
fn player_info_add_one_player() {
    let uuid = [0xab; 16];
    let payload = add_payload(uuid, "Steve", 42);
    let (updates, used) = decode_player_info(&payload).unwrap();
    assert_eq!(used, payload.len());
    assert_eq!(updates.len(), 1);
    match &updates[0] {
        RosterUpdate::Register(p) => {
            assert_eq!(p.uuid, uuid.to_vec());
            assert_eq!(p.username, "Steve");
            assert_eq!(p.ping, 42);
        }
        other => panic!("unexpected update {:?}", other),
    }
}

#[test]
fn player_info_add_with_properties_and_display_name() {
    let mut p = vec![0x00, 0x01];
    p.extend_from_slice(&[3; 16]);
    p.extend_from_slice(&[3, b'A', b'b', b'c']);
    p.push(0x02); // two properties
    p.extend_from_slice(&[1, b'n', 1, b'v', 0x00]);
    p.extend_from_slice(&[1, b'n', 1, b'v', 0x01, 2, 0xaa, 0xbb]);
    p.push(0x00); // game mode
    p.extend_from_slice(&[0xac, 0x02]); // ping 300
    p.extend_from_slice(&[0x01, 2, b'x', b'y']);
    let (updates, used) = decode_player_info(&p).unwrap();
    assert_eq!(used, p.len());
    match &updates[0] {
        RosterUpdate::Register(r) => {
            assert_eq!(r.username, "Abc");
            assert_eq!(r.ping, 300);
        }
        other => panic!("unexpected update {:?}", other),
    }
}

#[test]
fn player_info_updates_roster() {
    let mut roster = Players::new();
    player_info(&add_payload([1; 16], "Alice", 20), &mut roster).unwrap();
    player_info(&add_payload([2; 16], "Bob", 40), &mut roster).unwrap();
    let mut ping = vec![0x02, 0x01];
    ping.extend_from_slice(&[1; 16]);
    ping.push(77);
    player_info(&ping, &mut roster).unwrap();
    assert_eq!(
        names_and_pings(&roster),
        vec![("Alice".to_string(), 77), ("Bob".to_string(), 40)]
    );
    let mut remove = vec![0x04, 0x02];
    remove.extend_from_slice(&[1; 16]);
    remove.extend_from_slice(&[2; 16]);
    player_info(&remove, &mut roster).unwrap();
    assert_eq!(roster.len(), 0);
}

#[test]
fn player_info_skips_chat_session_and_display_name() {
    let mut p = vec![0x01, 0x01];
    p.extend_from_slice(&[5; 16]);
    p.push(0x00);
    let (updates, used) = decode_player_info(&p).unwrap();
    assert_eq!((updates.len(), used), (0, p.len()));
    let mut p = vec![0x03, 0x01];
    p.extend_from_slice(&[5; 16]);
    p.extend_from_slice(&[0x01, 1, b'z']);
    let (updates, used) = decode_player_info(&p).unwrap();
    assert_eq!((updates.len(), used), (0, p.len()));
}

#[test]
fn player_info_errors() {
    assert_eq!(decode_player_info(&[0x05, 0x00]).unwrap_err(), ProtocolError::ProtocolViolation);
    let truncated = &add_payload([1; 16], "Alice", 20)[..10];
    assert_eq!(decode_player_info(truncated).unwrap_err(), ProtocolError::TruncatedStream);
    let mut bad_name = add_payload([1; 16], "Al", 20);
    bad_name[19] = 0xff;
    assert_eq!(decode_player_info(&bad_name).unwrap_err(), ProtocolError::Utf8DecodingFailure);
    let mut roster = Players::new();
    roster.register(player(9, "Zed", 1));
    assert!(player_info(truncated, &mut roster).is_err());
    assert_eq!(roster.len(), 1);
}
