use rustmc::codec::encode_varint;
use rustmc::error::ServerError;
use rustmc::packet::configure::{ConfigurationPacketResponse, ConfigurationPacketType};
use rustmc::packet::handshake::HandshakePacketType;
use rustmc::packet::login::LoginPacketType;
use rustmc::packet::play::{PlayPacketClientBound, PlayPacketServerBound};
use rustmc::packet::status::StatusPacketType;
use rustmc::server_util::RegistryEntry;

fn frame(id: i32, payload: &[u8]) -> Vec<u8> {
    let mut body = encode_varint(id);
    body.extend_from_slice(payload);
    let mut out = encode_varint(body.len() as i32);
    out.extend_from_slice(&body);
    out
}

fn mcstr(s: &str) -> Vec<u8> {
    let mut out = encode_varint(s.len() as i32);
    out.extend_from_slice(s.as_bytes());
    out
}

#[test]
fn parses_handshake() {
    let bytes = vec![
        0x10u8, 0x00, 0xf7, 0x05, 0x09, 0x6c, 0x6f, 0x63, 0x61, 0x6c, 0x68, 0x6f, 0x73, 0x74,
        0x63, 0xdd, 0x01,
    ];
    match HandshakePacketType::parse(bytes).unwrap() {
        HandshakePacketType::Handshake { protocol, server_addr, server_port, next_state } => {
            assert_eq!(protocol, 759);
            assert_eq!(server_addr, "localhost");
            assert_eq!(server_port, 25565);
            assert_eq!(next_state, 1);
        },
    }
}

#[test]
fn handshake_rejects_wrong_declared_size() {
    let mut bytes = frame(0x00, &[0xf7, 0x05]);
    bytes[0] = 9;
    assert!(matches!(
        HandshakePacketType::parse(bytes),
        Err(ServerError::WrongPacketSize { expected: 3, got: 9 })
    ));
}

#[test]
fn parses_status_and_ping() {
    assert!(matches!(
        StatusPacketType::parse(vec![0x01, 0x00]).unwrap(),
        StatusPacketType::Status
    ));
    let ping = vec![0x09u8, 0x01, 0, 0, 0, 0, 0, 0, 0, 0x2a];
    match StatusPacketType::parse(ping.clone()).unwrap() {
        StatusPacketType::Ping { raw } => assert_eq!(raw, ping),
        _ => panic!("expected a ping"),
    }
    assert!(matches!(
        StatusPacketType::parse(frame(0x05, &[])),
        Err(ServerError::UnknownPacketId(5))
    ));
}

#[test]
fn parses_login_start() {
    let mut payload = mcstr("Alice");
    payload.extend_from_slice(&[0u8; 16]);
    match LoginPacketType::parse(frame(0x00, &payload)).unwrap() {
        LoginPacketType::LoginStart { name, uuid } => {
            assert_eq!(name, "Alice");
            assert_eq!(uuid, 0);
        },
        _ => panic!("expected a login start"),
    }
    assert!(matches!(
        LoginPacketType::parse(frame(0x03, &[])).unwrap(),
        LoginPacketType::LoginAcknowledged
    ));
}

#[test]
fn parses_client_information() {
    let mut payload = mcstr("en_us");
    payload.extend_from_slice(&[8, 0, 1, 0x7f, 1, 0, 1]);
    match ConfigurationPacketType::parse(frame(0x00, &payload)).unwrap() {
        ConfigurationPacketType::ClientInformation {
            locale,
            view_distance,
            chat_mode,
            chat_has_colors,
            displayed_skin_parts,
            main_hand,
            enable_text_filtering,
            allow_server_listings,
        } => {
            assert_eq!(locale, "en_us");
            assert_eq!(view_distance, 8);
            assert_eq!(chat_mode, 0);
            assert!(chat_has_colors);
            assert_eq!(displayed_skin_parts, 0x7f);
            assert_eq!(main_hand, 1);
            assert!(!enable_text_filtering);
            assert!(allow_server_listings);
        },
        _ => panic!("expected client information"),
    }
}

#[test]
fn parses_known_packs() {
    let mut payload = encode_varint(1);
    payload.extend_from_slice(&mcstr("minecraft"));
    payload.extend_from_slice(&mcstr("core"));
    payload.extend_from_slice(&mcstr("1.21"));
    match ConfigurationPacketType::parse(frame(0x07, &payload)).unwrap() {
        ConfigurationPacketType::ServerBoundKnownPacks { known_packs } => {
            assert_eq!(known_packs.len(), 1);
            assert_eq!(known_packs[0].namespace, "minecraft");
            assert_eq!(known_packs[0].id, "core");
            assert_eq!(known_packs[0].version, "1.21");
        },
        _ => panic!("expected known packs"),
    }
}

#[test]
fn parses_play_packets() {
    match PlayPacketServerBound::parse(frame(0x00, &encode_varint(7))).unwrap() {
        PlayPacketServerBound::ConfirmTeleportation { id } => assert_eq!(id, 7),
        _ => panic!("expected a teleport confirm"),
    }
    let mut pos = Vec::new();
    pos.extend_from_slice(&(-120f64).to_be_bytes());
    pos.extend_from_slice(&0f64.to_be_bytes());
    pos.extend_from_slice(&64f64.to_be_bytes());
    pos.push(1);
    match PlayPacketServerBound::parse(frame(0x1a, &pos)).unwrap() {
        PlayPacketServerBound::SetPlayerPosition { x_bits, y_bits, z_bits, on_ground } => {
            assert_eq!(f64::from_bits(x_bits), -120.0);
            assert_eq!(f64::from_bits(y_bits), 0.0);
            assert_eq!(f64::from_bits(z_bits), 64.0);
            assert!(on_ground);
        },
        _ => panic!("expected a position"),
    }
    let mut rot = Vec::new();
    rot.extend_from_slice(&90f32.to_be_bytes());
    rot.extend_from_slice(&(-10f32).to_be_bytes());
    rot.push(1);
    match PlayPacketServerBound::parse(frame(0x1c, &rot)).unwrap() {
        PlayPacketServerBound::SetPlayerRotation { yaw_bits, pitch_bits, on_ground } => {
            assert_eq!(f32::from_bits(yaw_bits), 90.0);
            assert_eq!(f32::from_bits(pitch_bits), -10.0);
            assert!(on_ground);
        },
        _ => panic!("expected a rotation"),
    }
    let mut ping = Vec::new();
    ping.extend_from_slice(&42u64.to_be_bytes());
    assert!(matches!(
        PlayPacketServerBound::parse(frame(0x21, &ping)).unwrap(),
        PlayPacketServerBound::PingRequest(42)
    ));
    assert!(matches!(
        PlayPacketServerBound::parse(frame(0x7a, &[])),
        Err(ServerError::UnknownPacketId(0x7a))
    ));
}

#[test]
fn play_rejects_oversized_frames() {
    let payload = vec![0u8; 32768];
    let r = PlayPacketServerBound::parse(frame(0x00, &payload));
    assert!(matches!(r, Err(ServerError::PacketTooBig { got: 32769 })));
}

#[test]
fn builds_simple_play_frames() {
    assert_eq!(PlayPacketClientBound::change_difficulty(1), vec![3, 0x0b, 1, 0]);
    assert_eq!(PlayPacketClientBound::set_held_item(0), vec![2, 0x53, 0]);
    let mut expected = vec![6u8, 0x1f];
    expected.extend_from_slice(&5i32.to_be_bytes());
    expected.push(24);
    assert_eq!(PlayPacketClientBound::entity_event(5, 24), expected);
    assert_eq!(
        PlayPacketClientBound::entity_effect(5, 15, 1, 0x7f, 0x07),
        vec![6, 0x76, 5, 15, 1, 0x7f, 0x07]
    );
}

#[test]
fn abilities_frame_carries_speed_bit_patterns() {
    let mut expected = vec![10u8, 0x38, 0x0d];
    expected.extend_from_slice(&0.05f32.to_be_bytes());
    expected.extend_from_slice(&0.1f32.to_be_bytes());
    assert_eq!(PlayPacketClientBound::player_abilities(), expected);
}

#[test]
fn chat_frames_wrap_nbt_strings() {
    let p = PlayPacketClientBound::player_chat_message_fake(
        String::from("A"),
        String::from("hi"),
    );
    let mut payload = vec![0x08u8, 0, 2];
    payload.extend_from_slice(b"hi");
    payload.extend_from_slice(&encode_varint(1));
    payload.extend_from_slice(&[0x08, 0, 1]);
    payload.extend_from_slice(b"A");
    payload.push(0);
    assert_eq!(p, frame(0x1e, &payload));
}

#[test]
fn chunk_frame_prefixes_and_suffixes_section_data() {
    let data = vec![0xaau8, 0xbb];
    let p = PlayPacketClientBound::chunk_data(3, -2, data.clone());
    let mut payload = Vec::new();
    payload.extend_from_slice(&3i32.to_be_bytes());
    payload.extend_from_slice(&(-2i32).to_be_bytes());
    payload.extend_from_slice(&[0x0a, 0x00]);
    payload.extend_from_slice(&encode_varint(2));
    payload.extend_from_slice(&data);
    for _ in 0..7 {
        payload.push(0);
    }
    assert_eq!(p, frame(0x27, &payload));
}

#[test]
fn registry_data_lists_entries_without_payloads() {
    let entries = vec![
        RegistryEntry { id: String::from("minecraft:overworld"), data: None },
        RegistryEntry { id: String::from("minecraft:the_end"), data: None },
    ];
    let p = ConfigurationPacketResponse::registry_data(
        String::from("minecraft:dimension_type"),
        entries,
    );
    let mut payload = mcstr("minecraft:dimension_type");
    payload.extend_from_slice(&encode_varint(2));
    payload.extend_from_slice(&mcstr("minecraft:overworld"));
    payload.push(0);
    payload.extend_from_slice(&mcstr("minecraft:the_end"));
    payload.push(0);
    assert_eq!(p, frame(0x07, &payload));
}

#[test]
fn commands_frame_encodes_builtin_graph() {
    let p = PlayPacketClientBound::commands(rustmc::command::CommandNode::commands());
    let mut payload = encode_varint(3);
    // Root: type 0, one child (index 1).
    payload.push(0x00);
    payload.extend_from_slice(&encode_varint(1));
    payload.extend_from_slice(&encode_varint(1));
    // Literal "place": type 1, one child (index 2).
    payload.push(0x01);
    payload.extend_from_slice(&encode_varint(1));
    payload.extend_from_slice(&encode_varint(2));
    payload.extend_from_slice(&mcstr("place"));
    // Argument "id": type 2, executable, integer parser with a minimum.
    payload.push(0x02 | 0x04);
    payload.extend_from_slice(&encode_varint(0));
    payload.extend_from_slice(&mcstr("id"));
    payload.extend_from_slice(&encode_varint(3));
    payload.push(0x01);
    payload.extend_from_slice(&0i32.to_be_bytes());
    // Trailing root index.
    payload.extend_from_slice(&encode_varint(0));
    assert_eq!(p, frame(0x11, &payload));
}
