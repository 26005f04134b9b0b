use rustmc::block_registry::{BlockRegistry, BlockState, BlockStateDefinition, BlockStates};
use rustmc::codec::{encode_varint, next_bool, next_string, next_u32, next_varint, Reader};
use rustmc::error::ServerError;
use rustmc::packet::configure::ConfigurationPacketResponse;
use rustmc::resource_manager::{classify_registry_path, classify_tag_path, ResourceManager};
use rustmc::server::{CoreAction, MCServer};
use rustmc::server_connection::{
    parse_place_command, ConnectionStatusType, MCServerConnection,
};
use rustmc::server_util::{
    ChunkPos, DescriptionInfo, PlayerInfo, ServerConnectionThreadBound, ServerInfo,
    ServerMainThreadBound, TagEntry, TagEntryData, VersionInfo,
};

fn frame(id: i32, payload: &[u8]) -> Vec<u8> {
    let mut body = encode_varint(id);
    body.extend_from_slice(payload);
    let mut out = encode_varint(body.len() as i32);
    out.extend_from_slice(&body);
    out
}

fn mcstr(s: &str) -> Vec<u8> {
    let mut out = encode_varint(s.len() as i32);
    out.extend_from_slice(s.as_bytes());
    out
}

fn new_conn(name: &str) -> MCServerConnection {
    MCServerConnection::new(
        String::from(name),
        String::from("{\"description\":{\"text\":\"hi\"}}"),
        ResourceManager::new(BlockRegistry::new()),
    )
}

fn handshake_bytes(next_state: u8) -> Vec<u8> {
    vec![
        0x10, 0x00, 0xf7, 0x05, 0x09, 0x6c, 0x6f, 0x63, 0x61, 0x6c, 0x68, 0x6f, 0x73, 0x74, 0x63,
        0xdd, next_state,
    ]
}

#[test]
fn handshake_then_status() {
    let mut conn = new_conn("peer");
    conn.push_data(handshake_bytes(1));
    let f = conn.next_frame().unwrap();
    conn.handle_packet(f).unwrap();
    assert_eq!(conn.state, ConnectionStatusType::Status);
    conn.push_data(vec![0x01, 0x00]);
    let f = conn.next_frame().unwrap();
    let out = conn.handle_packet(f).unwrap();
    assert_eq!(out.packets.len(), 1);
    let expected = frame(0x00, &mcstr("{\"description\":{\"text\":\"hi\"}}"));
    assert_eq!(out.packets[0], expected);
}

#[test]
fn status_ping_echoes_bytes() {
    let mut conn = new_conn("peer");
    conn.state = ConnectionStatusType::Status;
    let ping = vec![0x09u8, 0x01, 0, 0, 0, 0, 0, 0, 0, 0x2a];
    let out = conn.handle_packet(ping.clone()).unwrap();
    assert_eq!(out.packets, vec![ping]);
}

#[test]
fn handshake_rejects_undefined_state() {
    let mut conn = new_conn("peer");
    let r = conn.handle_packet(handshake_bytes(5));
    assert_eq!(r.err(), Some(ServerError::InvalidServerState(5)));
    assert_eq!(conn.state, ConnectionStatusType::Handshake);
    let r = conn.handle_packet(handshake_bytes(0));
    assert_eq!(r.err(), Some(ServerError::InvalidServerState(0)));
    assert_eq!(conn.state, ConnectionStatusType::Handshake);
}

#[test]
fn transfer_accepts_nothing() {
    let mut conn = new_conn("peer");
    conn.state = ConnectionStatusType::Transfer;
    let r = conn.handle_packet(vec![0x01, 0x00]);
    assert_eq!(
        r.err(),
        Some(ServerError::ServerStateNotImplemented(ConnectionStatusType::Transfer))
    );
}

#[test]
fn login_to_play_happy_path() {
    let mut conn = new_conn("peer");
    conn.handle_packet(handshake_bytes(2)).unwrap();
    assert_eq!(conn.state, ConnectionStatusType::Login);

    let mut login_payload = mcstr("Alice");
    login_payload.extend_from_slice(&[0u8; 16]);
    let out = conn.handle_packet(frame(0x00, &login_payload)).unwrap();
    assert_eq!(conn.pretty_identifier, "Alice");
    let mut success = vec![0u8; 16];
    success.extend_from_slice(&mcstr("Alice"));
    success.extend_from_slice(&encode_varint(0));
    success.push(0);
    assert_eq!(out.packets, vec![frame(0x02, &success)]);

    conn.handle_packet(frame(0x03, &[])).unwrap();
    assert_eq!(conn.state, ConnectionStatusType::Configuration);

    // Client information: the view distance is clamped and the known packs
    // are announced.
    let mut info = mcstr("en_us");
    info.extend_from_slice(&[8, 0, 1, 0x7f, 1, 0, 1]);
    let out = conn.handle_packet(frame(0x00, &info)).unwrap();
    assert_eq!(conn.view_distance, 8);
    let mut packs = encode_varint(1);
    packs.extend_from_slice(&mcstr("minecraft"));
    packs.extend_from_slice(&mcstr("core"));
    packs.extend_from_slice(&mcstr("1.21"));
    assert_eq!(out.packets, vec![frame(0x0e, &packs)]);

    // Matching known packs ask the core for tags.
    let out = conn.handle_packet(frame(0x07, &packs)).unwrap();
    assert!(out.packets.is_empty());
    assert!(matches!(out.requests[0], ServerMainThreadBound::RequestTagInfo));

    // The core's burst: tags, registries, terminator.
    let out = conn.handle_core_message(ServerConnectionThreadBound::TagInfo(Vec::new()));
    assert_eq!(out.packets, vec![frame(0x0d, &encode_varint(0))]);
    assert!(matches!(out.requests[0], ServerMainThreadBound::RequestRegistryInfo));
    let out = conn.handle_core_message(ServerConnectionThreadBound::RegistryInfo {
        registry_id: String::from("minecraft:dimension_type"),
        entries: Vec::new(),
    });
    let mut reg = mcstr("minecraft:dimension_type");
    reg.extend_from_slice(&encode_varint(0));
    assert_eq!(out.packets, vec![frame(0x07, &reg)]);
    let out = conn.handle_core_message(ServerConnectionThreadBound::RegistryInfoFinished);
    assert_eq!(out.packets, vec![vec![1, 3]]);

    // The acknowledgement enters play and sends the initialization burst.
    let out = conn.handle_packet(frame(0x03, &[])).unwrap();
    assert_eq!(conn.state, ConnectionStatusType::Play);
    assert_eq!(out.packets.len(), 7);
    let ids: Vec<i32> = out
        .packets
        .iter()
        .map(|p| {
            let mut rd = Reader::new(p.as_slice());
            next_varint(&mut rd).unwrap();
            next_varint(&mut rd).unwrap()
        })
        .collect();
    assert_eq!(ids, vec![0x2b, 0x0b, 0x11, 0x38, 0x53, 0x1f, 0x76]);
    assert_eq!(login_packet_view_distance(&out.packets[0]), 8);
    match &out.requests[0] {
        ServerMainThreadBound::ChatMessage { player_name, message, .. } => {
            assert_eq!(player_name, "Alice");
            assert_eq!(message, "Joined the game");
        },
        _ => panic!("expected the join broadcast"),
    }
}

fn login_packet_view_distance(packet: &Vec<u8>) -> i32 {
    let mut rd = Reader::new(packet.as_slice());
    next_varint(&mut rd).unwrap();
    assert_eq!(next_varint(&mut rd).unwrap(), 0x2b);
    next_u32(&mut rd).unwrap();
    next_bool(&mut rd).unwrap();
    let dims = next_varint(&mut rd).unwrap();
    for _ in 0..dims {
        next_string(&mut rd).unwrap();
    }
    assert_eq!(next_varint(&mut rd).unwrap(), 20);
    next_varint(&mut rd).unwrap()
}

#[test]
fn view_distance_clamps_to_served_range() {
    let mut conn = new_conn("peer");
    conn.state = ConnectionStatusType::Configuration;
    let mut info = mcstr("en_us");
    info.extend_from_slice(&[25, 0, 1, 0x7f, 1, 0, 1]);
    conn.handle_packet(frame(0x00, &info)).unwrap();
    assert_eq!(conn.view_distance, 12);
    assert_eq!(login_packet_view_distance(&conn.play_mode_initialize_client()[0]), 12);

    let mut low = mcstr("en_us");
    low.extend_from_slice(&[0, 0, 1, 0x7f, 1, 0, 1]);
    conn.handle_packet(frame(0x00, &low)).unwrap();
    assert_eq!(conn.view_distance, 2);
}

#[test]
fn mismatched_known_packs_are_fatal() {
    let mut conn = new_conn("peer");
    conn.state = ConnectionStatusType::Configuration;
    let mut packs = encode_varint(1);
    packs.extend_from_slice(&mcstr("minecraft"));
    packs.extend_from_slice(&mcstr("core"));
    packs.extend_from_slice(&mcstr("1.20"));
    let r = conn.handle_packet(frame(0x07, &packs));
    assert_eq!(r.err(), Some(ServerError::KnownPackMismatch));
    let r = conn.handle_packet(frame(0x07, &encode_varint(0)));
    assert_eq!(r.err(), Some(ServerError::KnownPackMismatch));
}

#[test]
fn position_correction_below_world() {
    let mut conn = new_conn("peer");
    conn.state = ConnectionStatusType::Play;

    // The client reports a position; the worker hands the coordinates out
    // for flooring.
    let mut pos = Vec::new();
    pos.extend_from_slice(&0f64.to_be_bytes());
    pos.extend_from_slice(&(-120f64).to_be_bytes());
    pos.extend_from_slice(&0f64.to_be_bytes());
    pos.push(0);
    let out = conn.handle_packet(frame(0x1a, &pos)).unwrap();
    let mv = out.pending_move.unwrap();
    assert_eq!(f64::from_bits(mv.y_bits), -120.0);

    // The floored coordinates come back: the correction lifts the player to
    // height -64 absolute, with everything else relative, teleport id 0.
    let out = conn.player_moved(0, -120, 0, false);
    let mut payload = Vec::new();
    payload.extend_from_slice(&0u64.to_be_bytes());
    payload.extend_from_slice(&(-64f64).to_be_bytes());
    payload.extend_from_slice(&0u64.to_be_bytes());
    payload.extend_from_slice(&[0u8; 8]);
    payload.push(0x1d);
    payload.extend_from_slice(&encode_varint(0));
    assert_eq!(out.packets, vec![frame(0x40, &payload)]);
    assert_eq!(conn.waiting_for_confirm_teleport, Some(0));

    // No further correction until the client confirms id 0.
    let out = conn.player_moved(1, -120, 1, false);
    assert!(out.packets.is_empty());
    conn.handle_packet(frame(0x00, &encode_varint(0))).unwrap();
    assert_eq!(conn.waiting_for_confirm_teleport, None);

    // Above the cutoff the correction is to absolute height zero.
    let out = conn.player_moved(0, 5, 0, true);
    let mut payload = vec![0u8; 24];
    payload.extend_from_slice(&[0u8; 8]);
    payload.push(0x1f);
    payload.extend_from_slice(&encode_varint(1));
    assert_eq!(out.packets, vec![frame(0x40, &payload)]);
    assert_eq!(conn.waiting_for_confirm_teleport, Some(1));
}

#[test]
fn chat_broadcast_reaches_both_workers() {
    let mut a = new_conn("A");
    a.state = ConnectionStatusType::Play;
    let mut b = new_conn("B");
    b.state = ConnectionStatusType::Play;
    let core = MCServer::new(
        ServerInfo {
            description: DescriptionInfo { text: String::from("d") },
            players: PlayerInfo { max: 20, online: 0, sample: Vec::new() },
            version: VersionInfo { name: String::from("v"), protocol: 767 },
            favicon: String::new(),
        },
        ResourceManager::new(BlockRegistry::new()),
    );

    let mut chat = mcstr("hi");
    chat.extend_from_slice(&7i64.to_be_bytes());
    chat.extend_from_slice(&9i64.to_be_bytes());
    chat.push(0);
    chat.extend_from_slice(&encode_varint(0));
    chat.extend_from_slice(&[0, 0, 0]);
    let out = a.handle_packet(frame(0x06, &chat)).unwrap();
    assert_eq!(out.requests.len(), 1);

    let action = core.handle_request(out.requests.into_iter().next().unwrap());
    let msg = match action {
        CoreAction::Broadcast(m) => m,
        _ => panic!("expected a broadcast"),
    };
    match &msg {
        ServerConnectionThreadBound::ChatMessage { player_name, message, timestamp, salt } => {
            assert_eq!(player_name, "A");
            assert_eq!(message, "hi");
            assert_eq!(*timestamp, 7);
            assert_eq!(*salt, 9);
        },
        _ => panic!("expected chat"),
    }

    let out_a = a.handle_core_message(msg.clone());
    let out_b = b.handle_core_message(msg);
    let mut payload = vec![0x08u8, 0, 2];
    payload.extend_from_slice(b"hi");
    payload.extend_from_slice(&encode_varint(1));
    payload.extend_from_slice(&[0x08, 0, 1]);
    payload.extend_from_slice(b"A");
    payload.push(0);
    let expected = frame(0x1e, &payload);
    assert_eq!(out_a.packets, vec![expected.clone()]);
    assert_eq!(out_b.packets, vec![expected]);
}

#[test]
fn place_command_updates_block_at_feet() {
    let mut conn = new_conn("peer");
    conn.state = ConnectionStatusType::Play;
    conn.player.x = 3;
    conn.player.y = -60;
    conn.player.z = -5;
    let out = conn.handle_packet(frame(0x04, &mcstr("place 42"))).unwrap();
    let packed = rustmc::blockpos::BlockPos::new(3, -60, -5).packed();
    let mut payload = Vec::new();
    payload.extend_from_slice(&packed.to_be_bytes());
    payload.extend_from_slice(&encode_varint(42));
    assert_eq!(out.packets, vec![frame(0x09, &payload)]);

    let out = conn.handle_packet(frame(0x04, &mcstr("home"))).unwrap();
    assert!(out.packets.is_empty());
    assert_eq!(parse_place_command(&String::from("place -7")), Some(-7));
    assert_eq!(parse_place_command(&String::from("place +7")), Some(7));
    assert_eq!(parse_place_command(&String::from("place 99999999999")), None);
    assert_eq!(parse_place_command(&String::from("place ")), None);
}

#[test]
fn rotation_packet_updates_on_ground() {
    let mut conn = new_conn("peer");
    conn.state = ConnectionStatusType::Play;
    let mut rot = Vec::new();
    rot.extend_from_slice(&90f32.to_be_bytes());
    rot.extend_from_slice(&(-10f32).to_be_bytes());
    rot.push(1);
    let out = conn.handle_packet(frame(0x1c, &rot)).unwrap();
    assert!(out.packets.is_empty());
    assert!(conn.player.on_ground);
    let mut rot = Vec::new();
    rot.extend_from_slice(&0f32.to_be_bytes());
    rot.extend_from_slice(&0f32.to_be_bytes());
    rot.push(0);
    conn.handle_packet(frame(0x1c, &rot)).unwrap();
    assert!(!conn.player.on_ground);
}

#[test]
fn chunk_streaming_requests_and_evicts() {
    let mut conn = new_conn("peer");
    conn.state = ConnectionStatusType::Play;
    conn.view_distance = 2;
    let reqs = conn.handle_chunk_loading();
    assert_eq!(reqs.len(), 25);
    match &reqs[0] {
        ServerMainThreadBound::RequestChunk(p) => assert_eq!(*p, ChunkPos { x: 0, z: 0 }),
        _ => panic!("expected a chunk request"),
    }
    let mut last = 0i32;
    for r in &reqs {
        match r {
            ServerMainThreadBound::RequestChunk(p) => {
                assert!(p.x.abs() <= 2 && p.z.abs() <= 2);
                let d = p.x.abs().max(p.z.abs());
                assert!(d >= last);
                last = d;
            },
            _ => panic!("expected a chunk request"),
        }
    }
    assert_eq!(conn.client_loaded_chunks.len(), 25);

    // A second round requests nothing new.
    assert!(conn.handle_chunk_loading().is_empty());

    // Moving far away evicts everything out of range and requests the new
    // square.
    conn.player.x = 1600;
    let reqs = conn.handle_chunk_loading();
    assert_eq!(reqs.len(), 25);
    assert_eq!(conn.client_loaded_chunks.len(), 25);
    for c in &conn.client_loaded_chunks {
        assert!((c.x - 100).abs() <= 2);
    }
    // The loaded list names each position at most once.
    for i in 0..conn.client_loaded_chunks.len() {
        for j in (i + 1)..conn.client_loaded_chunks.len() {
            assert_ne!(conn.client_loaded_chunks[i], conn.client_loaded_chunks[j]);
        }
    }
}

#[test]
fn ticking_announces_then_steps() {
    let mut conn = new_conn("peer");
    let out = conn.handle_ticks(1000);
    let mut ticking = Vec::new();
    ticking.extend_from_slice(&20f32.to_be_bytes());
    ticking.push(0);
    assert_eq!(
        out,
        vec![frame(0x71, &ticking), frame(0x72, &encode_varint(1))]
    );
    assert!(conn.handle_ticks(1020).is_empty());
    assert_eq!(conn.handle_ticks(1050), vec![frame(0x72, &encode_varint(1))]);
    assert!(conn.handle_ticks(900).is_empty());
    assert_eq!(conn.last_tick_ms, Some(900));
}

#[test]
fn core_serves_registry_burst_in_order() {
    let mut rm = ResourceManager::new(BlockRegistry::new());
    rm.add_registry_entry(String::from("minecraft:dimension_type"), String::from("minecraft:overworld"));
    rm.add_registry_entry(String::from("minecraft:dimension_type"), String::from("minecraft:the_end"));
    rm.add_registry_entry(String::from("minecraft:biome"), String::from("minecraft:plains"));
    let core = MCServer::new(
        ServerInfo {
            description: DescriptionInfo { text: String::from("d") },
            players: PlayerInfo { max: 20, online: 0, sample: Vec::new() },
            version: VersionInfo { name: String::from("v"), protocol: 767 },
            favicon: String::new(),
        },
        rm,
    );
    let action = core.handle_request(ServerMainThreadBound::RequestRegistryInfo);
    match action {
        CoreAction::Replies(msgs) => {
            assert_eq!(msgs.len(), 3);
            match &msgs[0] {
                ServerConnectionThreadBound::RegistryInfo { registry_id, entries } => {
                    assert_eq!(registry_id, "minecraft:dimension_type");
                    assert_eq!(entries.len(), 2);
                    assert_eq!(entries[0].id, "minecraft:overworld");
                    assert_eq!(entries[1].id, "minecraft:the_end");
                },
                _ => panic!("expected registry info"),
            }
            match &msgs[1] {
                ServerConnectionThreadBound::RegistryInfo { registry_id, entries } => {
                    assert_eq!(registry_id, "minecraft:biome");
                    assert_eq!(entries.len(), 1);
                },
                _ => panic!("expected registry info"),
            }
            assert!(matches!(msgs[2], ServerConnectionThreadBound::RegistryInfoFinished));
        },
        _ => panic!("expected replies"),
    }
    match core.handle_request(ServerMainThreadBound::RequestChunk(ChunkPos { x: 1, z: 2 })) {
        CoreAction::FetchChunk(p) => assert_eq!(p, ChunkPos { x: 1, z: 2 }),
        _ => panic!("expected a fetch"),
    }
}

#[test]
fn tags_resolve_members_to_numeric_ids() {
    let mut blocks = BlockRegistry::new();
    blocks.add_block(
        String::from("minecraft:stone"),
        BlockStates {
            definition: BlockStateDefinition { kind: String::from("minecraft:block") },
            properties: Vec::new(),
            states: vec![
                BlockState { default: Some(false), id: 10, properties: Vec::new() },
                BlockState { default: Some(true), id: 11, properties: Vec::new() },
            ],
        },
    );
    assert_eq!(
        blocks.get_blockstate_of_block(&String::from("minecraft:stone")),
        Some(11)
    );
    assert_eq!(blocks.get_blockstate_of_block(&String::from("minecraft:air")), None);

    let mut rm = ResourceManager::new(blocks);
    rm.add_registry_entry(String::from("minecraft:item"), String::from("minecraft:stick"));
    rm.add_registry_entry(String::from("minecraft:item"), String::from("minecraft:stone"));
    rm.add_tag_entry(
        String::from("minecraft:item"),
        String::from("tools"),
        vec![String::from("minecraft:stone")],
    );
    rm.add_tag_entry(
        String::from("minecraft:block"),
        String::from("base"),
        vec![String::from("minecraft:stone")],
    );

    let tags: Vec<TagEntry> = vec![
        TagEntry {
            id: String::from("minecraft:item"),
            data: vec![TagEntryData {
                entries: vec![String::from("minecraft:stone")],
                tag_name: String::from("tools"),
            }],
        },
        TagEntry {
            id: String::from("minecraft:block"),
            data: vec![TagEntryData {
                entries: vec![String::from("minecraft:stone")],
                tag_name: String::from("base"),
            }],
        },
    ];
    let p = ConfigurationPacketResponse::update_tags(tags, &rm);
    let mut payload = encode_varint(2);
    payload.extend_from_slice(&mcstr("minecraft:item"));
    payload.extend_from_slice(&encode_varint(1));
    payload.extend_from_slice(&mcstr("tools"));
    payload.extend_from_slice(&encode_varint(1));
    payload.extend_from_slice(&encode_varint(1));
    payload.extend_from_slice(&mcstr("minecraft:block"));
    payload.extend_from_slice(&encode_varint(1));
    payload.extend_from_slice(&mcstr("base"));
    payload.extend_from_slice(&encode_varint(1));
    payload.extend_from_slice(&encode_varint(11));
    assert_eq!(p, frame(0x0d, &payload));
}

#[test]
fn resource_paths_classify_as_registries_and_tags() {
    let parts = vec![
        String::from("minecraft"),
        String::from("dimension_type"),
        String::from("overworld"),
    ];
    let (reg, id) = classify_registry_path(&parts).unwrap();
    assert_eq!(reg, "minecraft:dimension_type");
    assert_eq!(id, "minecraft:overworld");

    let nested = vec![
        String::from("minecraft"),
        String::from("worldgen"),
        String::from("biome"),
        String::from("plains"),
    ];
    let (reg, id) = classify_registry_path(&nested).unwrap();
    assert_eq!(reg, "minecraft:worldgen/biome");
    assert_eq!(id, "minecraft:plains");

    let excluded = vec![
        String::from("minecraft"),
        String::from("tags"),
        String::from("block"),
        String::from("base"),
    ];
    assert!(classify_registry_path(&excluded).is_none());

    let tag = vec![
        String::from("block"),
        String::from("mineable"),
        String::from("axe"),
    ];
    let (reg, name) = classify_tag_path(&tag).unwrap();
    assert_eq!(reg, "minecraft:block");
    assert_eq!(name, "mineable/axe");
}
