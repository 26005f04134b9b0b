//! The per-connection protocol state machine: one value per accepted
//! socket, fed raw bytes and core messages, yielding the packets to write
//! and the requests to send to the server core. The socket itself, and the
//! conversion of position fields from their floating-point wire form to the
//! block coordinates this state machine reads, live at the edge of the
//! system.

use vstd::prelude::*;
use vstd::multiset::Multiset;
use vstd::utf8::encode_utf8;
use crate::blockpos::{spec_blockpos_packed, BlockPos};
use crate::codec::{
    i32_to_u32, i64_to_u64, lemma_be_bytes_len, lemma_mcstring_bytes_len, lemma_varint_bytes_len,
    spec_be_bytes, spec_extract_frame, spec_mcstring_bytes, spec_varint_bytes, try_extract_frame,
    u32_to_i32, u32_as_i32,
};
use crate::command::{spec_builtin_graph, CommandNode};
use crate::error::ServerError;
use crate::packet::{lemma_frame_header_cap, MCPacketType};
use crate::packet::configure::{
    spec_parse_configuration, spec_registry_data_payload, spec_registries_bounded, spec_tags_wf,
    spec_update_tags_payload, ConfigurationPacketResponse, ConfigurationPacketType,
    ConfigurationPacketView,
};
use crate::packet::handshake::{spec_parse_handshake, HandshakePacketType, HandshakePacketView};
use crate::packet::login::{spec_parse_login, LoginPacketResponse, LoginPacketType, LoginPacketView};
use crate::packet::play::{
    spec_children_bytes, spec_commands_payload, spec_login_payload, spec_node_bytes,
    spec_nodes_bytes, spec_nodes_wf, spec_parse_play, spec_strings_bytes, PlayPacketClientBound,
    PlayPacketServerBound, PlayPacketServerBoundView,
};
use crate::packet::status::{spec_parse_status, StatusPacketType, StatusPacketView};
use crate::packet_builder::{spec_bool_byte, spec_frame, PacketBuilder};
use crate::block_registry::BlockStateView;
use crate::packet::configure::spec_registry_entries_wf;
use crate::packet::play::spec_chunk_data_payload;
use crate::packet::play::spec_chat_fake_payload;
use crate::resource_manager::{RegistriesView, ResourceManager};
use crate::server_util::{
    ChunkPos, ServerConnectionThreadBound, ServerConnectionThreadBoundView, ServerMainThreadBound,
    ServerMainThreadBoundView,
};

verus! {

/// The protocol phase of one connection. Transitions are one-way and gated
/// on specific packets; Transfer is accepted but served no further.
#[derive(Debug, Clone, Copy, PartialEq, Eq, Structural)]
pub enum ConnectionStatusType {
    Handshake,
    Status,
    Login,
    Transfer,
    Configuration,
    Play,
}

/// The per-connection player state. Positions are block coordinates: the
/// floor of each floating-point coordinate the client sent, which is all
/// the protocol logic reads of them.
#[derive(Debug, Clone, Copy, PartialEq, Eq, Structural)]
pub struct Player {
    pub eid: i32,
    pub x: i32,
    pub y: i32,
    pub z: i32,
    pub on_ground: bool,
    pub confirm_tp_count: u32,
}

impl Player {
    pub fn new(eid: i32) -> (r: Self)
        ensures
            r == (Player { eid, x: 0, y: 0, z: 0, on_ground: false, confirm_tp_count: 0 }),
    {
        Player { eid, x: 0, y: 0, z: 0, on_ground: false, confirm_tp_count: 0 }
    }

    pub fn set_pos(&mut self, x: i32, y: i32, z: i32)
        ensures
            *final(self) == (Player { x, y, z, ..*old(self) }),
    {
        self.x = x;
        self.y = y;
        self.z = z;
    }

    pub fn set_on_ground(&mut self, on_ground: bool)
        ensures
            *final(self) == (Player { on_ground, ..*old(self) }),
    {
        self.on_ground = on_ground;
    }

    pub fn block_pos(&self) -> (r: BlockPos)
        ensures
            r == (BlockPos { x: self.x, y: self.y, z: self.z }),
    {
        BlockPos::new(self.x, self.y, self.z)
    }
}

/// A position update whose coordinates still carry their floating-point
/// wire form; the edge of the system floors them and hands the result to
/// [`MCServerConnection::player_moved`].
#[derive(Debug, Clone, Copy, PartialEq, Eq, Structural)]
pub struct RawMove {
    pub x_bits: u64,
    pub y_bits: u64,
    pub z_bits: u64,
    pub on_ground: bool,
}

/// What one step of the state machine asks of its surroundings: packets to
/// write to the socket in order, requests to send to the server core in
/// order, and at most one position update to floor and hand back.
#[derive(Debug)]
pub struct Outputs {
    pub packets: Vec<Vec<u8>>,
    pub requests: Vec<ServerMainThreadBound>,
    pub pending_move: Option<RawMove>,
}

/// Spec-level mirror of [`Outputs`].
#[verifier::ext_equal]
pub struct OutputsView {
    pub packets: Seq<Seq<u8>>,
    pub requests: Seq<ServerMainThreadBoundView>,
    pub pending_move: Option<RawMove>,
}

impl View for Outputs {
    type V = OutputsView;

    open spec fn view(&self) -> OutputsView {
        OutputsView {
            packets: self.packets@.map_values(|p: Vec<u8>| p@),
            requests: self.requests@.map_values(|r: ServerMainThreadBound| r@),
            pending_move: self.pending_move,
        }
    }
}

/// An empty outputs view.
pub open spec fn spec_no_outputs() -> OutputsView {
    OutputsView { packets: seq![], requests: seq![], pending_move: None }
}

impl Outputs {
    /// No packets, no requests, no pending move.
    pub fn none() -> (r: Self)
        ensures
            r@ == spec_no_outputs(),
    {
        let r = Outputs { packets: Vec::new(), requests: Vec::new(), pending_move: None };
        proof {
            assert(r@ =~~= spec_no_outputs());
        }
        r
    }

    /// A single packet to write.
    pub fn one_packet(packet: Vec<u8>) -> (r: Self)
        ensures
            r@ == (OutputsView {
                packets: seq![packet@],
                requests: seq![],
                pending_move: None,
            }),
    {
        let mut packets: Vec<Vec<u8>> = Vec::new();
        packets.push(packet);
        let r = Outputs { packets, requests: Vec::new(), pending_move: None };
        proof {
            assert(r@.packets =~= seq![r.packets@[0]@]);
            assert(r@.requests =~= Seq::<ServerMainThreadBoundView>::empty());
        }
        r
    }

    /// A single request to the server core.
    pub fn one_request(request: ServerMainThreadBound) -> (r: Self)
        ensures
            r@ == (OutputsView {
                packets: seq![],
                requests: seq![request@],
                pending_move: None,
            }),
    {
        let mut requests: Vec<ServerMainThreadBound> = Vec::new();
        let ghost rv = request@;
        requests.push(request);
        let r = Outputs { packets: Vec::new(), requests, pending_move: None };
        proof {
            assert(r@.packets =~= Seq::<Seq<u8>>::empty());
            assert(r@.requests =~= seq![rv]);
        }
        r
    }
}

/// Relies on `rand::random`: a fresh entity id; nothing is promised of
/// which value comes back.
#[verifier::external_body]
fn random_i32() -> i32 {
    rand::random()
}

/// The names of the dimensions this design announces at login.
pub open spec fn spec_default_dimensions() -> Seq<Seq<char>> {
    seq!["minecraft:overworld"@, "minecraft:the_end"@, "minecraft:the_nether"@]
}

/// The packets sent on entering the play phase, in order: the login packet,
/// the difficulty, the command graph, the abilities, the held item, and the
/// entity event and effect for the player's own entity.
pub open spec fn spec_play_init_frames(eid: i32, vd: i32) -> Seq<Seq<u8>> {
    seq![
        spec_frame(0x2B, spec_login_payload(eid, false, spec_default_dimensions(), 20, vd)),
        spec_frame(0x0B, seq![1u8, spec_bool_byte(false)]),
        spec_frame(0x11, spec_commands_payload(spec_builtin_graph())),
        spec_frame(
            0x38,
            seq![0x0Du8] + spec_be_bytes(0x3D4C_CCCD, 4) + spec_be_bytes(0x3DCC_CCCD, 4),
        ),
        spec_frame(0x53, seq![0u8]),
        spec_frame(0x1F, spec_be_bytes(i32_to_u32(eid) as nat, 4) + seq![24u8]),
        spec_frame(
            0x76,
            spec_varint_bytes(eid) + spec_varint_bytes(15) + spec_varint_bytes(1)
                + spec_varint_bytes(0x7F) + seq![0x07u8],
        ),
    ]
}

/// The known-packs frame this server sends: exactly one pack,
/// `minecraft:core` version 1.21.
pub open spec fn spec_known_packs_frame() -> Seq<u8> {
    spec_frame(
        0x0E,
        spec_varint_bytes(1) + spec_mcstring_bytes("minecraft"@) + spec_mcstring_bytes("core"@)
            + spec_mcstring_bytes("1.21"@),
    )
}

/// A chunk list that names each position at most once.
pub open spec fn spec_unique_chunks(s: Seq<ChunkPos>) -> bool {
    forall|i: int, j: int| 0 <= i < j < s.len() ==> s[i] != s[j]
}

/// One connection worker's protocol state.
pub struct MCServerConnection {
    pub state: ConnectionStatusType,
    pub pretty_identifier: String,
    pub status_json: String,
    pub packet_buffer: Vec<u8>,
    pub resource_manager: ResourceManager,
    pub client_loaded_chunks: Vec<ChunkPos>,
    pub player: Player,
    pub last_tick_ms: Option<u64>,
    pub waiting_for_confirm_teleport: Option<i32>,
    pub view_distance: i32,
}

impl MCServerConnection {
    /// What every constructor establishes and every step preserves: the
    /// strings it may echo stay within the wire cap, the view distance
    /// stays clamped, and the resource snapshot suits tag resolution.
    pub open spec fn wf(&self) -> bool {
        &&& self.status_json@.len() <= 32767
        &&& encode_utf8(self.pretty_identifier@).len() <= 32767
        &&& 2 <= self.view_distance <= 12
        &&& spec_registries_bounded(self.resource_manager.registries_view())
        &&& spec_unique_chunks(self.client_loaded_chunks@)
    }

    /// A fresh connection in the handshake phase, with a random entity id
    /// and the default view distance.
    pub fn new(
        pretty_identifier: String,
        status_json: String,
        resource_manager: ResourceManager,
    ) -> (r: Self)
        requires
            encode_utf8(pretty_identifier@).len() <= 32767,
            status_json@.len() <= 32767,
            spec_registries_bounded(resource_manager.registries_view()),
        ensures
            r.wf(),
            r.state is Handshake,
            r.pretty_identifier == pretty_identifier,
            r.status_json == status_json,
            r.packet_buffer@ == Seq::<u8>::empty(),
            r.resource_manager == resource_manager,
            r.client_loaded_chunks@ == Seq::<ChunkPos>::empty(),
            r.player.x == 0 && r.player.y == 0 && r.player.z == 0,
            r.player.on_ground == false,
            r.player.confirm_tp_count == 0,
            r.last_tick_ms is None,
            r.waiting_for_confirm_teleport is None,
            r.view_distance == 12,
    {
        MCServerConnection {
            state: ConnectionStatusType::Handshake,
            pretty_identifier,
            status_json,
            packet_buffer: Vec::new(),
            resource_manager,
            client_loaded_chunks: Vec::new(),
            player: Player::new(random_i32()),
            last_tick_ms: None,
            waiting_for_confirm_teleport: None,
            view_distance: 12,
        }
    }

    /// Append bytes read from the socket to the frame buffer.
    pub fn push_data(&mut self, data: Vec<u8>)
        ensures
            *final(self) == (MCServerConnection {
                packet_buffer: final(self).packet_buffer,
                ..*old(self)
            }),
            final(self).packet_buffer@ == old(self).packet_buffer@ + data@,
    {
        let mut d = data;
        self.packet_buffer.append(&mut d);
    }

    /// Take the first complete frame off the buffer, if one has fully
    /// arrived, exactly as [`spec_extract_frame`] says.
    pub fn next_frame(&mut self) -> (r: Option<Vec<u8>>)
        ensures
            *final(self) == (MCServerConnection {
                packet_buffer: final(self).packet_buffer,
                ..*old(self)
            }),
            match spec_extract_frame(old(self).packet_buffer@) {
                Some(p) => r matches Some(f) && f@ == p.0 && final(self).packet_buffer@ == p.1,
                None => r is None && final(self).packet_buffer@ == old(self).packet_buffer@,
            },
    {
        try_extract_frame(&mut self.packet_buffer)
    }

    /// Handle one handshake-phase frame: the handshake packet names the
    /// next phase (1 status, 2 login, 3 transfer); any other value is a
    /// fatal protocol error, and a malformed frame fails with its parse
    /// error.
    pub fn handle_handshake_packet(&mut self, data: Vec<u8>) -> (r: Result<(), ServerError>)
        requires
            old(self).wf(),
        ensures
            final(self).wf(),
            *final(self) == (MCServerConnection { state: final(self).state, ..*old(self) }),
            match spec_parse_handshake(data@) {
                Ok(HandshakePacketView::Handshake { protocol, server_addr, server_port, next_state }) => {
                    &&& (next_state == 1 ==> r is Ok && final(self).state is Status)
                    &&& (next_state == 2 ==> r is Ok && final(self).state is Login)
                    &&& (next_state == 3 ==> r is Ok && final(self).state is Transfer)
                    &&& (!(1 <= next_state <= 3) ==> r == Err::<(), ServerError>(
                        ServerError::InvalidServerState(next_state),
                    ) && final(self).state == old(self).state)
                },
                Err(e) => r == Err::<(), ServerError>(e) && final(self).state == old(self).state,
            },
    {
        let packet = match HandshakePacketType::parse(data) {
            Ok(p) => p,
            Err(e) => { return Err(e); },
        };
        match packet {
            HandshakePacketType::Handshake { protocol: _, server_addr: _, server_port: _, next_state } => {
                let state = match next_state {
                    1 => ConnectionStatusType::Status,
                    2 => ConnectionStatusType::Login,
                    3 => ConnectionStatusType::Transfer,
                    _ => { return Err(ServerError::InvalidServerState(next_state)); },
                };
                self.state = state;
                Ok(())
            },
        }
    }

    /// Handle one status-phase frame: a status request is answered with the
    /// server-info JSON, a ping is echoed back byte for byte.
    pub fn handle_status_packet(&mut self, data: Vec<u8>) -> (r: Result<Outputs, ServerError>)
        requires
            old(self).wf(),
        ensures
            final(self).wf(),
            *final(self) == *old(self),
            match spec_parse_status(data@) {
                Ok(StatusPacketView::Status) => r matches Ok(o) && o@ == (OutputsView {
                    packets: seq![
                        spec_frame(0x00, spec_mcstring_bytes(old(self).status_json@)),
                    ],
                    requests: seq![],
                    pending_move: None,
                }),
                Ok(StatusPacketView::Ping { raw }) => r matches Ok(o) && o@ == (OutputsView {
                    packets: seq![raw],
                    requests: seq![],
                    pending_move: None,
                }),
                Ok(StatusPacketView::StatusResponse) => r matches Ok(o) && o@
                    == spec_no_outputs(),
                Err(e) => r == Err::<Outputs, ServerError>(e),
            },
    {
        let packet = match StatusPacketType::parse(data) {
            Ok(p) => p,
            Err(e) => { return Err(e); },
        };
        match packet {
            StatusPacketType::Status => {
                proof {
                    lemma_mcstring_bytes_len(self.status_json@);
                }
                let out = PacketBuilder::new().set_id(StatusPacketType::StatusResponse).add_string(
                    self.status_json.as_str(),
                ).build();
                match out {
                    Some(p) => Ok(Outputs::one_packet(p)),
                    None => {
                        proof {
                            assert(false);
                        }
                        Err(ServerError::EndOfPacket)
                    },
                }
            },
            StatusPacketType::Ping { raw } => Ok(Outputs::one_packet(raw)),
            StatusPacketType::StatusResponse => Ok(Outputs::none()),
        }
    }

    /// Handle one login-phase frame: a login start is answered with the
    /// success packet echoing the identifier and name, and the name becomes
    /// the connection's identity; the acknowledgement moves the connection
    /// to configuration.
    pub fn handle_login_packet(&mut self, data: Vec<u8>) -> (r: Result<Outputs, ServerError>)
        requires
            old(self).wf(),
        ensures
            final(self).wf(),
            match spec_parse_login(data@) {
                Ok(LoginPacketView::LoginStart { name, uuid }) => {
                    &&& *final(self) == (MCServerConnection {
                        pretty_identifier: final(self).pretty_identifier,
                        ..*old(self)
                    })
                    &&& final(self).pretty_identifier@ == name
                    &&& r matches Ok(o) && o@ == (OutputsView {
                        packets: seq![
                            spec_frame(
                                0x02,
                                spec_be_bytes(uuid as nat, 16) + spec_mcstring_bytes(name)
                                    + spec_varint_bytes(0) + seq![spec_bool_byte(false)],
                            ),
                        ],
                        requests: seq![],
                        pending_move: None,
                    })
                },
                Ok(LoginPacketView::LoginPluginResponse { .. }) => {
                    &&& *final(self) == *old(self)
                    &&& r matches Ok(o) && o@ == spec_no_outputs()
                },
                Ok(LoginPacketView::LoginAcknowledged) => {
                    &&& *final(self) == (MCServerConnection {
                        state: ConnectionStatusType::Configuration,
                        ..*old(self)
                    })
                    &&& r matches Ok(o) && o@ == spec_no_outputs()
                },
                Err(e) => *final(self) == *old(self) && r == Err::<Outputs, ServerError>(e),
            },
    {
        proof {
            lemma_frame_header_cap(data@);
            crate::packet::login::lemma_login_start_name_len(data@);
        }
        let packet = match LoginPacketType::parse(data) {
            Ok(p) => p,
            Err(e) => { return Err(e); },
        };
        match packet {
            LoginPacketType::LoginStart { name, uuid } => {
                proof {
                    lemma_mcstring_bytes_len(name@);
                    lemma_be_bytes_len(uuid as nat, 16);
                    lemma_varint_bytes_len(0);
                }
                let out = PacketBuilder::new().set_id(LoginPacketResponse::LoginSuccess).add_uuid(
                    uuid,
                ).add_string(name.as_str()).add_varint(0).add_bool(false).build();
                self.pretty_identifier = name;
                match out {
                    Some(p) => Ok(Outputs::one_packet(p)),
                    None => {
                        proof {
                            assert(false);
                        }
                        Err(ServerError::EndOfPacket)
                    },
                }
            },
            LoginPacketType::LoginPluginResponse { message_id: _, success: _, data: _ } => {
                Ok(Outputs::none())
            },
            LoginPacketType::LoginAcknowledged => {
                self.state = ConnectionStatusType::Configuration;
                Ok(Outputs::none())
            },
        }
    }

    /// Handle one configuration-phase frame: client information is answered
    /// with the known packs this server serves and clamps the view distance;
    /// matching known packs ask the core for tag info; the acknowledgement
    /// enters play and broadcasts the join message.
    pub fn handle_config_packet(&mut self, data: Vec<u8>) -> (r: Result<Outputs, ServerError>)
        requires
            old(self).wf(),
        ensures
            final(self).wf(),
            match spec_parse_configuration(data@) {
                Ok(ConfigurationPacketView::ServerBoundPluginMessage { .. }) => {
                    &&& *final(self) == *old(self)
                    &&& r matches Ok(o) && o@ == spec_no_outputs()
                },
                Ok(ConfigurationPacketView::ClientInformation { view_distance, .. }) => {
                    &&& *final(self) == (MCServerConnection {
                        view_distance: spec_clamp_view_distance(view_distance),
                        ..*old(self)
                    })
                    &&& r matches Ok(o) && o@ == (OutputsView {
                        packets: seq![spec_known_packs_frame()],
                        requests: seq![],
                        pending_move: None,
                    })
                },
                Ok(ConfigurationPacketView::FinishConfigurationAck) => {
                    &&& *final(self) == (MCServerConnection {
                        state: ConnectionStatusType::Play,
                        ..*old(self)
                    })
                    &&& r matches Ok(o) && o@ == (OutputsView {
                        packets: spec_play_init_frames(
                            old(self).player.eid,
                            old(self).view_distance,
                        ),
                        requests: seq![
                            ServerMainThreadBoundView::ChatMessage {
                                player_name: old(self).pretty_identifier@,
                                message: "Joined the game"@,
                                timestamp: 0,
                                salt: 0,
                            },
                        ],
                        pending_move: None,
                    })
                },
                Ok(ConfigurationPacketView::ServerBoundKnownPacks { known_packs }) => {
                    if known_packs.len() > 0 && known_packs[0].namespace == "minecraft"@
                        && known_packs[0].id == "core"@ && known_packs[0].version == "1.21"@ {
                        &&& *final(self) == *old(self)
                        &&& r matches Ok(o) && o@ == (OutputsView {
                            packets: seq![],
                            requests: seq![ServerMainThreadBoundView::RequestTagInfo],
                            pending_move: None,
                        })
                    } else {
                        &&& *final(self) == *old(self)
                        &&& r == Err::<Outputs, ServerError>(ServerError::KnownPackMismatch)
                    }
                },
                Err(e) => {
                    &&& *final(self) == *old(self)
                    &&& r == Err::<Outputs, ServerError>(e)
                },
            },
    {
        let packet = match ConfigurationPacketType::parse(data) {
            Ok(p) => p,
            Err(e) => { return Err(e); },
        };
        match packet {
            ConfigurationPacketType::ServerBoundPluginMessage { channel: _, data: _ } => {
                Ok(Outputs::none())
            },
            ConfigurationPacketType::ClientInformation { view_distance, .. } => {
                self.view_distance = clamp_view_distance(view_distance);
                proof {
                    reveal_strlit("minecraft");
                    reveal_strlit("core");
                    reveal_strlit("1.21");
                    lemma_varint_bytes_len(1);
                    lemma_mcstring_bytes_len("minecraft"@);
                    lemma_mcstring_bytes_len("core"@);
                    lemma_mcstring_bytes_len("1.21"@);
                }
                let out = PacketBuilder::new().set_id(
                    ConfigurationPacketResponse::ClientBoundKnownPacks,
                ).add_varint(1).add_string("minecraft").add_string("core").add_string(
                    "1.21",
                ).build();
                match out {
                    Some(p) => Ok(Outputs::one_packet(p)),
                    None => {
                        proof {
                            assert(false);
                        }
                        Err(ServerError::EndOfPacket)
                    },
                }
            },
            ConfigurationPacketType::FinishConfigurationAck => {
                self.state = ConnectionStatusType::Play;
                let packets = self.play_mode_initialize_client();
                let mut requests: Vec<ServerMainThreadBound> = Vec::new();
                requests.push(
                    ServerMainThreadBound::ChatMessage {
                        player_name: self.pretty_identifier.clone(),
                        message: String::from_str("Joined the game"),
                        timestamp: 0,
                        salt: 0,
                    },
                );
                let r = Outputs { packets, requests, pending_move: None };
                proof {
                    assert(r@.requests =~= seq![
                        ServerMainThreadBoundView::ChatMessage {
                            player_name: old(self).pretty_identifier@,
                            message: "Joined the game"@,
                            timestamp: 0,
                            salt: 0,
                        },
                    ]);
                }
                Ok(r)
            },
            ConfigurationPacketType::ServerBoundKnownPacks { known_packs } => {
                if known_packs.len() == 0 {
                    return Err(ServerError::KnownPackMismatch);
                }
                let minecraft = String::from_str("minecraft");
                let core = String::from_str("core");
                let version = String::from_str("1.21");
                let ok = known_packs[0].namespace.eq(&minecraft) && known_packs[0].id.eq(&core)
                    && known_packs[0].version.eq(&version);
                if !ok {
                    return Err(ServerError::KnownPackMismatch);
                }
                Ok(Outputs::one_request(ServerMainThreadBound::RequestTagInfo))
            },
        }
    }

    /// Send everything a client needs on entering play, in order, exactly
    /// as [`spec_play_init_frames`] says.
    pub fn play_mode_initialize_client(&self) -> (r: Vec<Vec<u8>>)
        ensures
            r@.map_values(|p: Vec<u8>| p@) == spec_play_init_frames(
                self.player.eid,
                self.view_distance,
            ),
    {
        proof {
            lemma_play_init_bounds(self.player.eid, self.view_distance);
        }
        let mut dims: Vec<String> = Vec::new();
        dims.push(String::from_str("minecraft:overworld"));
        dims.push(String::from_str("minecraft:the_end"));
        dims.push(String::from_str("minecraft:the_nether"));
        proof {
            assert(dims@.map_values(|s: String| s@) =~= spec_default_dimensions());
        }
        let mut packets: Vec<Vec<u8>> = Vec::new();
        packets.push(
            PlayPacketClientBound::login(self.player.eid, false, dims, 20, self.view_distance),
        );
        packets.push(PlayPacketClientBound::change_difficulty(1));
        packets.push(PlayPacketClientBound::commands(CommandNode::commands()));
        packets.push(PlayPacketClientBound::player_abilities());
        packets.push(PlayPacketClientBound::set_held_item(0));
        packets.push(PlayPacketClientBound::entity_event(self.player.eid, 24));
        packets.push(PlayPacketClientBound::entity_effect(self.player.eid, 15, 1, 0x7F, 0x07));
        proof {
            assert(packets@.map_values(|p: Vec<u8>| p@) =~= spec_play_init_frames(
                self.player.eid,
                self.view_distance,
            ));
        }
        packets
    }
}

/// The position-correction frame: all-zero coordinates except the corrected
/// height, relative flags for everything not corrected, and the fresh
/// teleport id. A player below height -80 is lifted to -64 absolute (the
/// height field carries the bit pattern of that value); anyone else is set
/// to absolute height zero.
pub open spec fn spec_sync_position_frame(y: i32, count: u32) -> Seq<u8> {
    spec_frame(
        0x40,
        spec_be_bytes(0, 8) + spec_be_bytes(
            if y < -80 {
                0xC050_0000_0000_0000
            } else {
                0
            },
            8,
        ) + spec_be_bytes(0, 8) + spec_be_bytes(0, 4) + spec_be_bytes(0, 4) + seq![
            if y < -80 {
                0x1Du8
            } else {
                0x1Fu8
            },
        ] + spec_varint_bytes(u32_to_i32(count)),
    )
}

/// The teleport-confirm counter after one use.
pub open spec fn spec_next_count(c: u32) -> u32 {
    if c == u32::MAX {
        0
    } else {
        (c + 1) as u32
    }
}

impl MCServerConnection {
    /// Apply a position update whose coordinates were floored at the edge
    /// of the system: record the new position, and when no teleport confirm
    /// is outstanding, issue a position correction with a fresh teleport id
    /// and hold further corrections until the client confirms it.
    pub fn player_moved(&mut self, x: i32, y: i32, z: i32, on_ground: bool) -> (r: Outputs)
        requires
            old(self).wf(),
        ensures
            final(self).wf(),
            match old(self).waiting_for_confirm_teleport {
                Some(_) => {
                    &&& *final(self) == (MCServerConnection {
                        player: (Player { x, y, z, on_ground, ..old(self).player }),
                        ..*old(self)
                    })
                    &&& r@ == spec_no_outputs()
                },
                None => {
                    &&& *final(self) == (MCServerConnection {
                        player: (Player {
                            x,
                            y,
                            z,
                            on_ground,
                            confirm_tp_count: spec_next_count(old(self).player.confirm_tp_count),
                            ..old(self).player
                        }),
                        waiting_for_confirm_teleport: Some(
                            u32_to_i32(old(self).player.confirm_tp_count),
                        ),
                        ..*old(self)
                    })
                    &&& r@ == (OutputsView {
                        packets: seq![
                            spec_sync_position_frame(y, old(self).player.confirm_tp_count),
                        ],
                        requests: seq![],
                        pending_move: None,
                    })
                },
            },
    {
        self.player.set_pos(x, y, z);
        self.player.set_on_ground(on_ground);
        match self.waiting_for_confirm_teleport {
            Some(_) => Outputs::none(),
            None => {
                let confirm_id = self.player.confirm_tp_count;
                self.player.confirm_tp_count = if confirm_id == u32::MAX {
                    0
                } else {
                    confirm_id + 1
                };
                let (new_y_bits, mask) = if y < -80 {
                    // The bit pattern of the absolute height -64.
                    (0xC050_0000_0000_0000u64, 0x1Du8)
                } else {
                    (0u64, 0x1Fu8)
                };
                proof {
                    lemma_be_bytes_len(0, 8);
                    lemma_be_bytes_len(new_y_bits as nat, 8);
                    lemma_be_bytes_len(0, 4);
                    lemma_varint_bytes_len(u32_to_i32(confirm_id));
                }
                let out = PacketBuilder::new().set_id(
                    PlayPacketClientBound::SyncPlayerPosition,
                ).add_long(0).add_long(new_y_bits).add_long(0).add_int(0).add_int(0).add_byte(
                    mask,
                ).add_varint(u32_as_i32(confirm_id)).build();
                self.waiting_for_confirm_teleport = Some(u32_as_i32(confirm_id));
                match out {
                    Some(p) => Outputs::one_packet(p),
                    None => {
                        proof {
                            assert(false);
                        }
                        Outputs::none()
                    },
                }
            },
        }
    }

    /// Handle one play-phase frame: teleport confirms clear the outstanding
    /// id, position packets hand their coordinates out for flooring, chat is
    /// forwarded to the core, a recognized `place` command updates the block
    /// at the player's feet, pings are echoed, and the rest is accepted
    /// without effect.
    pub fn handle_play_packet(&mut self, data: Vec<u8>) -> (r: Result<Outputs, ServerError>)
        requires
            old(self).wf(),
        ensures
            final(self).wf(),
            match spec_parse_play(data@) {
                Ok(PlayPacketServerBoundView::ConfirmTeleportation { id }) => {
                    &&& *final(self) == (MCServerConnection {
                        waiting_for_confirm_teleport: if old(
                            self,
                        ).waiting_for_confirm_teleport == Some(id) {
                            None
                        } else {
                            old(self).waiting_for_confirm_teleport
                        },
                        ..*old(self)
                    })
                    &&& r matches Ok(o) && o@ == spec_no_outputs()
                },
                Ok(PlayPacketServerBoundView::ChatCommand { command }) => {
                    &&& *final(self) == *old(self)
                    &&& r matches Ok(o) && o@ == (OutputsView {
                        packets: match spec_parse_place(encode_utf8(command)) {
                            Some(state) => seq![
                                spec_frame(
                                    0x09,
                                    spec_be_bytes(
                                        spec_blockpos_packed(
                                            old(self).player.x,
                                            old(self).player.y,
                                            old(self).player.z,
                                        ) as nat,
                                        8,
                                    ) + spec_varint_bytes(state),
                                ),
                            ],
                            None => seq![],
                        },
                        requests: seq![],
                        pending_move: None,
                    })
                },
                Ok(PlayPacketServerBoundView::ClientInformation { view_distance, .. }) => {
                    &&& *final(self) == (MCServerConnection {
                        view_distance: spec_clamp_view_distance(view_distance),
                        ..*old(self)
                    })
                    &&& r matches Ok(o) && o@ == spec_no_outputs()
                },
                Ok(PlayPacketServerBoundView::ChatMessage { message, timestamp, salt, .. }) => {
                    &&& *final(self) == *old(self)
                    &&& r matches Ok(o) && o@ == (OutputsView {
                        packets: seq![],
                        requests: seq![
                            ServerMainThreadBoundView::ChatMessage {
                                player_name: old(self).pretty_identifier@,
                                message,
                                timestamp,
                                salt,
                            },
                        ],
                        pending_move: None,
                    })
                },
                Ok(PlayPacketServerBoundView::SetPlayerPosition { x_bits, y_bits, z_bits, on_ground }) => {
                    &&& *final(self) == *old(self)
                    &&& r matches Ok(o) && o@ == (OutputsView {
                        packets: seq![],
                        requests: seq![],
                        pending_move: Some(RawMove { x_bits, y_bits, z_bits, on_ground }),
                    })
                },
                Ok(PlayPacketServerBoundView::SetPlayerPositionAndRotation {
                    x_bits,
                    y_bits,
                    z_bits,
                    on_ground,
                    ..
                }) => {
                    &&& *final(self) == *old(self)
                    &&& r matches Ok(o) && o@ == (OutputsView {
                        packets: seq![],
                        requests: seq![],
                        pending_move: Some(RawMove { x_bits, y_bits, z_bits, on_ground }),
                    })
                },
                Ok(PlayPacketServerBoundView::SetPlayerRotation { on_ground, .. }) => {
                    &&& *final(self) == (MCServerConnection {
                        player: (Player { on_ground, ..old(self).player }),
                        ..*old(self)
                    })
                    &&& r matches Ok(o) && o@ == spec_no_outputs()
                },
                Ok(PlayPacketServerBoundView::SetPlayerOnGround(on_ground)) => {
                    &&& *final(self) == (MCServerConnection {
                        player: (Player { on_ground, ..old(self).player }),
                        ..*old(self)
                    })
                    &&& r matches Ok(o) && o@ == spec_no_outputs()
                },
                Ok(PlayPacketServerBoundView::PingRequest(ping_id)) => {
                    &&& *final(self) == *old(self)
                    &&& r matches Ok(o) && o@ == (OutputsView {
                        packets: seq![spec_frame(0x36, spec_be_bytes(ping_id as nat, 8))],
                        requests: seq![],
                        pending_move: None,
                    })
                },
                Ok(_) => {
                    &&& *final(self) == *old(self)
                    &&& r matches Ok(o) && o@ == spec_no_outputs()
                },
                Err(e) => {
                    &&& *final(self) == *old(self)
                    &&& r == Err::<Outputs, ServerError>(e)
                },
            },
    {
        let packet = match PlayPacketServerBound::parse(data) {
            Ok(p) => p,
            Err(e) => { return Err(e); },
        };
        match packet {
            PlayPacketServerBound::ConfirmTeleportation { id } => {
                match self.waiting_for_confirm_teleport {
                    Some(waiting) => {
                        if waiting == id {
                            self.waiting_for_confirm_teleport = None;
                        }
                    },
                    None => {},
                }
                Ok(Outputs::none())
            },
            PlayPacketServerBound::ChatCommand { command } => {
                match parse_place_command(&command) {
                    Some(block_state) => {
                        let packet = PlayPacketClientBound::block_update(
                            block_state,
                            self.player.block_pos(),
                        );
                        Ok(Outputs::one_packet(packet))
                    },
                    None => Ok(Outputs::none()),
                }
            },
            PlayPacketServerBound::ClientInformation { view_distance, .. } => {
                self.view_distance = clamp_view_distance(view_distance);
                Ok(Outputs::none())
            },
            PlayPacketServerBound::ChatMessage { message, timestamp, salt, .. } => {
                Ok(
                    Outputs::one_request(
                        ServerMainThreadBound::ChatMessage {
                            player_name: self.pretty_identifier.clone(),
                            message,
                            timestamp,
                            salt,
                        },
                    ),
                )
            },
            PlayPacketServerBound::SetPlayerPosition { x_bits, y_bits, z_bits, on_ground } => {
                Ok(
                    Outputs {
                        packets: Vec::new(),
                        requests: Vec::new(),
                        pending_move: Some(RawMove { x_bits, y_bits, z_bits, on_ground }),
                    },
                )
            },
            PlayPacketServerBound::SetPlayerPositionAndRotation {
                x_bits,
                y_bits,
                z_bits,
                yaw_bits: _,
                pitch_bits: _,
                on_ground,
            } => {
                Ok(
                    Outputs {
                        packets: Vec::new(),
                        requests: Vec::new(),
                        pending_move: Some(RawMove { x_bits, y_bits, z_bits, on_ground }),
                    },
                )
            },
            PlayPacketServerBound::SetPlayerRotation { yaw_bits: _, pitch_bits: _, on_ground } => {
                self.player.set_on_ground(on_ground);
                Ok(Outputs::none())
            },
            PlayPacketServerBound::SetPlayerOnGround(on_ground) => {
                self.player.set_on_ground(on_ground);
                Ok(Outputs::none())
            },
            PlayPacketServerBound::PingRequest(ping_id) => {
                proof {
                    lemma_be_bytes_len(ping_id as nat, 8);
                }
                let out = PacketBuilder::new().set_id(PlayPacketClientBound::PingResponse).add_long(
                    ping_id,
                ).build();
                match out {
                    Some(p) => Ok(Outputs::one_packet(p)),
                    None => {
                        proof {
                            assert(false);
                        }
                        Err(ServerError::EndOfPacket)
                    },
                }
            },
            PlayPacketServerBound::CloseContainer(_) => Ok(Outputs::none()),
            PlayPacketServerBound::DebugSampleSubscription { .. } => Ok(Outputs::none()),
            PlayPacketServerBound::PlayerAbilities(_) => Ok(Outputs::none()),
            PlayPacketServerBound::PlayerAction { .. } => Ok(Outputs::none()),
            PlayPacketServerBound::PlayerCommand { .. } => Ok(Outputs::none()),
            PlayPacketServerBound::SetHeldItem(_) => Ok(Outputs::none()),
            PlayPacketServerBound::SetCreativeModeSlot { .. } => Ok(Outputs::none()),
            PlayPacketServerBound::SwingArm { .. } => Ok(Outputs::none()),
            PlayPacketServerBound::UseItemOn { .. } => Ok(Outputs::none()),
            PlayPacketServerBound::UseItem { .. } => Ok(Outputs::none()),
        }
    }
}

// ---------------------------------------------------------------------------
// Chunk streaming.
// ---------------------------------------------------------------------------

/// Chebyshev distance from a chunk position to the player's chunk.
pub open spec fn spec_cheb(a: ChunkPos, px: int, pz: int) -> int {
    vstd::math::max(vstd::math::abs(a.x - px) as int, vstd::math::abs(a.z - pz) as int)
}

/// The chunk position a core request asks for; requests of other kinds map
/// to the origin.
pub open spec fn spec_req_pos(m: ServerMainThreadBoundView) -> ChunkPos {
    match m {
        ServerMainThreadBoundView::RequestChunk(p) => p,
        _ => ChunkPos { x: 0, z: 0 },
    }
}

/// Floor division by 16, the chunk edge length.
fn div_floor_16(v: i32) -> (r: i32)
    ensures
        r as int == (v as int) / 16,
{
    if v >= 0 {
        v / 16
    } else {
        let n = ((-(v as i64)) + 15) / 16;
        proof {
            let q = (v as int) / 16;
            let rem = (v as int) % 16;
            assert(v as int == 16 * q + rem);
            assert((-(v as int)) + 15 == 16 * (-q) + (15 - rem));
            assert(((-(v as int)) + 15) / 16 == -q) by (nonlinear_arith)
                requires
                    (-(v as int)) + 15 == 16 * (-q) + (15 - rem),
                    0 <= 15 - rem < 16,
            ;
        }
        (-n) as i32
    }
}

/// Chebyshev distance, computed in 64 bits to avoid overflow at the edges
/// of the coordinate range.
fn cheb_dist(a: ChunkPos, px: i32, pz: i32) -> (r: i64)
    ensures
        r as int == spec_cheb(a, px as int, pz as int),
{
    let dx = if a.x >= px {
        (a.x as i64) - (px as i64)
    } else {
        (px as i64) - (a.x as i64)
    };
    let dz = if a.z >= pz {
        (a.z as i64) - (pz as i64)
    } else {
        (pz as i64) - (a.z as i64)
    };
    if dx >= dz {
        dx
    } else {
        dz
    }
}

/// Whether the vector holds the given position.
fn chunk_list_contains(v: &Vec<ChunkPos>, p: ChunkPos) -> (r: bool)
    ensures
        r == v@.contains(p),
{
    let n = v.len();
    let mut i: usize = 0;
    while i < n
        invariant
            i <= n == v@.len(),
            forall|k: int| 0 <= k < i ==> v@[k] != p,
        decreases n - i,
    {
        if v[i] == p {
            return true;
        }
        i = i + 1;
    }
    proof {
        assert(!v@.contains(p));
    }
    false
}

/// Sort chunk positions by Chebyshev distance to the player's chunk,
/// ascending, keeping exactly the same positions.
fn sort_by_cheb(targets: Vec<ChunkPos>, px: i32, pz: i32) -> (r: Vec<ChunkPos>)
    ensures
        r@.to_multiset() == targets@.to_multiset(),
        forall|i: int, j: int|
            0 <= i <= j < r@.len() ==> spec_cheb(#[trigger] r@[i], px as int, pz as int)
                <= spec_cheb(#[trigger] r@[j], px as int, pz as int),
{
    broadcast use vstd::seq_lib::group_to_multiset_ensures;

    let mut rest = targets;
    let mut out: Vec<ChunkPos> = Vec::new();
    proof {
        assert(out@.to_multiset().add(rest@.to_multiset()) =~= targets@.to_multiset()) by {
            assert(out@.to_multiset() =~= Multiset::<ChunkPos>::empty());
        };
    }
    while rest.len() > 0
        invariant
            out@.to_multiset().add(rest@.to_multiset()) == targets@.to_multiset(),
            forall|i: int, j: int|
                0 <= i <= j < out@.len() ==> spec_cheb(#[trigger] out@[i], px as int, pz as int)
                    <= spec_cheb(#[trigger] out@[j], px as int, pz as int),
            forall|i: int, j: int|
                0 <= i < out@.len() && 0 <= j < rest@.len() ==> spec_cheb(
                    #[trigger] out@[i],
                    px as int,
                    pz as int,
                ) <= spec_cheb(#[trigger] rest@[j], px as int, pz as int),
        decreases rest@.len(),
    {
        let n = rest.len();
        let mut best: usize = 0;
        let mut best_d = cheb_dist(rest[0], px, pz);
        let mut i: usize = 1;
        while i < n
            invariant
                1 <= i <= n == rest@.len(),
                best < i,
                best_d as int == spec_cheb(rest@[best as int], px as int, pz as int),
                forall|k: int|
                    0 <= k < i ==> best_d as int <= spec_cheb(
                        #[trigger] rest@[k],
                        px as int,
                        pz as int,
                    ),
            decreases n - i,
        {
            let d = cheb_dist(rest[i], px, pz);
            if d < best_d {
                best = i;
                best_d = d;
            }
            i = i + 1;
        }
        let ghost rest_pre = rest@;
        let ghost out_pre = out@;
        let picked = rest.remove(best);
        out.push(picked);
        proof {
            rest_pre.to_multiset_ensures();
            out_pre.to_multiset_ensures();
            assert(rest_pre.contains(picked));
            assert(rest@.to_multiset() =~= rest_pre.to_multiset().remove(picked));
            assert(out@.to_multiset() =~= out_pre.to_multiset().insert(picked));
            assert(out@.to_multiset().add(rest@.to_multiset()) =~= targets@.to_multiset());
            assert forall|j: int| 0 <= j < rest@.len() implies best_d as int <= spec_cheb(
                #[trigger] rest@[j],
                px as int,
                pz as int,
            ) by {
                if j < best {
                    assert(rest@[j] == rest_pre[j]);
                } else {
                    assert(rest@[j] == rest_pre[j + 1]);
                }
            };
        }
    }
    proof {
        assert(rest@ =~= Seq::<ChunkPos>::empty());
        assert(out@.to_multiset().add(rest@.to_multiset()) =~= out@.to_multiset()) by {
            assert(rest@.to_multiset() =~= Multiset::<ChunkPos>::empty());
        };
    }
    out
}

/// The part of the target square already scanned by the row-major walk:
/// rows before `dx`, and within row `dx` the columns before `dz`
/// (offsets are relative to the square's corner).
pub open spec fn spec_scanned(p: ChunkPos, px: int, pz: int, v: int, dx: int, dz: int) -> bool {
    &&& px - v <= p.x <= px + v
    &&& pz - v <= p.z <= pz + v
    &&& (p.x - px + v < dx || (p.x - px + v == dx && p.z - pz + v < dz))
}

impl MCServerConnection {
    /// One round of chunk streaming. The target set is every chunk within
    /// the view distance of the player's chunk (Chebyshev); each target not
    /// yet loaded is recorded and requested, nearest first; and every loaded
    /// chunk farther than the view distance plus three is dropped.
    pub fn handle_chunk_loading(&mut self) -> (r: Vec<ServerMainThreadBound>)
        requires
            old(self).wf(),
        ensures
            final(self).wf(),
            *final(self) == (MCServerConnection {
                client_loaded_chunks: final(self).client_loaded_chunks,
                ..*old(self)
            }),
            ({
                let px = old(self).player.x as int / 16;
                let pz = old(self).player.z as int / 16;
                let v = old(self).view_distance as int;
                let loaded0 = old(self).client_loaded_chunks@;
                let loaded1 = final(self).client_loaded_chunks@;
                let reqs = r@.map_values(|m: ServerMainThreadBound| m@);
                &&& (forall|p: ChunkPos| #[trigger]
                    loaded1.contains(p) <==> ((loaded0.contains(p) || spec_cheb(p, px, pz) <= v)
                        && spec_cheb(p, px, pz) <= v + 3))
                &&& (forall|k: int|
                    0 <= k < reqs.len() ==> (#[trigger] reqs[k])
                        == ServerMainThreadBoundView::RequestChunk(spec_req_pos(reqs[k]))
                        && spec_cheb(spec_req_pos(reqs[k]), px, pz) <= v && !loaded0.contains(
                        spec_req_pos(reqs[k]),
                    ))
                &&& (forall|p: ChunkPos|
                    spec_cheb(p, px, pz) <= v && !loaded0.contains(p) ==> reqs.contains(
                        ServerMainThreadBoundView::RequestChunk(p),
                    ))
                &&& (forall|k1: int, k2: int|
                    0 <= k1 < k2 < reqs.len() ==> reqs[k1] != reqs[k2])
                &&& (forall|k1: int, k2: int|
                    0 <= k1 <= k2 < reqs.len() ==> spec_cheb(spec_req_pos(reqs[k1]), px, pz)
                        <= spec_cheb(spec_req_pos(reqs[k2]), px, pz))
            }),
    {
        broadcast use vstd::seq_lib::lemma_seq_contains_after_push;

        let px = div_floor_16(self.player.x);
        let pz = div_floor_16(self.player.z);
        proof {
            assert(-0x800_0000 <= px as int <= 0x800_0000 && -0x800_0000 <= pz as int
                <= 0x800_0000) by (nonlinear_arith)
                requires
                    px as int == (self.player.x as int) / 16,
                    pz as int == (self.player.z as int) / 16,
                    -0x8000_0000 <= self.player.x as int <= 0x7fff_ffff,
                    -0x8000_0000 <= self.player.z as int <= 0x7fff_ffff,
            ;
        }
        let v = self.view_distance;
        let side = 2 * v + 1;
        // The target square, scanned row-major.
        let mut targets: Vec<ChunkPos> = Vec::new();
        let mut dx: i32 = 0;
        while dx < side
            invariant
                0 <= dx <= side == 2 * v + 1,
                2 <= v <= 12,
                -0x800_0000 <= px as int <= 0x800_0000,
                -0x800_0000 <= pz as int <= 0x800_0000,
                forall|p: ChunkPos| #[trigger]
                    targets@.contains(p) <==> spec_scanned(
                        p,
                        px as int,
                        pz as int,
                        v as int,
                        dx as int,
                        0,
                    ),
            decreases side - dx,
        {
            let mut dz: i32 = 0;
            while dz < side
                invariant
                    0 <= dx < side == 2 * v + 1,
                    0 <= dz <= side,
                    2 <= v <= 12,
                    -0x800_0000 <= px as int <= 0x800_0000,
                    -0x800_0000 <= pz as int <= 0x800_0000,
                    forall|p: ChunkPos| #[trigger]
                        targets@.contains(p) <==> spec_scanned(
                            p,
                            px as int,
                            pz as int,
                            v as int,
                            dx as int,
                            dz as int,
                        ),
                decreases side - dz,
            {
                let q = ChunkPos { x: px - v + dx, z: pz - v + dz };
                let ghost t_pre = targets@;
                targets.push(q);
                dz = dz + 1;
                proof {
                    assert(targets@ == t_pre.push(q));
                    assert forall|p: ChunkPos| #[trigger]
                        targets@.contains(p) <==> spec_scanned(
                            p,
                            px as int,
                            pz as int,
                            v as int,
                            dx as int,
                            dz as int,
                        ) by {
                        vstd::seq_lib::lemma_seq_contains_after_push(t_pre, q, p);
                    };
                }
            }
            dx = dx + 1;
            proof {
                assert forall|p: ChunkPos| #[trigger]
                    targets@.contains(p) <==> spec_scanned(
                        p,
                        px as int,
                        pz as int,
                        v as int,
                        dx as int,
                        0,
                    ) by {};
            }
        }
        proof {
            assert forall|p: ChunkPos| #[trigger]
                targets@.contains(p) <==> spec_cheb(p, px as int, pz as int) <= v as int by {};
        }
        // Nearest chunks first.
        let ghost targets_v = targets@;
        let sorted = sort_by_cheb(targets, px, pz);
        proof {
            sorted@.to_multiset_ensures();
            targets_v.to_multiset_ensures();
            assert forall|p: ChunkPos| #[trigger]
                sorted@.contains(p) <==> spec_cheb(p, px as int, pz as int) <= v as int by {
                assert(sorted@.contains(p) <==> sorted@.to_multiset().count(p) > 0);
                assert(targets_v.contains(p) <==> targets_v.to_multiset().count(p) > 0);
            };
        }
        // Record and request what is not loaded yet.
        let ghost loaded0 = self.client_loaded_chunks@;
        let mut reqs: Vec<ServerMainThreadBound> = Vec::new();
        let n = sorted.len();
        let mut i: usize = 0;
        while i < n
            invariant
                i <= n == sorted@.len(),
                self.wf(),
                *self == (MCServerConnection {
                    client_loaded_chunks: self.client_loaded_chunks,
                    ..*old(self)
                }),
                loaded0 == old(self).client_loaded_chunks@,
                2 <= v <= 12,
                v == old(self).view_distance,
                px as int == old(self).player.x as int / 16,
                pz as int == old(self).player.z as int / 16,
                forall|p: ChunkPos| #[trigger]
                    sorted@.contains(p) <==> spec_cheb(p, px as int, pz as int) <= v as int,
                forall|j1: int, j2: int|
                    0 <= j1 <= j2 < sorted@.len() ==> spec_cheb(
                        #[trigger] sorted@[j1],
                        px as int,
                        pz as int,
                    ) <= spec_cheb(#[trigger] sorted@[j2], px as int, pz as int),
                spec_unique_chunks(self.client_loaded_chunks@),
                forall|p: ChunkPos| #[trigger]
                    self.client_loaded_chunks@.contains(p) <==> (loaded0.contains(p)
                        || sorted@.take(i as int).contains(p)),
                forall|p: ChunkPos|
                    #[trigger] self.client_loaded_chunks@.contains(p) && !loaded0.contains(p)
                        ==> reqs@.map_values(|m: ServerMainThreadBound| m@).contains(
                        ServerMainThreadBoundView::RequestChunk(p),
                    ),
                forall|k: int|
                    0 <= k < reqs@.len() ==> (#[trigger] reqs@[k]@)
                        == ServerMainThreadBoundView::RequestChunk(spec_req_pos(reqs@[k]@))
                        && spec_cheb(spec_req_pos(reqs@[k]@), px as int, pz as int) <= v as int
                        && !loaded0.contains(spec_req_pos(reqs@[k]@))
                        && self.client_loaded_chunks@.contains(spec_req_pos(reqs@[k]@)),
                forall|k: int|
                    0 <= k < reqs@.len() ==> exists|j: int|
                        0 <= j < i && spec_req_pos(#[trigger] reqs@[k]@) == sorted@[j],
                forall|k1: int, k2: int|
                    0 <= k1 < k2 < reqs@.len() ==> (#[trigger] reqs@[k1]@) != (
                    #[trigger] reqs@[k2]@),
                forall|k1: int, k2: int|
                    0 <= k1 <= k2 < reqs@.len() ==> spec_cheb(
                        spec_req_pos(#[trigger] reqs@[k1]@),
                        px as int,
                        pz as int,
                    ) <= spec_cheb(spec_req_pos(#[trigger] reqs@[k2]@), px as int, pz as int),
            decreases n - i,
        {
            let t = sorted[i];
            if !chunk_list_contains(&self.client_loaded_chunks, t) {
                let ghost loaded_pre = self.client_loaded_chunks@;
                let ghost reqs_pre = reqs@;
                self.client_loaded_chunks.push(t);
                reqs.push(ServerMainThreadBound::RequestChunk(t));
                proof {
                    assert(sorted@.contains(t)) by {
                        assert(sorted@[i as int] == t);
                    };
                    assert forall|p: ChunkPos| #[trigger]
                        self.client_loaded_chunks@.contains(p) <==> (loaded_pre.contains(p) || p
                            == t) by {
                        vstd::seq_lib::lemma_seq_contains_after_push(loaded_pre, t, p);
                    };
                    assert forall|a: int, b: int|
                        0 <= a < b < self.client_loaded_chunks@.len()
                            implies self.client_loaded_chunks@[a]
                            != self.client_loaded_chunks@[b] by {
                        assert(self.client_loaded_chunks@[a] == loaded_pre[a]);
                        if b < loaded_pre.len() {
                            assert(self.client_loaded_chunks@[b] == loaded_pre[b]);
                        } else {
                            assert(self.client_loaded_chunks@[b] == t);
                            assert(loaded_pre.contains(loaded_pre[a]));
                        }
                    };
                    assert(reqs@ == reqs_pre.push(ServerMainThreadBound::RequestChunk(t)));
                    let rv_pre = reqs_pre.map_values(|m: ServerMainThreadBound| m@);
                    let rv = reqs@.map_values(|m: ServerMainThreadBound| m@);
                    assert(rv =~= rv_pre.push(ServerMainThreadBoundView::RequestChunk(t)));
                    assert forall|p: ChunkPos| #[trigger]
                        rv.contains(ServerMainThreadBoundView::RequestChunk(p)) <==> (
                        rv_pre.contains(ServerMainThreadBoundView::RequestChunk(p)) || p == t) by {
                        vstd::seq_lib::lemma_seq_contains_after_push(
                            rv_pre,
                            ServerMainThreadBoundView::RequestChunk(t),
                            ServerMainThreadBoundView::RequestChunk(p),
                        );
                    };
                    assert forall|k: int| 0 <= k < reqs@.len() implies (#[trigger] reqs@[k]@)
                        == ServerMainThreadBoundView::RequestChunk(spec_req_pos(reqs@[k]@))
                        && spec_cheb(spec_req_pos(reqs@[k]@), px as int, pz as int) <= v as int
                        && !loaded0.contains(spec_req_pos(reqs@[k]@))
                        && self.client_loaded_chunks@.contains(spec_req_pos(reqs@[k]@)) by {
                        if k < reqs_pre.len() {
                            assert(reqs@[k] == reqs_pre[k]);
                        } else {
                            assert(reqs@[k] == ServerMainThreadBound::RequestChunk(t));
                        }
                    };
                    assert forall|k: int| 0 <= k < reqs@.len() implies exists|j: int|
                        0 <= j < i + 1 && spec_req_pos(#[trigger] reqs@[k]@) == sorted@[j] by {
                        if k < reqs_pre.len() {
                            assert(reqs@[k] == reqs_pre[k]);
                        } else {
                            assert(spec_req_pos(reqs@[k]@) == sorted@[i as int]);
                        }
                    };
                    assert forall|k1: int, k2: int|
                        0 <= k1 < k2 < reqs@.len() implies (#[trigger] reqs@[k1]@) != (
                    #[trigger] reqs@[k2]@) by {
                        assert(reqs@[k1] == reqs_pre[k1]);
                        if k2 < reqs_pre.len() {
                            assert(reqs@[k2] == reqs_pre[k2]);
                        } else {
                            // The fresh request names a chunk that was not
                            // loaded, while every earlier request's chunk is.
                            assert(loaded_pre.contains(spec_req_pos(reqs@[k1]@)));
                            assert(spec_req_pos(reqs@[k2]@) == t);
                        }
                    };
                    assert forall|k1: int, k2: int|
                        0 <= k1 <= k2 < reqs@.len() implies spec_cheb(
                        spec_req_pos(#[trigger] reqs@[k1]@),
                        px as int,
                        pz as int,
                    ) <= spec_cheb(spec_req_pos(#[trigger] reqs@[k2]@), px as int, pz as int) by {
                        if k2 < reqs_pre.len() {
                            assert(reqs@[k1] == reqs_pre[k1]);
                            assert(reqs@[k2] == reqs_pre[k2]);
                        } else if k1 < reqs_pre.len() {
                            assert(reqs@[k1] == reqs_pre[k1]);
                            let j1 = choose|j: int|
                                0 <= j < i && spec_req_pos(reqs_pre[k1]@) == sorted@[j];
                            assert(spec_cheb(sorted@[j1], px as int, pz as int) <= spec_cheb(
                                sorted@[i as int],
                                px as int,
                                pz as int,
                            ));
                        }
                    };
                }
            }
            i = i + 1;
            proof {
                assert(sorted@.take(i as int).drop_last() =~= sorted@.take(i - 1));
                assert forall|p: ChunkPos| #[trigger]
                    sorted@.take(i as int).contains(p) <==> (sorted@.take(i - 1).contains(p) || p
                        == sorted@[i - 1]) by {
                    assert(sorted@.take(i as int) =~= sorted@.take(i - 1).push(sorted@[i - 1]));
                    vstd::seq_lib::lemma_seq_contains_after_push(
                        sorted@.take(i - 1),
                        sorted@[i - 1],
                        p,
                    );
                };
            }
        }
        proof {
            assert(sorted@.take(n as int) =~= sorted@);
            assert forall|p: ChunkPos|
                spec_cheb(p, px as int, pz as int) <= v as int && !loaded0.contains(
                    p,
                ) implies reqs@.map_values(|m: ServerMainThreadBound| m@).contains(
                ServerMainThreadBoundView::RequestChunk(p),
            ) by {
                assert(sorted@.contains(p));
                assert(self.client_loaded_chunks@.contains(p));
            };
        }
        // Drop what drifted out of range.
        let ghost mid_loaded = self.client_loaded_chunks@;
        let mut kept: Vec<ChunkPos> = Vec::new();
        let m = self.client_loaded_chunks.len();
        let mut k: usize = 0;
        while k < m
            invariant
                k <= m == mid_loaded.len(),
                mid_loaded == self.client_loaded_chunks@,
                2 <= v <= 12,
                spec_unique_chunks(mid_loaded),
                spec_unique_chunks(kept@),
                forall|p: ChunkPos| #[trigger]
                    kept@.contains(p) <==> (mid_loaded.take(k as int).contains(p) && spec_cheb(
                        p,
                        px as int,
                        pz as int,
                    ) <= v + 3),
            decreases m - k,
        {
            let c = self.client_loaded_chunks[k];
            let d = cheb_dist(c, px, pz);
            let ghost kept_pre = kept@;
            if d <= (v as i64) + 3 {
                kept.push(c);
            }
            k = k + 1;
            proof {
                assert forall|p: ChunkPos| #[trigger]
                    mid_loaded.take(k as int).contains(p) <==> (mid_loaded.take(
                        k - 1,
                    ).contains(p) || p == mid_loaded[k - 1]) by {
                    assert(mid_loaded.take(k as int) =~= mid_loaded.take(k - 1).push(
                        mid_loaded[k - 1],
                    ));
                    vstd::seq_lib::lemma_seq_contains_after_push(
                        mid_loaded.take(k - 1),
                        mid_loaded[k - 1],
                        p,
                    );
                };
                if d as int <= v + 3 {
                    assert forall|p: ChunkPos| #[trigger]
                        kept@.contains(p) <==> (kept_pre.contains(p) || p == mid_loaded[k - 1]) by {
                        vstd::seq_lib::lemma_seq_contains_after_push(
                            kept_pre,
                            mid_loaded[k - 1],
                            p,
                        );
                    };
                    // The pushed position is fresh: an earlier kept element
                    // sits earlier in the (duplicate-free) loaded list.
                    assert forall|a: int, b: int|
                        0 <= a < b < kept@.len() implies kept@[a] != kept@[b] by {
                        assert(kept@[a] == kept_pre[a]);
                        if b < kept_pre.len() {
                            assert(kept@[b] == kept_pre[b]);
                        } else {
                            assert(kept@[b] == mid_loaded[k - 1]);
                            assert(kept_pre.contains(kept_pre[a]));
                            assert(mid_loaded.take(k - 1).contains(kept_pre[a]));
                            let idx = choose|idx: int|
                                0 <= idx < k - 1 && #[trigger] mid_loaded.take(k - 1)[idx]
                                    == kept_pre[a];
                            assert(mid_loaded[idx] == kept_pre[a]);
                        }
                    };
                }
            }
        }
        proof {
            assert(mid_loaded.take(m as int) =~= mid_loaded);
        }
        self.client_loaded_chunks = kept;
        reqs
    }

    /// One round of ticking. On the first round in play, announce the tick
    /// rate and step once; afterwards, step once more whenever at least one
    /// twentieth of a second has passed, and absorb a clock that went
    /// backwards without stepping.
    pub fn handle_ticks(&mut self, now_ms: u64) -> (r: Vec<Vec<u8>>)
        requires
            old(self).wf(),
        ensures
            final(self).wf(),
            *final(self) == (MCServerConnection {
                last_tick_ms: final(self).last_tick_ms,
                ..*old(self)
            }),
            match old(self).last_tick_ms {
                None => final(self).last_tick_ms == Some(now_ms) && r@.map_values(
                    |p: Vec<u8>| p@,
                ) == seq![
                    spec_frame(0x71, spec_be_bytes(0x41A0_0000, 4) + seq![spec_bool_byte(false)]),
                    spec_frame(0x72, spec_varint_bytes(1)),
                ],
                Some(last) => {
                    if now_ms >= last && now_ms - last >= 50 {
                        &&& final(self).last_tick_ms == Some(now_ms)
                        &&& r@.map_values(|p: Vec<u8>| p@) == seq![
                            spec_frame(0x72, spec_varint_bytes(1)),
                        ]
                    } else if now_ms < last {
                        &&& final(self).last_tick_ms == Some(now_ms)
                        &&& r@.map_values(|p: Vec<u8>| p@) == Seq::<Seq<u8>>::empty()
                    } else {
                        &&& final(self).last_tick_ms == old(self).last_tick_ms
                        &&& r@.map_values(|p: Vec<u8>| p@) == Seq::<Seq<u8>>::empty()
                    }
                },
            },
    {
        let mut r: Vec<Vec<u8>> = Vec::new();
        match self.last_tick_ms {
            None => {
                proof {
                    lemma_be_bytes_len(0x41A0_0000, 4);
                    lemma_varint_bytes_len(1);
                }
                // The tick rate of twenty per second, as the bit pattern of
                // its floating-point wire form.
                let ticking = PacketBuilder::new().set_id(
                    PlayPacketClientBound::SetTickingState,
                ).add_int(0x41A0_0000).add_bool(false).build();
                match ticking {
                    Some(p) => r.push(p),
                    None => {
                        proof {
                            assert(false);
                        }
                    },
                }
                let step = PacketBuilder::new().set_id(PlayPacketClientBound::StepTick).add_varint(
                    1,
                ).build();
                match step {
                    Some(p) => r.push(p),
                    None => {
                        proof {
                            assert(false);
                        }
                    },
                }
                self.last_tick_ms = Some(now_ms);
                proof {
                    assert(r@.map_values(|p: Vec<u8>| p@) =~= seq![
                        spec_frame(
                            0x71,
                            spec_be_bytes(0x41A0_0000, 4) + seq![spec_bool_byte(false)],
                        ),
                        spec_frame(0x72, spec_varint_bytes(1)),
                    ]);
                }
            },
            Some(last) => {
                if now_ms >= last && now_ms - last >= 50 {
                    proof {
                        lemma_varint_bytes_len(1);
                    }
                    let step = PacketBuilder::new().set_id(
                        PlayPacketClientBound::StepTick,
                    ).add_varint(1).build();
                    match step {
                        Some(p) => r.push(p),
                        None => {
                            proof {
                                assert(false);
                            }
                        },
                    }
                    self.last_tick_ms = Some(now_ms);
                    proof {
                        assert(r@.map_values(|p: Vec<u8>| p@) =~= seq![
                            spec_frame(0x72, spec_varint_bytes(1)),
                        ]);
                    }
                } else if now_ms < last {
                    self.last_tick_ms = Some(now_ms);
                    proof {
                        assert(r@.map_values(|p: Vec<u8>| p@) =~= Seq::<Seq<u8>>::empty());
                    }
                } else {
                    proof {
                        assert(r@.map_values(|p: Vec<u8>| p@) =~= Seq::<Seq<u8>>::empty());
                    }
                }
            },
        }
        r
    }
}

// ---------------------------------------------------------------------------
// Messages from the server core, and the dispatcher over phases.
// ---------------------------------------------------------------------------

/// The frame that ends the configuration phase: id 0x03 with no payload.
pub open spec fn spec_finish_configuration_frame() -> Seq<u8> {
    spec_frame(0x03, Seq::<u8>::empty())
}

/// The packets a worker writes in answer to one core message: registry data
/// for each registry burst item, the finish frame for the burst terminator,
/// the tag table for tag info, the chunk frame for a delivered chunk (and
/// nothing for a missing one), and the chat frame for a broadcast.
pub open spec fn spec_core_message_packets(
    m: ServerConnectionThreadBoundView,
    regs: RegistriesView,
    blocks: Seq<(Seq<char>, Seq<BlockStateView>)>,
) -> Seq<Seq<u8>> {
    match m {
        ServerConnectionThreadBoundView::RegistryInfo { registry_id, entries } => seq![
            spec_frame(0x07, spec_registry_data_payload(registry_id, entries)),
        ],
        ServerConnectionThreadBoundView::RegistryInfoFinished => seq![
            spec_finish_configuration_frame(),
        ],
        ServerConnectionThreadBoundView::TagInfo(tags) => seq![
            spec_frame(0x0D, spec_update_tags_payload(tags, regs, blocks)),
        ],
        ServerConnectionThreadBoundView::ChunkData(c) => match c {
            Some(p) => seq![
                spec_frame(0x27, spec_chunk_data_payload(p.chunk_x, p.chunk_z, p.data)),
            ],
            None => seq![],
        },
        ServerConnectionThreadBoundView::ChatMessage { player_name, message, .. } => seq![
            spec_frame(0x1E, spec_chat_fake_payload(player_name, message)),
        ],
    }
}

/// What a core message must satisfy for its answer to be encodable: strings
/// within the wire cap, counts within VarInt range, tag groups resolvable,
/// and payloads within the frame-length cap.
pub open spec fn spec_core_message_wf(
    m: ServerConnectionThreadBoundView,
    regs: RegistriesView,
    blocks: Seq<(Seq<char>, Seq<BlockStateView>)>,
) -> bool {
    match m {
        ServerConnectionThreadBoundView::RegistryInfo { registry_id, entries } => {
            &&& registry_id.len() <= 32767
            &&& spec_registry_entries_wf(entries)
            &&& entries.len() <= 0x7fff_ffff
            &&& spec_registry_data_payload(registry_id, entries).len() + 5 <= i32::MAX
        },
        ServerConnectionThreadBoundView::RegistryInfoFinished => true,
        ServerConnectionThreadBoundView::TagInfo(tags) => {
            &&& spec_tags_wf(tags, regs)
            &&& tags.len() <= 0x7fff_ffff
            &&& spec_update_tags_payload(tags, regs, blocks).len() + 5 <= i32::MAX
        },
        ServerConnectionThreadBoundView::ChunkData(c) => match c {
            Some(p) => p.data.len() <= 0x7fff_ffff && spec_chunk_data_payload(
                p.chunk_x,
                p.chunk_z,
                p.data,
            ).len() + 5 <= i32::MAX,
            None => true,
        },
        ServerConnectionThreadBoundView::ChatMessage { player_name, message, .. } => {
            &&& encode_utf8(player_name).len() <= 32767
            &&& encode_utf8(message).len() <= 32767
        },
    }
}

/// A worker emits the finish-configuration frame in answer to the registry
/// burst's terminator and to nothing else: every other answer differs from
/// it already in length.
pub proof fn lemma_finish_only_after_registry_burst(
    m: ServerConnectionThreadBoundView,
    regs: RegistriesView,
    blocks: Seq<(Seq<char>, Seq<BlockStateView>)>,
)
    ensures
        spec_core_message_packets(m, regs, blocks).contains(spec_finish_configuration_frame())
            <==> m is RegistryInfoFinished,
{
    lemma_varint_bytes_len(1);
    lemma_varint_bytes_len(3);
    assert(spec_varint_bytes(1) =~= seq![1u8]);
    assert(spec_varint_bytes(3) =~= seq![3u8]);
    assert(spec_finish_configuration_frame().len() == 2);
    match m {
        ServerConnectionThreadBoundView::RegistryInfo { registry_id, entries } => {
            lemma_varint_bytes_len(7);
            lemma_varint_bytes_len(entries.len() as i32);
            lemma_varint_bytes_len(encode_utf8(registry_id).len() as i32);
            let payload = spec_registry_data_payload(registry_id, entries);
            let body = spec_varint_bytes(7) + payload;
            lemma_varint_bytes_len(body.len() as i32);
            assert(spec_frame(0x07, payload).len() > 2);
            assert(spec_core_message_packets(m, regs, blocks)[0] == spec_frame(0x07, payload));
        },
        ServerConnectionThreadBoundView::RegistryInfoFinished => {
            assert(spec_core_message_packets(m, regs, blocks)[0]
                == spec_finish_configuration_frame());
        },
        ServerConnectionThreadBoundView::TagInfo(tags) => {
            lemma_varint_bytes_len(0x0D);
            lemma_varint_bytes_len(tags.len() as i32);
            let payload = spec_update_tags_payload(tags, regs, blocks);
            let body = spec_varint_bytes(0x0D) + payload;
            lemma_varint_bytes_len(body.len() as i32);
            assert(spec_frame(0x0D, payload).len() > 2);
            assert(spec_core_message_packets(m, regs, blocks)[0] == spec_frame(0x0D, payload));
        },
        ServerConnectionThreadBoundView::ChunkData(c) => {
            match c {
                Some(p) => {
                    lemma_varint_bytes_len(0x27);
                    lemma_be_bytes_len(i32_to_u32(p.chunk_x) as nat, 4);
                    let payload = spec_chunk_data_payload(p.chunk_x, p.chunk_z, p.data);
                    let body = spec_varint_bytes(0x27) + payload;
                    lemma_varint_bytes_len(body.len() as i32);
                    assert(spec_frame(0x27, payload).len() > 2);
                    assert(spec_core_message_packets(m, regs, blocks)[0] == spec_frame(
                        0x27,
                        payload,
                    ));
                },
                None => {},
            }
        },
        ServerConnectionThreadBoundView::ChatMessage { player_name, message, .. } => {
            lemma_varint_bytes_len(0x1E);
            let payload = spec_chat_fake_payload(player_name, message);
            let body = spec_varint_bytes(0x1E) + payload;
            lemma_varint_bytes_len(body.len() as i32);
            lemma_be_bytes_len(
                crate::codec::i16_to_u16(encode_utf8(message).len() as i16) as nat,
                2,
            );
            assert(spec_frame(0x1E, payload).len() > 2);
            assert(spec_core_message_packets(m, regs, blocks)[0] == spec_frame(0x1E, payload));
        },
    }
}

impl MCServerConnection {
    /// Answer one message from the server core, exactly as
    /// [`spec_core_message_packets`] says; receiving tag info additionally
    /// asks the core for the registry burst. The connection state itself
    /// never changes.
    pub fn handle_core_message(&mut self, message: ServerConnectionThreadBound) -> (r: Outputs)
        requires
            old(self).wf(),
            spec_core_message_wf(
                message@,
                old(self).resource_manager.registries_view(),
                old(self).resource_manager.blocks_view(),
            ),
        ensures
            final(self).wf(),
            *final(self) == *old(self),
            r@.packets == spec_core_message_packets(
                message@,
                old(self).resource_manager.registries_view(),
                old(self).resource_manager.blocks_view(),
            ),
            r@.requests == (if message@ is TagInfo {
                seq![ServerMainThreadBoundView::RequestRegistryInfo]
            } else {
                Seq::<ServerMainThreadBoundView>::empty()
            }),
            r@.pending_move is None,
    {
        match message {
            ServerConnectionThreadBound::RegistryInfo { registry_id, entries } => {
                let p = ConfigurationPacketResponse::registry_data(registry_id, entries);
                Outputs::one_packet(p)
            },
            ServerConnectionThreadBound::RegistryInfoFinished => {
                let out = PacketBuilder::new().set_id(
                    ConfigurationPacketResponse::FinishConfiguration,
                ).build();
                match out {
                    Some(p) => Outputs::one_packet(p),
                    None => {
                        proof {
                            assert(false);
                        }
                        Outputs::none()
                    },
                }
            },
            ServerConnectionThreadBound::TagInfo(tags) => {
                let p = ConfigurationPacketResponse::update_tags(tags, &self.resource_manager);
                let mut packets: Vec<Vec<u8>> = Vec::new();
                packets.push(p);
                let mut requests: Vec<ServerMainThreadBound> = Vec::new();
                requests.push(ServerMainThreadBound::RequestRegistryInfo);
                let r = Outputs { packets, requests, pending_move: None };
                proof {
                    assert(r@.packets =~= seq![r.packets@[0]@]);
                    assert(r@.requests =~= seq![ServerMainThreadBoundView::RequestRegistryInfo]);
                }
                r
            },
            ServerConnectionThreadBound::ChunkData(chunk) => {
                match chunk {
                    Some(c) => {
                        let p = PlayPacketClientBound::chunk_data(c.chunk_x, c.chunk_z, c.data);
                        Outputs::one_packet(p)
                    },
                    None => Outputs::none(),
                }
            },
            ServerConnectionThreadBound::ChatMessage { player_name, message, timestamp: _, salt: _ } => {
                let p = PlayPacketClientBound::player_chat_message_fake(player_name, message);
                Outputs::one_packet(p)
            },
        }
    }

    /// Dispatch one frame to the handler of the current phase: no frame is
    /// ever accepted by another phase's rules, and a connection in the
    /// transfer phase accepts nothing.
    pub fn handle_packet(&mut self, packet: Vec<u8>) -> (r: Result<Outputs, ServerError>)
        requires
            old(self).wf(),
        ensures
            final(self).wf(),
            old(self).state is Transfer ==> r == Err::<Outputs, ServerError>(
                ServerError::ServerStateNotImplemented(ConnectionStatusType::Transfer),
            ) && *final(self) == *old(self),
            old(self).state is Handshake ==> (match spec_parse_handshake(packet@) {
                Ok(HandshakePacketView::Handshake { next_state, .. }) => {
                    &&& *final(self) == (MCServerConnection { state: final(self).state, ..*old(self) })
                    &&& (next_state == 1 ==> final(self).state is Status)
                    &&& (next_state == 2 ==> final(self).state is Login)
                    &&& (next_state == 3 ==> final(self).state is Transfer)
                    &&& (1 <= next_state <= 3 ==> (r matches Ok(o) && o@ == spec_no_outputs()))
                    &&& (!(1 <= next_state <= 3) ==> r == Err::<Outputs, ServerError>(
                        ServerError::InvalidServerState(next_state),
                    ) && *final(self) == *old(self))
                },
                Err(e) => r == Err::<Outputs, ServerError>(e) && *final(self) == *old(self),
            }),
            old(self).state is Status ==> (match spec_parse_status(packet@) {
                Ok(_) => r is Ok && *final(self) == *old(self),
                Err(e) => r == Err::<Outputs, ServerError>(e) && *final(self) == *old(self),
            }),
            old(self).state is Login ==> (match spec_parse_login(packet@) {
                Ok(LoginPacketView::LoginAcknowledged) => r is Ok && final(self).state
                    is Configuration,
                Ok(_) => r is Ok && final(self).state is Login,
                Err(e) => r == Err::<Outputs, ServerError>(e) && *final(self) == *old(self),
            }),
            old(self).state is Configuration ==> (match spec_parse_configuration(packet@) {
                Ok(ConfigurationPacketView::ServerBoundKnownPacks { known_packs }) => {
                    if known_packs.len() > 0 && known_packs[0].namespace == "minecraft"@
                        && known_packs[0].id == "core"@ && known_packs[0].version == "1.21"@ {
                        r is Ok && final(self).state is Configuration
                    } else {
                        r == Err::<Outputs, ServerError>(ServerError::KnownPackMismatch)
                            && *final(self) == *old(self)
                    }
                },
                Ok(ConfigurationPacketView::FinishConfigurationAck) => r is Ok && final(self).state
                    is Play,
                Ok(_) => r is Ok && final(self).state is Configuration,
                Err(e) => r == Err::<Outputs, ServerError>(e) && *final(self) == *old(self),
            }),
            old(self).state is Play ==> final(self).state is Play && (match spec_parse_play(
                packet@,
            ) {
                Ok(_) => r is Ok,
                Err(e) => r == Err::<Outputs, ServerError>(e) && *final(self) == *old(self),
            }),
    {
        match self.state {
            ConnectionStatusType::Handshake => {
                match self.handle_handshake_packet(packet) {
                    Ok(()) => Ok(Outputs::none()),
                    Err(e) => Err(e),
                }
            },
            ConnectionStatusType::Status => self.handle_status_packet(packet),
            ConnectionStatusType::Login => self.handle_login_packet(packet),
            ConnectionStatusType::Configuration => self.handle_config_packet(packet),
            ConnectionStatusType::Play => self.handle_play_packet(packet),
            ConnectionStatusType::Transfer => {
                Err(ServerError::ServerStateNotImplemented(ConnectionStatusType::Transfer))
            },
        }
    }
}

// ---------------------------------------------------------------------------
// The place chat command.
// ---------------------------------------------------------------------------

/// The UTF-8 bytes of the command prefix `place `.
pub open spec fn spec_place_prefix() -> Seq<u8> {
    seq![0x70u8, 0x6cu8, 0x61u8, 0x63u8, 0x65u8, 0x20u8]
}

pub open spec fn spec_all_digits(bs: Seq<u8>) -> bool {
    forall|i: int| 0 <= i < bs.len() ==> 0x30 <= #[trigger] bs[i] <= 0x39
}

/// The value of a decimal digit string.
pub open spec fn spec_digits_value(bs: Seq<u8>) -> int
    decreases bs.len(),
{
    if bs.len() == 0 {
        0
    } else {
        spec_digits_value(bs.drop_last()) * 10 + (bs.last() - 0x30)
    }
}

/// A decimal 32-bit integer: an optional sign, then at least one digit,
/// with the value in range.
pub open spec fn spec_parse_i32_dec(bs: Seq<u8>) -> Option<i32> {
    if bs.len() > 0 && (bs[0] == 0x2d || bs[0] == 0x2b) {
        let ds = bs.drop_first();
        if ds.len() > 0 && spec_all_digits(ds) {
            if bs[0] == 0x2d {
                if -spec_digits_value(ds) >= i32::MIN {
                    Some((-spec_digits_value(ds)) as i32)
                } else {
                    None
                }
            } else {
                if spec_digits_value(ds) <= i32::MAX {
                    Some(spec_digits_value(ds) as i32)
                } else {
                    None
                }
            }
        } else {
            None
        }
    } else if bs.len() > 0 && spec_all_digits(bs) {
        if spec_digits_value(bs) <= i32::MAX {
            Some(spec_digits_value(bs) as i32)
        } else {
            None
        }
    } else {
        None
    }
}

/// The state id named by a `place <id>` command, if the text is one.
pub open spec fn spec_parse_place(bs: Seq<u8>) -> Option<i32> {
    if bs.len() > 6 && bs.take(6) == spec_place_prefix() {
        spec_parse_i32_dec(bs.skip(6))
    } else {
        None
    }
}

/// A digit string's value only grows as digits are appended.
proof fn lemma_digits_value_mono(bs: Seq<u8>, i: int)
    requires
        0 <= i <= bs.len(),
        spec_all_digits(bs),
    ensures
        spec_digits_value(bs.take(i)) <= spec_digits_value(bs),
        spec_digits_value(bs) >= 0,
    decreases bs.len() - i,
{
    if i < bs.len() {
        lemma_digits_value_mono(bs, i + 1);
        assert(bs.take(i + 1).drop_last() =~= bs.take(i));
        assert(spec_digits_value(bs.take(i)) >= 0) by {
            lemma_digits_value_nonneg(bs.take(i));
        };
        assert(spec_digits_value(bs.take(i)) * 10 <= spec_digits_value(bs.take(i + 1)))
            by (nonlinear_arith)
            requires
                spec_digits_value(bs.take(i + 1)) == spec_digits_value(bs.take(i)) * 10 + (bs.take(
                    i + 1,
                ).last() - 0x30),
                bs.take(i + 1).last() >= 0x30,
        ;
    } else {
        assert(bs.take(i) =~= bs);
        lemma_digits_value_nonneg(bs);
    }
}

proof fn lemma_digits_value_nonneg(bs: Seq<u8>)
    requires
        spec_all_digits(bs),
    ensures
        spec_digits_value(bs) >= 0,
    decreases bs.len(),
{
    if bs.len() > 0 {
        assert(spec_all_digits(bs.drop_last())) by {
            assert(forall|i: int|
                0 <= i < bs.len() - 1 ==> bs.drop_last()[i] == #[trigger] bs[i]);
        };
        lemma_digits_value_nonneg(bs.drop_last());
    }
}

/// Parse the digits of a decimal value starting at `start`, exactly the
/// value of that digit string when it is all digits and fits.
fn parse_digits(bs: &[u8], start: usize) -> (r: Option<i64>)
    requires
        start <= bs@.len(),
    ensures
        ({
            let ds = bs@.skip(start as int);
            match r {
                Some(v) => ds.len() > 0 && spec_all_digits(ds) && v == spec_digits_value(ds) && 0
                    <= v <= 0x8000_0000,
                None => ds.len() == 0 || !spec_all_digits(ds) || spec_digits_value(ds)
                    > 0x8000_0000,
            }
        }),
{
    let ghost ds = bs@.skip(start as int);
    let n = bs.len();
    if start == n {
        return None;
    }
    let mut acc: i64 = 0;
    let mut i: usize = start;
    proof {
        assert(ds.take(0) =~= Seq::<u8>::empty());
    }
    while i < n
        invariant
            start <= i <= n == bs@.len(),
            ds == bs@.skip(start as int),
            spec_all_digits(ds.take(i - start)),
            acc == spec_digits_value(ds.take(i - start)),
            0 <= acc <= 0x8000_0000,
        decreases n - i,
    {
        let b = bs[i];
        proof {
            assert(ds[i - start] == bs@[i as int]);
        }
        if b < 0x30 || b > 0x39 {
            proof {
                assert(!spec_all_digits(ds));
            }
            return None;
        }
        proof {
            assert(ds.take(i + 1 - start).drop_last() =~= ds.take(i - start));
            assert(ds.take(i + 1 - start).last() == ds[i - start]);
            assert(forall|k: int|
                0 <= k < i + 1 - start ==> 0x30 <= #[trigger] ds.take(i + 1 - start)[k] <= 0x39);
        }
        acc = acc * 10 + ((b - 0x30) as i64);
        i = i + 1;
        if acc > 0x8000_0000 {
            // Later digits only grow the value, so the whole string is out
            // of range (or holds a non-digit, which also rejects it).
            proof {
                if i < n {
                    if spec_all_digits(ds) {
                        lemma_digits_value_mono(ds, i - start);
                    }
                } else {
                    assert(ds.take(i - start) =~= ds);
                }
            }
            return None;
        }
    }
    proof {
        assert(ds.take(i - start) =~= ds);
    }
    Some(acc)
}

/// Exec form of [`spec_parse_place`], over the UTF-8 bytes of the command.
pub fn parse_place_command(command: &String) -> (r: Option<i32>)
    ensures
        r == spec_parse_place(encode_utf8(command@)),
{
    let bs = command.as_str().as_bytes();
    let ghost bv = encode_utf8(command@);
    if bs.len() <= 6 {
        return None;
    }
    if !(bs[0] == 0x70 && bs[1] == 0x6c && bs[2] == 0x61 && bs[3] == 0x63 && bs[4] == 0x65
        && bs[5] == 0x20) {
        proof {
            assert(bv.take(6) != spec_place_prefix());
        }
        return None;
    }
    proof {
        assert(bv.take(6) =~= spec_place_prefix());
    }
    let ghost tail = bv.skip(6);
    let first = bs[6];
    let negative = first == 0x2d;
    let signed = first == 0x2d || first == 0x2b;
    let start: usize = if signed {
        7
    } else {
        6
    };
    proof {
        assert(tail[0] == bv[6]);
        assert(bv.skip(start as int) =~= if signed {
            tail.drop_first()
        } else {
            tail
        });
    }
    let v = match parse_digits(bs, start) {
        Some(v) => v,
        None => { return None; },
    };
    if negative {
        proof {
            assert(-v >= i32::MIN as i64);
        }
        Some((-v) as i32)
    } else {
        if v > 0x7fff_ffff {
            return None;
        }
        Some(v as i32)
    }
}

/// The view distance a client asked for, clamped to the served range.
pub open spec fn spec_clamp_view_distance(vd: i8) -> i32 {
    if vd < 2 {
        2
    } else if vd > 12 {
        12
    } else {
        vd as i32
    }
}

/// Exec form of [`spec_clamp_view_distance`].
pub fn clamp_view_distance(vd: i8) -> (r: i32)
    ensures
        r == spec_clamp_view_distance(vd),
        2 <= r <= 12,
{
    if vd < 2 {
        2
    } else if vd > 12 {
        12
    } else {
        vd as i32
    }
}

/// The payloads sent on entering play stay within the frame-length cap,
/// and the built-in command graph is well formed for encoding.
proof fn lemma_play_init_bounds(eid: i32, vd: i32)
    ensures
        spec_login_payload(eid, false, spec_default_dimensions(), 20, vd).len() + 5 <= i32::MAX,
        spec_commands_payload(spec_builtin_graph()).len() + 5 <= i32::MAX,
        spec_nodes_wf(spec_builtin_graph()),
        forall|i: int|
            0 <= i < spec_default_dimensions().len() ==> (#[trigger] spec_default_dimensions()[
            i]).len() <= 32767,
{
    reveal_strlit("minecraft:overworld");
    reveal_strlit("minecraft:the_end");
    reveal_strlit("minecraft:the_nether");
    reveal_strlit("place");
    reveal_strlit("id");
    let dims = spec_default_dimensions();
    let d2 = seq!["minecraft:overworld"@, "minecraft:the_end"@];
    let d1 = seq!["minecraft:overworld"@];
    assert(dims.drop_last() =~= d2);
    assert(d2.drop_last() =~= d1);
    assert(d1.drop_last() =~= Seq::<Seq<char>>::empty());
    lemma_mcstring_bytes_len("minecraft:overworld"@);
    lemma_mcstring_bytes_len("minecraft:the_end"@);
    lemma_mcstring_bytes_len("minecraft:the_nether"@);
    assert(spec_strings_bytes(d1) == spec_strings_bytes(Seq::<Seq<char>>::empty())
        + spec_mcstring_bytes("minecraft:overworld"@));
    assert(spec_strings_bytes(d2) == spec_strings_bytes(d1) + spec_mcstring_bytes(
        "minecraft:the_end"@,
    ));
    assert(spec_strings_bytes(dims) == spec_strings_bytes(d2) + spec_mcstring_bytes(
        "minecraft:the_nether"@,
    ));
    assert(spec_strings_bytes(dims).len() <= 300);
    lemma_varint_bytes_len(3);
    lemma_varint_bytes_len(20);
    lemma_varint_bytes_len(vd);
    lemma_varint_bytes_len(0);
    lemma_be_bytes_len(i32_to_u32(eid) as nat, 4);
    lemma_be_bytes_len(i64_to_u64(-6574177734957711742i64) as nat, 8);
    assert(spec_login_payload(eid, false, dims, 20, vd).len() <= 500);
    // The built-in graph.
    let ns = spec_builtin_graph();
    let n0 = ns[0];
    let n1 = ns[1];
    let n2 = ns[2];
    assert(spec_nodes_wf(ns)) by {
        assert forall|i: int| 0 <= i < ns.len() implies {
            let n = #[trigger] ns[i];
            &&& (n.name matches Some(s) ==> s.len() <= 32767)
            &&& (n.suggestions_type matches Some(s) ==> s.len() <= 32767)
            &&& n.children.len() <= 0x7fff_ffff
        } by {
            assert(i == 0 || i == 1 || i == 2);
        };
    };
    lemma_varint_bytes_len(1);
    lemma_varint_bytes_len(2);
    assert(seq![1i32].drop_last() =~= Seq::<i32>::empty());
    assert(seq![2i32].drop_last() =~= Seq::<i32>::empty());
    assert(spec_children_bytes(seq![1i32]) == spec_children_bytes(Seq::<i32>::empty())
        + spec_varint_bytes(1));
    assert(spec_children_bytes(seq![2i32]) == spec_children_bytes(Seq::<i32>::empty())
        + spec_varint_bytes(2));
    lemma_mcstring_bytes_len("place"@);
    lemma_mcstring_bytes_len("id"@);
    lemma_be_bytes_len(i32_to_u32(0) as nat, 4);
    assert(spec_node_bytes(n0).len() <= 20);
    assert(spec_node_bytes(n1).len() <= 50);
    assert(spec_node_bytes(n2).len() <= 50);
    assert(ns.drop_last() =~= seq![n0, n1]);
    assert(seq![n0, n1].drop_last() =~= seq![n0]);
    assert(seq![n0].drop_last() =~= Seq::<crate::command::CommandNodeView>::empty());
    assert(spec_nodes_bytes(seq![n0]) == spec_nodes_bytes(
        Seq::<crate::command::CommandNodeView>::empty(),
    ) + spec_node_bytes(n0));
    assert(spec_nodes_bytes(seq![n0, n1]) == spec_nodes_bytes(seq![n0]) + spec_node_bytes(n1));
    assert(spec_nodes_bytes(ns) == spec_nodes_bytes(seq![n0, n1]) + spec_node_bytes(n2));
    assert(spec_commands_payload(ns).len() <= 200);
}

} // verus!
