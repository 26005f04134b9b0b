//! The play phase: the serverbound packets the worker dispatches on, and
//! the clientbound packets it builds. Floating-point fields travel as their
//! IEEE 754 bit patterns, which is exactly their wire form.

use vstd::prelude::*;
use vstd::utf8::encode_utf8;
use crate::blockpos::{spec_blockpos_packed, BlockPos};
use crate::codec::{
    i16_to_u16, i32_to_u32, i64_to_u64, lemma_be_bytes_len,
    lemma_mcstring_bytes_len, lemma_varint_bytes_len, next_bool, next_string, next_u16,
    next_u32, next_u64, next_u8, next_varint, spec_be_bytes, spec_mcstring_bytes, spec_take_bool,
    spec_take_bytes, spec_take_string, spec_take_u16, spec_take_u32, spec_take_u64, spec_take_u8,
    spec_take_varint, spec_varint_bytes, str_bytes_vec, u64_to_i64, u64_as_i64, Reader,
};
use crate::command::{
    spec_node_type_bits, spec_parser_id, spec_parser_properties, CommandNode, CommandNodeView,
};
use crate::error::ServerError;
use crate::packet::{parse_frame_header, spec_frame_header, MCPacketType};
use crate::packet_builder::{spec_bool_byte, spec_frame, PacketBuilder};

verus! {

/// An inventory slot as the creative-mode packet carries it.
#[derive(Debug)]
pub struct Slot {
    pub count: i32,
    pub item_id: Option<i32>,
    pub components_to_add: Option<Vec<(i32, Vec<u8>)>>,
    pub number_to_remove: Option<Vec<i32>>,
}

/// Spec-level mirror of [`Slot`].
#[verifier::ext_equal]
pub struct SlotView {
    pub count: i32,
    pub item_id: Option<i32>,
    pub components_to_add: Option<Seq<(i32, Seq<u8>)>>,
    pub number_to_remove: Option<Seq<i32>>,
}

impl View for Slot {
    type V = SlotView;

    open spec fn view(&self) -> SlotView {
        SlotView {
            count: self.count,
            item_id: self.item_id,
            components_to_add: match &self.components_to_add {
                Some(c) => Some(c@.map_values(|p: (i32, Vec<u8>)| (p.0, p.1@))),
                None => None,
            },
            number_to_remove: match &self.number_to_remove {
                Some(n) => Some(n@),
                None => None,
            },
        }
    }
}

/// Serverbound play packets.
#[derive(Debug)]
pub enum PlayPacketServerBound {
    ConfirmTeleportation { id: i32 },
    ChatCommand { command: String },
    ChatMessage {
        message: String,
        timestamp: i64,
        salt: i64,
        signature: Option<Vec<u8>>,
        message_count: i32,
        acknowledged: Vec<u8>,
    },
    CloseContainer(u8),
    ClientInformation {
        locale: String,
        view_distance: i8,
        chat_mode: i32,
        chat_has_colors: bool,
        displayed_skin_parts: u8,
        main_hand: i32,
        enable_text_filtering: bool,
        allow_server_listings: bool,
    },
    DebugSampleSubscription { sample_type: i32 },
    SetPlayerPosition { x_bits: u64, y_bits: u64, z_bits: u64, on_ground: bool },
    SetPlayerPositionAndRotation {
        x_bits: u64,
        y_bits: u64,
        z_bits: u64,
        yaw_bits: u32,
        pitch_bits: u32,
        on_ground: bool,
    },
    SetPlayerRotation { yaw_bits: u32, pitch_bits: u32, on_ground: bool },
    SetPlayerOnGround(bool),
    PingRequest(u64),
    PlayerAbilities(u8),
    PlayerAction { status: i32, packed_location: u64, face: u8, sequence: i32 },
    PlayerCommand { eid: i32, id: i32, jump_boost: i32 },
    SetHeldItem(u16),
    SetCreativeModeSlot { slot: u16, clicked_item: Slot },
    SwingArm { off_hand: bool },
    UseItemOn {
        off_hand: bool,
        packed_location: u64,
        face: i32,
        cursor_x_bits: u32,
        cursor_y_bits: u32,
        cursor_z_bits: u32,
        inside_block: bool,
        sequence: i32,
    },
    UseItem { off_hand: bool, sequence: i32, yaw_bits: u32, pitch_bits: u32 },
}

/// Spec-level mirror of [`PlayPacketServerBound`].
#[verifier::ext_equal]
pub enum PlayPacketServerBoundView {
    ConfirmTeleportation { id: i32 },
    ChatCommand { command: Seq<char> },
    ChatMessage {
        message: Seq<char>,
        timestamp: i64,
        salt: i64,
        signature: Option<Seq<u8>>,
        message_count: i32,
        acknowledged: Seq<u8>,
    },
    CloseContainer(u8),
    ClientInformation {
        locale: Seq<char>,
        view_distance: i8,
        chat_mode: i32,
        chat_has_colors: bool,
        displayed_skin_parts: u8,
        main_hand: i32,
        enable_text_filtering: bool,
        allow_server_listings: bool,
    },
    DebugSampleSubscription { sample_type: i32 },
    SetPlayerPosition { x_bits: u64, y_bits: u64, z_bits: u64, on_ground: bool },
    SetPlayerPositionAndRotation {
        x_bits: u64,
        y_bits: u64,
        z_bits: u64,
        yaw_bits: u32,
        pitch_bits: u32,
        on_ground: bool,
    },
    SetPlayerRotation { yaw_bits: u32, pitch_bits: u32, on_ground: bool },
    SetPlayerOnGround(bool),
    PingRequest(u64),
    PlayerAbilities(u8),
    PlayerAction { status: i32, packed_location: u64, face: u8, sequence: i32 },
    PlayerCommand { eid: i32, id: i32, jump_boost: i32 },
    SetHeldItem(u16),
    SetCreativeModeSlot { slot: u16, clicked_item: SlotView },
    SwingArm { off_hand: bool },
    UseItemOn {
        off_hand: bool,
        packed_location: u64,
        face: i32,
        cursor_x_bits: u32,
        cursor_y_bits: u32,
        cursor_z_bits: u32,
        inside_block: bool,
        sequence: i32,
    },
    UseItem { off_hand: bool, sequence: i32, yaw_bits: u32, pitch_bits: u32 },
}

impl View for PlayPacketServerBound {
    type V = PlayPacketServerBoundView;

    open spec fn view(&self) -> PlayPacketServerBoundView {
        match self {
            PlayPacketServerBound::ConfirmTeleportation { id } => {
                PlayPacketServerBoundView::ConfirmTeleportation { id: *id }
            },
            PlayPacketServerBound::ChatCommand { command } => {
                PlayPacketServerBoundView::ChatCommand { command: command@ }
            },
            PlayPacketServerBound::ChatMessage {
                message,
                timestamp,
                salt,
                signature,
                message_count,
                acknowledged,
            } => PlayPacketServerBoundView::ChatMessage {
                message: message@,
                timestamp: *timestamp,
                salt: *salt,
                signature: match signature {
                    Some(s) => Some(s@),
                    None => None,
                },
                message_count: *message_count,
                acknowledged: acknowledged@,
            },
            PlayPacketServerBound::CloseContainer(b) => {
                PlayPacketServerBoundView::CloseContainer(*b)
            },
            PlayPacketServerBound::ClientInformation {
                locale,
                view_distance,
                chat_mode,
                chat_has_colors,
                displayed_skin_parts,
                main_hand,
                enable_text_filtering,
                allow_server_listings,
            } => PlayPacketServerBoundView::ClientInformation {
                locale: locale@,
                view_distance: *view_distance,
                chat_mode: *chat_mode,
                chat_has_colors: *chat_has_colors,
                displayed_skin_parts: *displayed_skin_parts,
                main_hand: *main_hand,
                enable_text_filtering: *enable_text_filtering,
                allow_server_listings: *allow_server_listings,
            },
            PlayPacketServerBound::DebugSampleSubscription { sample_type } => {
                PlayPacketServerBoundView::DebugSampleSubscription { sample_type: *sample_type }
            },
            PlayPacketServerBound::SetPlayerPosition { x_bits, y_bits, z_bits, on_ground } => {
                PlayPacketServerBoundView::SetPlayerPosition {
                    x_bits: *x_bits,
                    y_bits: *y_bits,
                    z_bits: *z_bits,
                    on_ground: *on_ground,
                }
            },
            PlayPacketServerBound::SetPlayerPositionAndRotation {
                x_bits,
                y_bits,
                z_bits,
                yaw_bits,
                pitch_bits,
                on_ground,
            } => PlayPacketServerBoundView::SetPlayerPositionAndRotation {
                x_bits: *x_bits,
                y_bits: *y_bits,
                z_bits: *z_bits,
                yaw_bits: *yaw_bits,
                pitch_bits: *pitch_bits,
                on_ground: *on_ground,
            },
            PlayPacketServerBound::SetPlayerRotation { yaw_bits, pitch_bits, on_ground } => {
                PlayPacketServerBoundView::SetPlayerRotation {
                    yaw_bits: *yaw_bits,
                    pitch_bits: *pitch_bits,
                    on_ground: *on_ground,
                }
            },
            PlayPacketServerBound::SetPlayerOnGround(b) => {
                PlayPacketServerBoundView::SetPlayerOnGround(*b)
            },
            PlayPacketServerBound::PingRequest(v) => PlayPacketServerBoundView::PingRequest(*v),
            PlayPacketServerBound::PlayerAbilities(b) => {
                PlayPacketServerBoundView::PlayerAbilities(*b)
            },
            PlayPacketServerBound::PlayerAction { status, packed_location, face, sequence } => {
                PlayPacketServerBoundView::PlayerAction {
                    status: *status,
                    packed_location: *packed_location,
                    face: *face,
                    sequence: *sequence,
                }
            },
            PlayPacketServerBound::PlayerCommand { eid, id, jump_boost } => {
                PlayPacketServerBoundView::PlayerCommand {
                    eid: *eid,
                    id: *id,
                    jump_boost: *jump_boost,
                }
            },
            PlayPacketServerBound::SetHeldItem(s) => PlayPacketServerBoundView::SetHeldItem(*s),
            PlayPacketServerBound::SetCreativeModeSlot { slot, clicked_item } => {
                PlayPacketServerBoundView::SetCreativeModeSlot {
                    slot: *slot,
                    clicked_item: clicked_item@,
                }
            },
            PlayPacketServerBound::SwingArm { off_hand } => {
                PlayPacketServerBoundView::SwingArm { off_hand: *off_hand }
            },
            PlayPacketServerBound::UseItemOn {
                off_hand,
                packed_location,
                face,
                cursor_x_bits,
                cursor_y_bits,
                cursor_z_bits,
                inside_block,
                sequence,
            } => PlayPacketServerBoundView::UseItemOn {
                off_hand: *off_hand,
                packed_location: *packed_location,
                face: *face,
                cursor_x_bits: *cursor_x_bits,
                cursor_y_bits: *cursor_y_bits,
                cursor_z_bits: *cursor_z_bits,
                inside_block: *inside_block,
                sequence: *sequence,
            },
            PlayPacketServerBound::UseItem { off_hand, sequence, yaw_bits, pitch_bits } => {
                PlayPacketServerBoundView::UseItem {
                    off_hand: *off_hand,
                    sequence: *sequence,
                    yaw_bits: *yaw_bits,
                    pitch_bits: *pitch_bits,
                }
            },
        }
    }
}

/// Parse the typed payload of one serverbound play packet, by id.
pub open spec fn spec_parse_play_body(id: i32, body: Seq<u8>) -> Result<
    PlayPacketServerBoundView,
    ServerError,
> {
    if id == 0x00 {
        match spec_take_varint(body) {
            Ok(p) => Ok(PlayPacketServerBoundView::ConfirmTeleportation { id: p.0 }),
            Err(e) => Err(e),
        }
    } else if id == 0x04 {
        match spec_take_string(body) {
            Ok(p) => Ok(PlayPacketServerBoundView::ChatCommand { command: p.0 }),
            Err(e) => Err(e),
        }
    } else if id == 0x06 {
        match spec_take_string(body) {
            Ok(p1) => match spec_take_u64(p1.1) {
                Ok(p2) => match spec_take_u64(p2.1) {
                    Ok(p3) => match spec_take_bool(p3.1) {
                        Ok(p4) => {
                            let sig = if p4.0 {
                                spec_take_bytes(p4.1, 256)
                            } else {
                                Ok((Seq::<u8>::empty(), p4.1))
                            };
                            match sig {
                                Ok(p5) => match spec_take_varint(p5.1) {
                                    Ok(p6) => match spec_take_bytes(p6.1, 3) {
                                        Ok(p7) => Ok(
                                            PlayPacketServerBoundView::ChatMessage {
                                                message: p1.0,
                                                timestamp: u64_to_i64(p2.0),
                                                salt: u64_to_i64(p3.0),
                                                signature: if p4.0 {
                                                    Some(p5.0)
                                                } else {
                                                    None
                                                },
                                                message_count: p6.0,
                                                acknowledged: p7.0,
                                            },
                                        ),
                                        Err(e) => Err(e),
                                    },
                                    Err(e) => Err(e),
                                },
                                Err(e) => Err(e),
                            }
                        },
                        Err(e) => Err(e),
                    },
                    Err(e) => Err(e),
                },
                Err(e) => Err(e),
            },
            Err(e) => Err(e),
        }
    } else if id == 0x0A {
        match spec_take_string(body) {
            Ok(p1) => match spec_take_u8(p1.1) {
                Ok(p2) => match spec_take_varint(p2.1) {
                    Ok(p3) => match spec_take_bool(p3.1) {
                        Ok(p4) => match spec_take_u8(p4.1) {
                            Ok(p5) => match spec_take_varint(p5.1) {
                                Ok(p6) => match spec_take_bool(p6.1) {
                                    Ok(p7) => match spec_take_bool(p7.1) {
                                        Ok(p8) => Ok(
                                            PlayPacketServerBoundView::ClientInformation {
                                                locale: p1.0,
                                                view_distance: crate::codec::u8_to_i8(p2.0),
                                                chat_mode: p3.0,
                                                chat_has_colors: p4.0,
                                                displayed_skin_parts: p5.0,
                                                main_hand: p6.0,
                                                enable_text_filtering: p7.0,
                                                allow_server_listings: p8.0,
                                            },
                                        ),
                                        Err(e) => Err(e),
                                    },
                                    Err(e) => Err(e),
                                },
                                Err(e) => Err(e),
                            },
                            Err(e) => Err(e),
                        },
                        Err(e) => Err(e),
                    },
                    Err(e) => Err(e),
                },
                Err(e) => Err(e),
            },
            Err(e) => Err(e),
        }
    } else if id == 0x0F {
        match spec_take_u8(body) {
            Ok(p) => Ok(PlayPacketServerBoundView::CloseContainer(p.0)),
            Err(e) => Err(e),
        }
    } else if id == 0x13 {
        match spec_take_varint(body) {
            Ok(p) => Ok(PlayPacketServerBoundView::DebugSampleSubscription { sample_type: p.0 }),
            Err(e) => Err(e),
        }
    } else if id == 0x1A {
        match spec_take_u64(body) {
            Ok(p1) => match spec_take_u64(p1.1) {
                Ok(p2) => match spec_take_u64(p2.1) {
                    Ok(p3) => match spec_take_bool(p3.1) {
                        Ok(p4) => Ok(
                            PlayPacketServerBoundView::SetPlayerPosition {
                                x_bits: p1.0,
                                y_bits: p2.0,
                                z_bits: p3.0,
                                on_ground: p4.0,
                            },
                        ),
                        Err(e) => Err(e),
                    },
                    Err(e) => Err(e),
                },
                Err(e) => Err(e),
            },
            Err(e) => Err(e),
        }
    } else if id == 0x1B {
        match spec_take_u64(body) {
            Ok(p1) => match spec_take_u64(p1.1) {
                Ok(p2) => match spec_take_u64(p2.1) {
                    Ok(p3) => match spec_take_u32(p3.1) {
                        Ok(p4) => match spec_take_u32(p4.1) {
                            Ok(p5) => match spec_take_bool(p5.1) {
                                Ok(p6) => Ok(
                                    PlayPacketServerBoundView::SetPlayerPositionAndRotation {
                                        x_bits: p1.0,
                                        y_bits: p2.0,
                                        z_bits: p3.0,
                                        yaw_bits: p4.0,
                                        pitch_bits: p5.0,
                                        on_ground: p6.0,
                                    },
                                ),
                                Err(e) => Err(e),
                            },
                            Err(e) => Err(e),
                        },
                        Err(e) => Err(e),
                    },
                    Err(e) => Err(e),
                },
                Err(e) => Err(e),
            },
            Err(e) => Err(e),
        }
    } else if id == 0x1C {
        match spec_take_u32(body) {
            Ok(p1) => match spec_take_u32(p1.1) {
                Ok(p2) => match spec_take_bool(p2.1) {
                    Ok(p3) => Ok(
                        PlayPacketServerBoundView::SetPlayerRotation {
                            yaw_bits: p1.0,
                            pitch_bits: p2.0,
                            on_ground: p3.0,
                        },
                    ),
                    Err(e) => Err(e),
                },
                Err(e) => Err(e),
            },
            Err(e) => Err(e),
        }
    } else if id == 0x1D {
        match spec_take_bool(body) {
            Ok(p) => Ok(PlayPacketServerBoundView::SetPlayerOnGround(p.0)),
            Err(e) => Err(e),
        }
    } else if id == 0x21 {
        match spec_take_u64(body) {
            Ok(p) => Ok(PlayPacketServerBoundView::PingRequest(p.0)),
            Err(e) => Err(e),
        }
    } else if id == 0x23 {
        match spec_take_u8(body) {
            Ok(p) => Ok(PlayPacketServerBoundView::PlayerAbilities(p.0)),
            Err(e) => Err(e),
        }
    } else if id == 0x24 {
        match spec_take_varint(body) {
            Ok(p1) => match spec_take_u64(p1.1) {
                Ok(p2) => match spec_take_u8(p2.1) {
                    Ok(p3) => match spec_take_varint(p3.1) {
                        Ok(p4) => Ok(
                            PlayPacketServerBoundView::PlayerAction {
                                status: p1.0,
                                packed_location: p2.0,
                                face: p3.0,
                                sequence: p4.0,
                            },
                        ),
                        Err(e) => Err(e),
                    },
                    Err(e) => Err(e),
                },
                Err(e) => Err(e),
            },
            Err(e) => Err(e),
        }
    } else if id == 0x25 {
        match spec_take_varint(body) {
            Ok(p1) => match spec_take_varint(p1.1) {
                Ok(p2) => match spec_take_varint(p2.1) {
                    Ok(p3) => Ok(
                        PlayPacketServerBoundView::PlayerCommand {
                            eid: p1.0,
                            id: p2.0,
                            jump_boost: p3.0,
                        },
                    ),
                    Err(e) => Err(e),
                },
                Err(e) => Err(e),
            },
            Err(e) => Err(e),
        }
    } else if id == 0x2F {
        match spec_take_u16(body) {
            Ok(p) => Ok(PlayPacketServerBoundView::SetHeldItem(p.0)),
            Err(e) => Err(e),
        }
    } else if id == 0x32 {
        match spec_take_u16(body) {
            Ok(p1) => match spec_take_varint(p1.1) {
                Ok(p2) => {
                    if p2.0 > 0 {
                        match spec_take_varint(p2.1) {
                            Ok(p3) => Ok(
                                PlayPacketServerBoundView::SetCreativeModeSlot {
                                    slot: p1.0,
                                    clicked_item: SlotView {
                                        count: p2.0,
                                        item_id: Some(p3.0),
                                        components_to_add: None,
                                        number_to_remove: None,
                                    },
                                },
                            ),
                            Err(e) => Err(e),
                        }
                    } else {
                        Ok(
                            PlayPacketServerBoundView::SetCreativeModeSlot {
                                slot: p1.0,
                                clicked_item: SlotView {
                                    count: p2.0,
                                    item_id: None,
                                    components_to_add: None,
                                    number_to_remove: None,
                                },
                            },
                        )
                    }
                },
                Err(e) => Err(e),
            },
            Err(e) => Err(e),
        }
    } else if id == 0x36 {
        match spec_take_bool(body) {
            Ok(p) => Ok(PlayPacketServerBoundView::SwingArm { off_hand: p.0 }),
            Err(e) => Err(e),
        }
    } else if id == 0x38 {
        match spec_take_bool(body) {
            Ok(p1) => match spec_take_u64(p1.1) {
                Ok(p2) => match spec_take_varint(p2.1) {
                    Ok(p3) => match spec_take_u32(p3.1) {
                        Ok(p4) => match spec_take_u32(p4.1) {
                            Ok(p5) => match spec_take_u32(p5.1) {
                                Ok(p6) => match spec_take_bool(p6.1) {
                                    Ok(p7) => match spec_take_varint(p7.1) {
                                        Ok(p8) => Ok(
                                            PlayPacketServerBoundView::UseItemOn {
                                                off_hand: p1.0,
                                                packed_location: p2.0,
                                                face: p3.0,
                                                cursor_x_bits: p4.0,
                                                cursor_y_bits: p5.0,
                                                cursor_z_bits: p6.0,
                                                inside_block: p7.0,
                                                sequence: p8.0,
                                            },
                                        ),
                                        Err(e) => Err(e),
                                    },
                                    Err(e) => Err(e),
                                },
                                Err(e) => Err(e),
                            },
                            Err(e) => Err(e),
                        },
                        Err(e) => Err(e),
                    },
                    Err(e) => Err(e),
                },
                Err(e) => Err(e),
            },
            Err(e) => Err(e),
        }
    } else if id == 0x39 {
        match spec_take_bool(body) {
            Ok(p1) => match spec_take_varint(p1.1) {
                Ok(p2) => match spec_take_u32(p2.1) {
                    Ok(p3) => match spec_take_u32(p3.1) {
                        Ok(p4) => Ok(
                            PlayPacketServerBoundView::UseItem {
                                off_hand: p1.0,
                                sequence: p2.0,
                                yaw_bits: p3.0,
                                pitch_bits: p4.0,
                            },
                        ),
                        Err(e) => Err(e),
                    },
                    Err(e) => Err(e),
                },
                Err(e) => Err(e),
            },
            Err(e) => Err(e),
        }
    } else {
        Err(ServerError::UnknownPacketId(id))
    }
}

/// Parse one serverbound play frame.
pub open spec fn spec_parse_play(s: Seq<u8>) -> Result<PlayPacketServerBoundView, ServerError> {
    match spec_frame_header(s) {
        Ok(h) => spec_parse_play_body(h.0, h.1),
        Err(e) => Err(e),
    }
}

impl PlayPacketServerBound {
    /// Parse a play frame, exactly as [`spec_parse_play`] says.
    #[verifier::rlimit(100)]
    pub fn parse(bytes: Vec<u8>) -> (r: Result<Self, ServerError>)
        ensures
            match spec_parse_play(bytes@) {
                Ok(v) => r matches Ok(p) && p@ == v,
                Err(e) => r == Err::<Self, ServerError>(e),
            },
    {
        let mut it = Reader::new(bytes.as_slice());
        let id = match parse_frame_header(&mut it) {
            Ok(v) => v,
            Err(e) => { return Err(e); },
        };
        match id {
            0x00 => {
                let tid = match next_varint(&mut it) {
                    Ok(v) => v,
                    Err(e) => { return Err(e); },
                };
                Ok(PlayPacketServerBound::ConfirmTeleportation { id: tid })
            },
            0x04 => {
                let command = match next_string(&mut it) {
                    Ok(v) => v,
                    Err(e) => { return Err(e); },
                };
                Ok(PlayPacketServerBound::ChatCommand { command })
            },
            0x06 => {
                let message = match next_string(&mut it) {
                    Ok(v) => v,
                    Err(e) => { return Err(e); },
                };
                let ts = match next_u64(&mut it) {
                    Ok(v) => v,
                    Err(e) => { return Err(e); },
                };
                let salt = match next_u64(&mut it) {
                    Ok(v) => v,
                    Err(e) => { return Err(e); },
                };
                let has_sig = match next_bool(&mut it) {
                    Ok(v) => v,
                    Err(e) => { return Err(e); },
                };
                let signature = if has_sig {
                    if it.len() < 256 {
                        return Err(ServerError::EndOfPacket);
                    }
                    Some(it.read_bytes(256))
                } else {
                    None
                };
                let message_count = match next_varint(&mut it) {
                    Ok(v) => v,
                    Err(e) => { return Err(e); },
                };
                if it.len() < 3 {
                    return Err(ServerError::EndOfPacket);
                }
                let acknowledged = it.read_bytes(3);
                Ok(
                    PlayPacketServerBound::ChatMessage {
                        message,
                        timestamp: u64_as_i64(ts),
                        salt: u64_as_i64(salt),
                        signature,
                        message_count,
                        acknowledged,
                    },
                )
            },
            0x0A => {
                let locale = match next_string(&mut it) {
                    Ok(v) => v,
                    Err(e) => { return Err(e); },
                };
                let vd = match next_u8(&mut it) {
                    Ok(v) => v,
                    Err(e) => { return Err(e); },
                };
                let chat_mode = match next_varint(&mut it) {
                    Ok(v) => v,
                    Err(e) => { return Err(e); },
                };
                let chat_has_colors = match next_bool(&mut it) {
                    Ok(v) => v,
                    Err(e) => { return Err(e); },
                };
                let displayed_skin_parts = match next_u8(&mut it) {
                    Ok(v) => v,
                    Err(e) => { return Err(e); },
                };
                let main_hand = match next_varint(&mut it) {
                    Ok(v) => v,
                    Err(e) => { return Err(e); },
                };
                let enable_text_filtering = match next_bool(&mut it) {
                    Ok(v) => v,
                    Err(e) => { return Err(e); },
                };
                let allow_server_listings = match next_bool(&mut it) {
                    Ok(v) => v,
                    Err(e) => { return Err(e); },
                };
                Ok(
                    PlayPacketServerBound::ClientInformation {
                        locale,
                        view_distance: crate::codec::u8_as_i8(vd),
                        chat_mode,
                        chat_has_colors,
                        displayed_skin_parts,
                        main_hand,
                        enable_text_filtering,
                        allow_server_listings,
                    },
                )
            },
            0x0F => {
                let b = match next_u8(&mut it) {
                    Ok(v) => v,
                    Err(e) => { return Err(e); },
                };
                Ok(PlayPacketServerBound::CloseContainer(b))
            },
            0x13 => {
                let sample_type = match next_varint(&mut it) {
                    Ok(v) => v,
                    Err(e) => { return Err(e); },
                };
                Ok(PlayPacketServerBound::DebugSampleSubscription { sample_type })
            },
            0x1A => {
                let x_bits = match next_u64(&mut it) {
                    Ok(v) => v,
                    Err(e) => { return Err(e); },
                };
                let y_bits = match next_u64(&mut it) {
                    Ok(v) => v,
                    Err(e) => { return Err(e); },
                };
                let z_bits = match next_u64(&mut it) {
                    Ok(v) => v,
                    Err(e) => { return Err(e); },
                };
                let on_ground = match next_bool(&mut it) {
                    Ok(v) => v,
                    Err(e) => { return Err(e); },
                };
                Ok(PlayPacketServerBound::SetPlayerPosition { x_bits, y_bits, z_bits, on_ground })
            },
            0x1B => {
                let x_bits = match next_u64(&mut it) {
                    Ok(v) => v,
                    Err(e) => { return Err(e); },
                };
                let y_bits = match next_u64(&mut it) {
                    Ok(v) => v,
                    Err(e) => { return Err(e); },
                };
                let z_bits = match next_u64(&mut it) {
                    Ok(v) => v,
                    Err(e) => { return Err(e); },
                };
                let yaw_bits = match next_u32(&mut it) {
                    Ok(v) => v,
                    Err(e) => { return Err(e); },
                };
                let pitch_bits = match next_u32(&mut it) {
                    Ok(v) => v,
                    Err(e) => { return Err(e); },
                };
                let on_ground = match next_bool(&mut it) {
                    Ok(v) => v,
                    Err(e) => { return Err(e); },
                };
                Ok(
                    PlayPacketServerBound::SetPlayerPositionAndRotation {
                        x_bits,
                        y_bits,
                        z_bits,
                        yaw_bits,
                        pitch_bits,
                        on_ground,
                    },
                )
            },
            0x1C => {
                let yaw_bits = match next_u32(&mut it) {
                    Ok(v) => v,
                    Err(e) => { return Err(e); },
                };
                let pitch_bits = match next_u32(&mut it) {
                    Ok(v) => v,
                    Err(e) => { return Err(e); },
                };
                let on_ground = match next_bool(&mut it) {
                    Ok(v) => v,
                    Err(e) => { return Err(e); },
                };
                Ok(PlayPacketServerBound::SetPlayerRotation { yaw_bits, pitch_bits, on_ground })
            },
            0x1D => {
                let on_ground = match next_bool(&mut it) {
                    Ok(v) => v,
                    Err(e) => { return Err(e); },
                };
                Ok(PlayPacketServerBound::SetPlayerOnGround(on_ground))
            },
            0x21 => {
                let v = match next_u64(&mut it) {
                    Ok(v) => v,
                    Err(e) => { return Err(e); },
                };
                Ok(PlayPacketServerBound::PingRequest(v))
            },
            0x23 => {
                let b = match next_u8(&mut it) {
                    Ok(v) => v,
                    Err(e) => { return Err(e); },
                };
                Ok(PlayPacketServerBound::PlayerAbilities(b))
            },
            0x24 => {
                let status = match next_varint(&mut it) {
                    Ok(v) => v,
                    Err(e) => { return Err(e); },
                };
                let packed_location = match next_u64(&mut it) {
                    Ok(v) => v,
                    Err(e) => { return Err(e); },
                };
                let face = match next_u8(&mut it) {
                    Ok(v) => v,
                    Err(e) => { return Err(e); },
                };
                let sequence = match next_varint(&mut it) {
                    Ok(v) => v,
                    Err(e) => { return Err(e); },
                };
                Ok(PlayPacketServerBound::PlayerAction { status, packed_location, face, sequence })
            },
            0x25 => {
                let eid = match next_varint(&mut it) {
                    Ok(v) => v,
                    Err(e) => { return Err(e); },
                };
                let cid = match next_varint(&mut it) {
                    Ok(v) => v,
                    Err(e) => { return Err(e); },
                };
                let jump_boost = match next_varint(&mut it) {
                    Ok(v) => v,
                    Err(e) => { return Err(e); },
                };
                Ok(PlayPacketServerBound::PlayerCommand { eid, id: cid, jump_boost })
            },
            0x2F => {
                let s = match next_u16(&mut it) {
                    Ok(v) => v,
                    Err(e) => { return Err(e); },
                };
                Ok(PlayPacketServerBound::SetHeldItem(s))
            },
            0x32 => {
                let slot = match next_u16(&mut it) {
                    Ok(v) => v,
                    Err(e) => { return Err(e); },
                };
                let count = match next_varint(&mut it) {
                    Ok(v) => v,
                    Err(e) => { return Err(e); },
                };
                if count > 0 {
                    let item = match next_varint(&mut it) {
                        Ok(v) => v,
                        Err(e) => { return Err(e); },
                    };
                    Ok(
                        PlayPacketServerBound::SetCreativeModeSlot {
                            slot,
                            clicked_item: Slot {
                                count,
                                item_id: Some(item),
                                components_to_add: None,
                                number_to_remove: None,
                            },
                        },
                    )
                } else {
                    Ok(
                        PlayPacketServerBound::SetCreativeModeSlot {
                            slot,
                            clicked_item: Slot {
                                count,
                                item_id: None,
                                components_to_add: None,
                                number_to_remove: None,
                            },
                        },
                    )
                }
            },
            0x36 => {
                let off_hand = match next_bool(&mut it) {
                    Ok(v) => v,
                    Err(e) => { return Err(e); },
                };
                Ok(PlayPacketServerBound::SwingArm { off_hand })
            },
            0x38 => {
                let off_hand = match next_bool(&mut it) {
                    Ok(v) => v,
                    Err(e) => { return Err(e); },
                };
                let packed_location = match next_u64(&mut it) {
                    Ok(v) => v,
                    Err(e) => { return Err(e); },
                };
                let face = match next_varint(&mut it) {
                    Ok(v) => v,
                    Err(e) => { return Err(e); },
                };
                let cursor_x_bits = match next_u32(&mut it) {
                    Ok(v) => v,
                    Err(e) => { return Err(e); },
                };
                let cursor_y_bits = match next_u32(&mut it) {
                    Ok(v) => v,
                    Err(e) => { return Err(e); },
                };
                let cursor_z_bits = match next_u32(&mut it) {
                    Ok(v) => v,
                    Err(e) => { return Err(e); },
                };
                let inside_block = match next_bool(&mut it) {
                    Ok(v) => v,
                    Err(e) => { return Err(e); },
                };
                let sequence = match next_varint(&mut it) {
                    Ok(v) => v,
                    Err(e) => { return Err(e); },
                };
                Ok(
                    PlayPacketServerBound::UseItemOn {
                        off_hand,
                        packed_location,
                        face,
                        cursor_x_bits,
                        cursor_y_bits,
                        cursor_z_bits,
                        inside_block,
                        sequence,
                    },
                )
            },
            0x39 => {
                let off_hand = match next_bool(&mut it) {
                    Ok(v) => v,
                    Err(e) => { return Err(e); },
                };
                let sequence = match next_varint(&mut it) {
                    Ok(v) => v,
                    Err(e) => { return Err(e); },
                };
                let yaw_bits = match next_u32(&mut it) {
                    Ok(v) => v,
                    Err(e) => { return Err(e); },
                };
                let pitch_bits = match next_u32(&mut it) {
                    Ok(v) => v,
                    Err(e) => { return Err(e); },
                };
                Ok(PlayPacketServerBound::UseItem { off_hand, sequence, yaw_bits, pitch_bits })
            },
            _ => Err(ServerError::UnknownPacketId(id)),
        }
    }
}

/// Clientbound play packets.
pub enum PlayPacketClientBound {
    AcknowledgeBlockChange,
    BlockUpdate,
    ChangeDifficulty,
    Commands,
    DisguisedChatMessage,
    EntityEvent,
    ChunkDataAndUpdateLight,
    PingResponse,
    PlayerAbilities,
    PlayerChatMessage,
    Login,
    SyncPlayerPosition,
    SetHeldItem,
    SetTickingState,
    StepTick,
    EntityEffect,
}

impl MCPacketType for PlayPacketClientBound {
    open spec fn spec_id(&self) -> i32 {
        match self {
            PlayPacketClientBound::AcknowledgeBlockChange => 0x05,
            PlayPacketClientBound::BlockUpdate => 0x09,
            PlayPacketClientBound::ChangeDifficulty => 0x0B,
            PlayPacketClientBound::Commands => 0x11,
            PlayPacketClientBound::DisguisedChatMessage => 0x1E,
            PlayPacketClientBound::EntityEvent => 0x1F,
            PlayPacketClientBound::ChunkDataAndUpdateLight => 0x27,
            PlayPacketClientBound::PingResponse => 0x36,
            PlayPacketClientBound::PlayerAbilities => 0x38,
            PlayPacketClientBound::PlayerChatMessage => 0x39,
            PlayPacketClientBound::Login => 0x2B,
            PlayPacketClientBound::SyncPlayerPosition => 0x40,
            PlayPacketClientBound::SetHeldItem => 0x53,
            PlayPacketClientBound::SetTickingState => 0x71,
            PlayPacketClientBound::StepTick => 0x72,
            PlayPacketClientBound::EntityEffect => 0x76,
        }
    }

    fn id(self) -> i32 {
        match self {
            PlayPacketClientBound::AcknowledgeBlockChange => 0x05,
            PlayPacketClientBound::BlockUpdate => 0x09,
            PlayPacketClientBound::ChangeDifficulty => 0x0B,
            PlayPacketClientBound::Commands => 0x11,
            PlayPacketClientBound::DisguisedChatMessage => 0x1E,
            PlayPacketClientBound::EntityEvent => 0x1F,
            PlayPacketClientBound::ChunkDataAndUpdateLight => 0x27,
            PlayPacketClientBound::PingResponse => 0x36,
            PlayPacketClientBound::PlayerAbilities => 0x38,
            PlayPacketClientBound::PlayerChatMessage => 0x39,
            PlayPacketClientBound::Login => 0x2B,
            PlayPacketClientBound::SyncPlayerPosition => 0x40,
            PlayPacketClientBound::SetHeldItem => 0x53,
            PlayPacketClientBound::SetTickingState => 0x71,
            PlayPacketClientBound::StepTick => 0x72,
            PlayPacketClientBound::EntityEffect => 0x76,
        }
    }
}

// ---------------------------------------------------------------------------
// Clientbound payloads.
// ---------------------------------------------------------------------------

/// A list of length-prefixed strings, in order.
pub open spec fn spec_strings_bytes(names: Seq<Seq<char>>) -> Seq<u8>
    decreases names.len(),
{
    if names.len() == 0 {
        seq![]
    } else {
        spec_strings_bytes(names.drop_last()) + spec_mcstring_bytes(names.last())
    }
}

/// The login payload: entity id, hardcore flag, the dimension names, then
/// the fixed world parameters of this design (creative gamemode, overworld,
/// no debug or flat world, no death location, secure chat off).
pub open spec fn spec_login_payload(
    eid: i32,
    hardcore: bool,
    dimension_names: Seq<Seq<char>>,
    max_players: i32,
    view_dist: i32,
) -> Seq<u8> {
    spec_be_bytes(i32_to_u32(eid) as nat, 4) + seq![spec_bool_byte(hardcore)] + spec_varint_bytes(
        dimension_names.len() as i32,
    ) + spec_strings_bytes(dimension_names) + spec_varint_bytes(max_players) + spec_varint_bytes(
        view_dist,
    ) + spec_varint_bytes(view_dist) + seq![spec_bool_byte(false)] + seq![spec_bool_byte(false)]
        + seq![spec_bool_byte(false)] + spec_varint_bytes(0) + spec_mcstring_bytes(
        "minecraft:overworld"@,
    ) + spec_be_bytes(i64_to_u64(-6574177734957711742i64) as nat, 8) + seq![1u8] + seq![0xFFu8]
        + seq![spec_bool_byte(false)] + seq![spec_bool_byte(false)] + seq![spec_bool_byte(false)]
        + spec_varint_bytes(0) + seq![spec_bool_byte(false)]
}

/// VarInt-encoded child indices, in order.
pub open spec fn spec_children_bytes(cs: Seq<i32>) -> Seq<u8>
    decreases cs.len(),
{
    if cs.len() == 0 {
        seq![]
    } else {
        spec_children_bytes(cs.drop_last()) + spec_varint_bytes(cs.last())
    }
}

/// The flags byte of a command node: its kind in the low two bits, then
/// executable, has-redirect and has-suggestions bits.
pub open spec fn spec_node_flags(n: CommandNodeView) -> u8 {
    (spec_node_type_bits(n.node_type) + (if n.is_executable {
        4int
    } else {
        0int
    }) + (if n.redirect is Some {
        8int
    } else {
        0int
    }) + (if n.suggestions_type is Some {
        16int
    } else {
        0int
    })) as u8
}

/// One command node on the wire: flags, child count, child indices, then
/// the optional redirect, name, parser and suggestions fields.
pub open spec fn spec_node_bytes(n: CommandNodeView) -> Seq<u8> {
    seq![spec_node_flags(n)] + spec_varint_bytes(n.children.len() as i32) + spec_children_bytes(
        n.children,
    ) + (match n.redirect {
        Some(r) => spec_varint_bytes(r),
        None => seq![],
    }) + (match n.name {
        Some(name) => spec_mcstring_bytes(name),
        None => seq![],
    }) + (match n.parser {
        Some(p) => spec_varint_bytes(spec_parser_id(p)) + spec_parser_properties(p),
        None => seq![],
    }) + (match n.suggestions_type {
        Some(s) => spec_mcstring_bytes(s),
        None => seq![],
    })
}

pub open spec fn spec_nodes_bytes(ns: Seq<CommandNodeView>) -> Seq<u8>
    decreases ns.len(),
{
    if ns.len() == 0 {
        seq![]
    } else {
        spec_nodes_bytes(ns.drop_last()) + spec_node_bytes(ns.last())
    }
}

/// The command-graph payload: node count, the nodes, and the root index.
pub open spec fn spec_commands_payload(ns: Seq<CommandNodeView>) -> Seq<u8> {
    spec_varint_bytes(ns.len() as i32) + spec_nodes_bytes(ns) + spec_varint_bytes(0)
}

/// Every name and suggestion within the string cap, every child list within
/// VarInt range.
pub open spec fn spec_nodes_wf(ns: Seq<CommandNodeView>) -> bool {
    forall|i: int|
        0 <= i < ns.len() ==> {
            let n = #[trigger] ns[i];
            &&& (n.name matches Some(s) ==> s.len() <= 32767)
            &&& (n.suggestions_type matches Some(s) ==> s.len() <= 32767)
            &&& n.children.len() <= 0x7fff_ffff
        }
}

/// The chunk payload: coordinates, an empty heightmap compound, the
/// length-prefixed section data, no block entities, empty light bit sets,
/// and empty light arrays.
pub open spec fn spec_chunk_data_payload(chunk_x: i32, chunk_z: i32, data: Seq<u8>) -> Seq<u8> {
    spec_be_bytes(i32_to_u32(chunk_x) as nat, 4) + spec_be_bytes(i32_to_u32(chunk_z) as nat, 4)
        + seq![0x0au8, 0x00u8] + spec_varint_bytes(data.len() as i32) + data + spec_varint_bytes(0)
        + spec_varint_bytes(0) + spec_varint_bytes(0) + spec_varint_bytes(0) + spec_varint_bytes(0)
        + spec_varint_bytes(0) + spec_varint_bytes(0)
}

/// An NBT string tag: tag id 0x08, a two-byte big-endian byte count, then
/// the UTF-8 bytes.
pub open spec fn spec_nbt_string_bytes(s: Seq<char>) -> Seq<u8> {
    seq![0x08u8] + spec_be_bytes(i16_to_u16(encode_utf8(s).len() as i16) as nat, 2) + encode_utf8(
        s,
    )
}

/// The disguised chat payload: the message as an NBT string, the chat type,
/// the sender name as an NBT string, and no target.
pub open spec fn spec_chat_fake_payload(player_name: Seq<char>, msg: Seq<char>) -> Seq<u8> {
    spec_nbt_string_bytes(msg) + spec_varint_bytes(1) + spec_nbt_string_bytes(player_name) + seq![
        spec_bool_byte(false),
    ]
}

/// The signed-chat payload this design sends: a zero sender identifier, no
/// signature, the message with its timestamp and salt, no previous
/// messages, no unsigned content, pass-through filtering, chat type one,
/// the sender name as an NBT string, and no target.
pub open spec fn spec_chat_payload(
    player_name: Seq<char>,
    msg: Seq<char>,
    timestamp: u64,
    salt: u64,
) -> Seq<u8> {
    spec_be_bytes(0, 16) + spec_varint_bytes(0) + seq![spec_bool_byte(false)]
        + spec_mcstring_bytes(msg) + spec_be_bytes(timestamp as nat, 8) + spec_be_bytes(
        salt as nat,
        8,
    ) + spec_varint_bytes(0) + seq![spec_bool_byte(false)] + spec_varint_bytes(0)
        + spec_varint_bytes(1) + spec_nbt_string_bytes(player_name) + seq![spec_bool_byte(false)]
}

impl PlayPacketClientBound {
    /// The block-update frame: the packed position, then the new state id.
    pub fn block_update(block_state: i32, pos: BlockPos) -> (r: Vec<u8>)
        ensures
            r@ == spec_frame(
                0x09,
                spec_be_bytes(spec_blockpos_packed(pos.x, pos.y, pos.z) as nat, 8)
                    + spec_varint_bytes(block_state),
            ),
    {
        proof {
            lemma_be_bytes_len(spec_blockpos_packed(pos.x, pos.y, pos.z) as nat, 8);
            lemma_varint_bytes_len(block_state);
        }
        let out = PacketBuilder::new().set_id(PlayPacketClientBound::BlockUpdate).add_long(
            pos.packed(),
        ).add_varint(block_state).build();
        match out {
            Some(v) => v,
            None => {
                proof {
                    assert(false);
                }
                Vec::new()
            },
        }
    }

    /// The login frame, exactly as [`spec_login_payload`] says.
    pub fn login(
        eid: i32,
        hardcore: bool,
        dimension_names: Vec<String>,
        max_players: i32,
        view_dist: i32,
    ) -> (r: Vec<u8>)
        requires
            forall|i: int|
                0 <= i < dimension_names@.len() ==> (#[trigger] dimension_names@[i])@.len()
                    <= 32767,
            dimension_names@.len() <= 0x7fff_ffff,
            spec_login_payload(
                eid,
                hardcore,
                dimension_names@.map_values(|s: String| s@),
                max_players,
                view_dist,
            ).len() + 5 <= i32::MAX,
        ensures
            r@ == spec_frame(
                0x2B,
                spec_login_payload(
                    eid,
                    hardcore,
                    dimension_names@.map_values(|s: String| s@),
                    max_players,
                    view_dist,
                ),
            ),
    {
        let ghost names = dimension_names@.map_values(|s: String| s@);
        let mut packet = PacketBuilder::new().set_id(PlayPacketClientBound::Login).add_int(
            eid,
        ).add_bool(hardcore).add_varint(dimension_names.len() as i32);
        let ghost prefix = packet.payload();
        let n = dimension_names.len();
        let mut i: usize = 0;
        proof {
            assert(spec_strings_bytes(names.take(0)) =~= seq![]);
            assert(packet.payload() =~= prefix + spec_strings_bytes(names.take(0)));
        }
        while i < n
            invariant
                i <= n == dimension_names@.len(),
                names == dimension_names@.map_values(|s: String| s@),
                forall|k: int|
                    0 <= k < dimension_names@.len() ==> (#[trigger] dimension_names@[k])@.len()
                        <= 32767,
                packet.spec_packet_id() == Some(0x2Bi32),
                prefix == spec_be_bytes(i32_to_u32(eid) as nat, 4) + seq![
                    spec_bool_byte(hardcore),
                ] + spec_varint_bytes(names.len() as i32),
                packet.payload() == prefix + spec_strings_bytes(names.take(i as int)),
            decreases n - i,
        {
            proof {
                assert(names[i as int] == dimension_names@[i as int]@);
            }
            packet = packet.add_string(dimension_names[i].as_str());
            i = i + 1;
            proof {
                assert(names.take(i as int).drop_last() =~= names.take(i - 1));
                assert(names.take(i as int).last() == names[i - 1]);
                assert(packet.payload() =~= prefix + spec_strings_bytes(names.take(i as int)));
            }
        }
        proof {
            assert(names.take(n as int) =~= names);
            reveal_strlit("minecraft:overworld");
        }
        // The hashed seed, as the two's-complement bits of the value this
        // design announces.
        let packet = packet.add_varint(max_players).add_varint(view_dist).add_varint(
            view_dist,
        ).add_bool(false).add_bool(false).add_bool(false).add_varint(0).add_string(
            "minecraft:overworld",
        ).add_long(crate::codec::i64_as_u64(-6574177734957711742i64)).add_byte(1).add_byte(
            0xFF,
        ).add_bool(false).add_bool(false).add_bool(false).add_varint(0).add_bool(false);
        match packet.build() {
            Some(v) => v,
            None => {
                proof {
                    assert(false);
                }
                Vec::new()
            },
        }
    }

    /// The difficulty frame: the difficulty byte, and an unlocked flag.
    pub fn change_difficulty(difficulty: u8) -> (r: Vec<u8>)
        ensures
            r@ == spec_frame(0x0B, seq![difficulty, spec_bool_byte(false)]),
    {
        let out = PacketBuilder::new().set_id(PlayPacketClientBound::ChangeDifficulty).add_byte(
            difficulty,
        ).add_bool(false).build();
        proof {
            assert(seq![difficulty] + seq![spec_bool_byte(false)] =~= seq![
                difficulty,
                spec_bool_byte(false),
            ]);
        }
        match out {
            Some(v) => v,
            None => {
                proof {
                    assert(false);
                }
                Vec::new()
            },
        }
    }

    /// The command-graph frame, exactly as [`spec_commands_payload`] says.
    pub fn commands(nodes: Vec<CommandNode>) -> (r: Vec<u8>)
        requires
            spec_nodes_wf(nodes@.map_values(|n: CommandNode| n@)),
            nodes@.len() <= 0x7fff_ffff,
            spec_commands_payload(nodes@.map_values(|n: CommandNode| n@)).len() + 5 <= i32::MAX,
        ensures
            r@ == spec_frame(0x11, spec_commands_payload(nodes@.map_values(|n: CommandNode| n@))),
    {
        let ghost ns = nodes@.map_values(|n: CommandNode| n@);
        let mut packet = PacketBuilder::new().set_id(PlayPacketClientBound::Commands).add_varint(
            nodes.len() as i32,
        );
        let n = nodes.len();
        let mut i: usize = 0;
        proof {
            assert(spec_nodes_bytes(ns.take(0)) =~= seq![]);
            assert(packet.payload() =~= spec_varint_bytes(ns.len() as i32) + spec_nodes_bytes(
                ns.take(0),
            ));
        }
        while i < n
            invariant
                i <= n == nodes@.len(),
                ns == nodes@.map_values(|n2: CommandNode| n2@),
                spec_nodes_wf(ns),
                packet.spec_packet_id() == Some(0x11i32),
                packet.payload() == spec_varint_bytes(ns.len() as i32) + spec_nodes_bytes(
                    ns.take(i as int),
                ),
            decreases n - i,
        {
            proof {
                assert(ns[i as int] == nodes@[i as int]@);
            }
            packet = add_node(packet, &nodes[i]);
            i = i + 1;
            proof {
                assert(ns.take(i as int).drop_last() =~= ns.take(i - 1));
                assert(ns.take(i as int).last() == ns[i - 1]);
                assert(packet.payload() =~= spec_varint_bytes(ns.len() as i32) + spec_nodes_bytes(
                    ns.take(i as int),
                ));
            }
        }
        proof {
            assert(ns.take(n as int) =~= ns);
            lemma_varint_bytes_len(0);
        }
        let packet = packet.add_varint(0);
        match packet.build() {
            Some(v) => v,
            None => {
                proof {
                    assert(false);
                }
                Vec::new()
            },
        }
    }

    /// The abilities frame this design sends: invulnerable, flying and
    /// creative flags, then the fly and walk speeds as the IEEE 754 bit
    /// patterns of one twentieth and one tenth.
    pub fn player_abilities() -> (r: Vec<u8>)
        ensures
            r@ == spec_frame(
                0x38,
                seq![0x0Du8] + spec_be_bytes(0x3D4C_CCCD, 4) + spec_be_bytes(0x3DCC_CCCD, 4),
            ),
    {
        proof {
            lemma_be_bytes_len(i32_to_u32(0x3D4C_CCCD) as nat, 4);
            lemma_be_bytes_len(i32_to_u32(0x3DCC_CCCD) as nat, 4);
        }
        let out = PacketBuilder::new().set_id(PlayPacketClientBound::PlayerAbilities).add_byte(
            0x0D,
        ).add_int(0x3D4C_CCCD).add_int(0x3DCC_CCCD).build();
        match out {
            Some(v) => v,
            None => {
                proof {
                    assert(false);
                }
                Vec::new()
            },
        }
    }

    /// The disguised-chat frame, exactly as [`spec_chat_fake_payload`] says.
    pub fn player_chat_message_fake(player_name: String, msg: String) -> (r: Vec<u8>)
        requires
            encode_utf8(player_name@).len() <= 32767,
            encode_utf8(msg@).len() <= 32767,
        ensures
            r@ == spec_frame(0x1E, spec_chat_fake_payload(player_name@, msg@)),
    {
        let msg_bytes = str_bytes_vec(msg.as_str());
        let name_bytes = str_bytes_vec(player_name.as_str());
        proof {
            lemma_be_bytes_len(i16_to_u16(msg_bytes@.len() as i16) as nat, 2);
            lemma_be_bytes_len(i16_to_u16(name_bytes@.len() as i16) as nat, 2);
            lemma_varint_bytes_len(1);
        }
        let out = PacketBuilder::new().set_id(
            PlayPacketClientBound::DisguisedChatMessage,
        ).add_byte(0x08).add_short(msg_bytes.len() as i16).add_bytes(msg_bytes).add_varint(
            1,
        ).add_byte(0x08).add_short(name_bytes.len() as i16).add_bytes(name_bytes).add_bool(
            false,
        ).build();
        match out {
            Some(v) => v,
            None => {
                proof {
                    assert(false);
                }
                Vec::new()
            },
        }
    }

    /// The signed-chat frame, exactly as [`spec_chat_payload`] says.
    pub fn player_chat_message(player_name: String, msg: String, timestamp: u64, salt: u64) -> (r:
        Vec<u8>)
        requires
            encode_utf8(player_name@).len() <= 32767,
            msg@.len() <= 32767,
        ensures
            r@ == spec_frame(0x39, spec_chat_payload(player_name@, msg@, timestamp, salt)),
    {
        let name_bytes = str_bytes_vec(player_name.as_str());
        proof {
            lemma_be_bytes_len(0, 16);
            lemma_be_bytes_len(timestamp as nat, 8);
            lemma_be_bytes_len(salt as nat, 8);
            lemma_be_bytes_len(i16_to_u16(name_bytes@.len() as i16) as nat, 2);
            lemma_varint_bytes_len(0);
            lemma_varint_bytes_len(1);
            lemma_mcstring_bytes_len(msg@);
        }
        let out = PacketBuilder::new().set_id(PlayPacketClientBound::PlayerChatMessage).add_uuid(
            0,
        ).add_varint(0).add_bool(false).add_string(msg.as_str()).add_long(timestamp).add_long(
            salt,
        ).add_varint(0).add_bool(false).add_varint(0).add_varint(1).add_byte(0x08).add_short(
            name_bytes.len() as i16,
        ).add_bytes(name_bytes).add_bool(false).build();
        match out {
            Some(v) => v,
            None => {
                proof {
                    assert(false);
                }
                Vec::new()
            },
        }
    }

    /// The entity-event frame: entity id, then the event code.
    pub fn entity_event(eid: i32, event: u8) -> (r: Vec<u8>)
        ensures
            r@ == spec_frame(0x1F, spec_be_bytes(i32_to_u32(eid) as nat, 4) + seq![event]),
    {
        proof {
            lemma_be_bytes_len(i32_to_u32(eid) as nat, 4);
        }
        let out = PacketBuilder::new().set_id(PlayPacketClientBound::EntityEvent).add_int(
            eid,
        ).add_byte(event).build();
        match out {
            Some(v) => v,
            None => {
                proof {
                    assert(false);
                }
                Vec::new()
            },
        }
    }

    /// The entity-effect frame: entity id, effect, amplifier, duration,
    /// then the effect flags.
    pub fn entity_effect(eid: i32, effect: i32, amplifier: i32, duration: i32, flags: u8) -> (r:
        Vec<u8>)
        ensures
            r@ == spec_frame(
                0x76,
                spec_varint_bytes(eid) + spec_varint_bytes(effect) + spec_varint_bytes(amplifier)
                    + spec_varint_bytes(duration) + seq![flags],
            ),
    {
        proof {
            lemma_varint_bytes_len(eid);
            lemma_varint_bytes_len(effect);
            lemma_varint_bytes_len(amplifier);
            lemma_varint_bytes_len(duration);
        }
        let out = PacketBuilder::new().set_id(PlayPacketClientBound::EntityEffect).add_varint(
            eid,
        ).add_varint(effect).add_varint(amplifier).add_varint(duration).add_byte(flags).build();
        match out {
            Some(v) => v,
            None => {
                proof {
                    assert(false);
                }
                Vec::new()
            },
        }
    }

    /// The held-item frame: the selected hotbar slot.
    pub fn set_held_item(slot: u8) -> (r: Vec<u8>)
        ensures
            r@ == spec_frame(0x53, seq![slot]),
    {
        let out = PacketBuilder::new().set_id(PlayPacketClientBound::SetHeldItem).add_byte(
            slot,
        ).build();
        match out {
            Some(v) => v,
            None => {
                proof {
                    assert(false);
                }
                Vec::new()
            },
        }
    }

    /// The chunk frame, exactly as [`spec_chunk_data_payload`] says; the
    /// section data comes already encoded from the world store.
    pub fn chunk_data(chunk_x: i32, chunk_z: i32, data: Vec<u8>) -> (r: Vec<u8>)
        requires
            data@.len() <= 0x7fff_ffff,
            spec_chunk_data_payload(chunk_x, chunk_z, data@).len() + 5 <= i32::MAX,
        ensures
            r@ == spec_frame(0x27, spec_chunk_data_payload(chunk_x, chunk_z, data@)),
    {
        let len = data.len();
        let out = PacketBuilder::new().set_id(
            PlayPacketClientBound::ChunkDataAndUpdateLight,
        ).add_int(chunk_x).add_int(chunk_z).add_byte(0x0a).add_byte(0x00).add_varint(
            len as i32,
        ).add_bytes(data).add_varint(0).add_varint(0).add_varint(0).add_varint(0).add_varint(
            0,
        ).add_varint(0).add_varint(0).build();
        proof {
            assert(seq![0x0au8] + seq![0x00u8] =~= seq![0x0au8, 0x00u8]);
        }
        match out {
            Some(v) => v,
            None => {
                proof {
                    assert(false);
                }
                Vec::new()
            },
        }
    }
}


/// The optional trailing fields of a command node on the wire.
pub open spec fn spec_node_tail_bytes(n: CommandNodeView) -> Seq<u8> {
    (match n.redirect {
        Some(r) => spec_varint_bytes(r),
        None => seq![],
    }) + (match n.name {
        Some(name) => spec_mcstring_bytes(name),
        None => seq![],
    }) + (match n.parser {
        Some(p) => spec_varint_bytes(spec_parser_id(p)) + spec_parser_properties(p),
        None => seq![],
    }) + (match n.suggestions_type {
        Some(s) => spec_mcstring_bytes(s),
        None => seq![],
    })
}

/// The two spellings of a node's wire form agree.
proof fn lemma_node_bytes_split(n: CommandNodeView)
    ensures
        spec_node_bytes(n) == seq![spec_node_flags(n)] + spec_varint_bytes(
            n.children.len() as i32,
        ) + spec_children_bytes(n.children) + spec_node_tail_bytes(n),
{
    assert(spec_node_bytes(n) =~= seq![spec_node_flags(n)] + spec_varint_bytes(
        n.children.len() as i32,
    ) + spec_children_bytes(n.children) + spec_node_tail_bytes(n));
}

/// Append a node's optional trailing fields, exactly as
/// [`spec_node_tail_bytes`] says.
#[verifier::rlimit(100)]
fn add_node_tail(packet: PacketBuilder, node: &CommandNode) -> (r: PacketBuilder)
    requires
        node@.name matches Some(s) ==> s.len() <= 32767,
        node@.suggestions_type matches Some(s) ==> s.len() <= 32767,
    ensures
        r.spec_packet_id() == packet.spec_packet_id(),
        r.payload() == packet.payload() + spec_node_tail_bytes(node@),
{
    let ghost nv = node@;
    let mut out = packet;
    match &node.redirect {
        Some(rd) => {
            out = out.add_varint(*rd);
        },
        None => {},
    }
    let ghost base1 = out.payload();
    match &node.name {
        Some(name) => {
            out = out.add_string(name.as_str());
        },
        None => {},
    }
    let ghost base2 = out.payload();
    match &node.parser {
        Some(p) => {
            out = out.add_varint(p.id()).add_bytes(p.properties());
        },
        None => {},
    }
    let ghost base3 = out.payload();
    match &node.suggestions_type {
        Some(s) => {
            out = out.add_string(s.as_str());
        },
        None => {},
    }
    proof {
        assert(out.payload() =~= packet.payload() + spec_node_tail_bytes(nv));
    }
    out
}

/// Append one command node's wire form, exactly as [`spec_node_bytes`] says.
#[verifier::rlimit(100)]
fn add_node(packet: PacketBuilder, node: &CommandNode) -> (r: PacketBuilder)
    requires
        node@.name matches Some(s) ==> s.len() <= 32767,
        node@.suggestions_type matches Some(s) ==> s.len() <= 32767,
        node@.children.len() <= 0x7fff_ffff,
    ensures
        r.spec_packet_id() == packet.spec_packet_id(),
        r.payload() == packet.payload() + spec_node_bytes(node@),
{
    let ghost nv = node@;
    let type_bits: u8 = match node.node_type {
        crate::command::CommandNodeType::Root => 0,
        crate::command::CommandNodeType::Literal => 1,
        crate::command::CommandNodeType::Argument => 2,
    };
    let flags: u8 = type_bits + (if node.is_executable {
        4u8
    } else {
        0u8
    }) + (if node.redirect.is_some() {
        8u8
    } else {
        0u8
    }) + (if node.suggestions_type.is_some() {
        16u8
    } else {
        0u8
    });
    let mut out = packet.add_byte(flags).add_varint(node.children.len() as i32);
    let ghost node_prefix = out.payload();
    let m = node.children.len();
    let mut j: usize = 0;
    proof {
        assert(spec_children_bytes(nv.children.take(0)) =~= seq![]);
        assert(out.payload() =~= node_prefix + spec_children_bytes(nv.children.take(0)));
    }
    while j < m
        invariant
            j <= m == node.children@.len(),
            nv == node@,
            out.spec_packet_id() == packet.spec_packet_id(),
            out.payload() == node_prefix + spec_children_bytes(nv.children.take(j as int)),
        decreases m - j,
    {
        out = out.add_varint(node.children[j]);
        j = j + 1;
        proof {
            assert(nv.children.take(j as int).drop_last() =~= nv.children.take(j - 1));
            assert(nv.children.take(j as int).last() == nv.children[j - 1]);
            assert(out.payload() =~= node_prefix + spec_children_bytes(
                nv.children.take(j as int),
            ));
        }
    }
    proof {
        assert(nv.children.take(m as int) =~= nv.children);
    }
    let out = add_node_tail(out, node);
    proof {
        lemma_node_bytes_split(nv);
        assert(out.payload() =~= packet.payload() + spec_node_bytes(nv));
    }
    out
}

} // verus!
