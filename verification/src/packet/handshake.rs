//! The handshake phase: the first packet of every connection, naming the
//! phase the client wants next.

use vstd::prelude::*;
use crate::codec::{Reader, next_varint, next_string, next_u16, spec_take_varint, spec_take_string, spec_take_u16};
use crate::error::ServerError;
use crate::packet::{MCPacketType, parse_frame_header, spec_frame_header};

verus! {

/// Serverbound handshake packets.
#[derive(Debug)]
pub enum HandshakePacketType {
    Handshake { protocol: i32, server_addr: String, server_port: u16, next_state: i32 },
}

/// Spec-level mirror of [`HandshakePacketType`].
pub enum HandshakePacketView {
    Handshake { protocol: i32, server_addr: Seq<char>, server_port: u16, next_state: i32 },
}

impl View for HandshakePacketType {
    type V = HandshakePacketView;

    open spec fn view(&self) -> HandshakePacketView {
        match self {
            HandshakePacketType::Handshake { protocol, server_addr, server_port, next_state } => {
                HandshakePacketView::Handshake {
                    protocol: *protocol,
                    server_addr: server_addr@,
                    server_port: *server_port,
                    next_state: *next_state,
                }
            },
        }
    }
}

impl MCPacketType for HandshakePacketType {
    open spec fn spec_id(&self) -> i32 {
        0x00
    }

    fn id(self) -> i32 {
        match self {
            HandshakePacketType::Handshake { .. } => 0x00,
        }
    }
}

/// Parse a handshake frame: id 0x00 carries protocol, address, port and the
/// requested next state; any other id is unknown in this phase.
pub open spec fn spec_parse_handshake(s: Seq<u8>) -> Result<HandshakePacketView, ServerError> {
    match spec_frame_header(s) {
        Ok(h) => {
            if h.0 == 0x00 {
                match spec_take_varint(h.1) {
                    Ok(p1) => match spec_take_string(p1.1) {
                        Ok(p2) => match spec_take_u16(p2.1) {
                            Ok(p3) => match spec_take_varint(p3.1) {
                                Ok(p4) => Ok(
                                    HandshakePacketView::Handshake {
                                        protocol: p1.0,
                                        server_addr: p2.0,
                                        server_port: p3.0,
                                        next_state: p4.0,
                                    },
                                ),
                                Err(e) => Err(e),
                            },
                            Err(e) => Err(e),
                        },
                        Err(e) => Err(e),
                    },
                    Err(e) => Err(e),
                }
            } else {
                Err(ServerError::UnknownPacketId(h.0))
            }
        },
        Err(e) => Err(e),
    }
}

impl HandshakePacketType {
    /// Parse a handshake frame, exactly as [`spec_parse_handshake`] says.
    pub fn parse(bytes: Vec<u8>) -> (r: Result<Self, ServerError>)
        ensures
            match spec_parse_handshake(bytes@) {
                Ok(v) => r matches Ok(p) && p@ == v,
                Err(e) => r == Err::<Self, ServerError>(e),
            },
    {
        let mut it = Reader::new(bytes.as_slice());
        let id = match parse_frame_header(&mut it) {
            Ok(v) => v,
            Err(e) => { return Err(e); },
        };
        match id {
            0x00 => {
                let protocol = match next_varint(&mut it) {
                    Ok(v) => v,
                    Err(e) => { return Err(e); },
                };
                let server_addr = match next_string(&mut it) {
                    Ok(v) => v,
                    Err(e) => { return Err(e); },
                };
                let server_port = match next_u16(&mut it) {
                    Ok(v) => v,
                    Err(e) => { return Err(e); },
                };
                let next_state = match next_varint(&mut it) {
                    Ok(v) => v,
                    Err(e) => { return Err(e); },
                };
                Ok(HandshakePacketType::Handshake { protocol, server_addr, server_port, next_state })
            },
            _ => Err(ServerError::UnknownPacketId(id)),
        }
    }
}

} // verus!
