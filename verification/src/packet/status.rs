//! The status phase: the server list query and the latency ping.

use vstd::prelude::*;
use crate::codec::Reader;
use crate::error::ServerError;
use crate::packet::{MCPacketType, parse_frame_header, spec_frame_header};

verus! {

/// Status-phase packets.
#[derive(Debug)]
pub enum StatusPacketType {
    /// Serverbound: ask for the server info JSON.
    Status,
    /// Clientbound: the server info JSON.
    StatusResponse,
    /// Both ways: an opaque ping, echoed back whole (`raw` keeps the
    /// entire frame so the echo is byte-exact).
    Ping { raw: Vec<u8> },
}

/// Spec-level mirror of [`StatusPacketType`].
pub enum StatusPacketView {
    Status,
    StatusResponse,
    Ping { raw: Seq<u8> },
}

impl View for StatusPacketType {
    type V = StatusPacketView;

    open spec fn view(&self) -> StatusPacketView {
        match self {
            StatusPacketType::Status => StatusPacketView::Status,
            StatusPacketType::StatusResponse => StatusPacketView::StatusResponse,
            StatusPacketType::Ping { raw } => StatusPacketView::Ping { raw: raw@ },
        }
    }
}

impl MCPacketType for StatusPacketType {
    open spec fn spec_id(&self) -> i32 {
        match self {
            StatusPacketType::Status => 0x00,
            StatusPacketType::StatusResponse => 0x00,
            StatusPacketType::Ping { .. } => 0x01,
        }
    }

    fn id(self) -> i32 {
        match self {
            StatusPacketType::Status => 0x00,
            StatusPacketType::StatusResponse => 0x00,
            StatusPacketType::Ping { .. } => 0x01,
        }
    }
}

/// Parse a status frame: id 0x00 is the status request, id 0x01 a ping
/// that keeps the whole frame for a byte-exact echo.
pub open spec fn spec_parse_status(s: Seq<u8>) -> Result<StatusPacketView, ServerError> {
    match spec_frame_header(s) {
        Ok(h) => {
            if h.0 == 0x00 {
                Ok(StatusPacketView::Status)
            } else if h.0 == 0x01 {
                Ok(StatusPacketView::Ping { raw: s })
            } else {
                Err(ServerError::UnknownPacketId(h.0))
            }
        },
        Err(e) => Err(e),
    }
}

impl StatusPacketType {
    /// Parse a status frame, exactly as [`spec_parse_status`] says.
    pub fn parse(bytes: Vec<u8>) -> (r: Result<Self, ServerError>)
        ensures
            match spec_parse_status(bytes@) {
                Ok(v) => r matches Ok(p) && p@ == v,
                Err(e) => r == Err::<Self, ServerError>(e),
            },
    {
        let mut it = Reader::new(bytes.as_slice());
        let id = match parse_frame_header(&mut it) {
            Ok(v) => v,
            Err(e) => { return Err(e); },
        };
        match id {
            0x00 => Ok(StatusPacketType::Status),
            0x01 => Ok(StatusPacketType::Ping { raw: bytes }),
            _ => Err(ServerError::UnknownPacketId(id)),
        }
    }
}

} // verus!
