//! The login phase: the client names itself and acknowledges the success
//! reply; identifiers travel as 128-bit values.

use vstd::prelude::*;
use vstd::utf8::encode_utf8;
use crate::codec::{Reader, next_string, next_u128, next_bool, spec_take_string, spec_take_u128, spec_take_bool, lemma_take_string_len, lemma_take_string_byte_len};
use crate::error::ServerError;
use crate::packet::{MCPacketType, parse_frame_header, spec_frame_header, lemma_frame_header_cap};

verus! {

/// Serverbound login packets.
#[derive(Debug)]
pub enum LoginPacketType {
    LoginStart { name: String, uuid: u128 },
    LoginPluginResponse { message_id: String, success: bool, data: Option<Vec<u8>> },
    LoginAcknowledged,
}

/// Spec-level mirror of [`LoginPacketType`].
pub enum LoginPacketView {
    LoginStart { name: Seq<char>, uuid: u128 },
    LoginPluginResponse { message_id: Seq<char>, success: bool, data: Option<Seq<u8>> },
    LoginAcknowledged,
}

impl View for LoginPacketType {
    type V = LoginPacketView;

    open spec fn view(&self) -> LoginPacketView {
        match self {
            LoginPacketType::LoginStart { name, uuid } => LoginPacketView::LoginStart {
                name: name@,
                uuid: *uuid,
            },
            LoginPacketType::LoginPluginResponse { message_id, success, data } => {
                LoginPacketView::LoginPluginResponse {
                    message_id: message_id@,
                    success: *success,
                    data: match data {
                        Some(d) => Some(d@),
                        None => None,
                    },
                }
            },
            LoginPacketType::LoginAcknowledged => LoginPacketView::LoginAcknowledged,
        }
    }
}

/// Clientbound login packets.
pub enum LoginPacketResponse {
    Disconnect,
    LoginSuccess,
}

impl MCPacketType for LoginPacketResponse {
    open spec fn spec_id(&self) -> i32 {
        match self {
            LoginPacketResponse::Disconnect => 0x00,
            LoginPacketResponse::LoginSuccess => 0x02,
        }
    }

    fn id(self) -> i32 {
        match self {
            LoginPacketResponse::Disconnect => 0x00,
            LoginPacketResponse::LoginSuccess => 0x02,
        }
    }
}

/// Parse a login frame: 0x00 starts a login (name, then identifier),
/// 0x02 answers a plugin request (any bytes left are its data), and
/// 0x03 acknowledges the success reply.
pub open spec fn spec_parse_login(s: Seq<u8>) -> Result<LoginPacketView, ServerError> {
    match spec_frame_header(s) {
        Ok(h) => {
            if h.0 == 0x00 {
                match spec_take_string(h.1) {
                    Ok(p1) => match spec_take_u128(p1.1) {
                        Ok(p2) => Ok(LoginPacketView::LoginStart { name: p1.0, uuid: p2.0 }),
                        Err(e) => Err(e),
                    },
                    Err(e) => Err(e),
                }
            } else if h.0 == 0x02 {
                match spec_take_string(h.1) {
                    Ok(p1) => match spec_take_bool(p1.1) {
                        Ok(p2) => Ok(
                            LoginPacketView::LoginPluginResponse {
                                message_id: p1.0,
                                success: p2.0,
                                data: if p2.1.len() > 0 {
                                    Some(p2.1)
                                } else {
                                    None
                                },
                            },
                        ),
                        Err(e) => Err(e),
                    },
                    Err(e) => Err(e),
                }
            } else if h.0 == 0x03 {
                Ok(LoginPacketView::LoginAcknowledged)
            } else {
                Err(ServerError::UnknownPacketId(h.0))
            }
        },
        Err(e) => Err(e),
    }
}

/// A name parsed from a capped login frame stays within the wire caps,
/// both in characters and in bytes.
pub proof fn lemma_login_start_name_len(s: Seq<u8>)
    ensures
        spec_parse_login(s) matches Ok(LoginPacketView::LoginStart { name, uuid }) ==> name.len()
            <= 32767 && encode_utf8(name).len() <= 32767,
{
    lemma_frame_header_cap(s);
    match spec_frame_header(s) {
        Ok(h) => {
            if h.0 == 0x00 {
                lemma_take_string_len(h.1);
                lemma_take_string_byte_len(h.1);
            }
        },
        Err(_) => {},
    }
}

impl LoginPacketType {
    /// Parse a login frame, exactly as [`spec_parse_login`] says.
    pub fn parse(bytes: Vec<u8>) -> (r: Result<Self, ServerError>)
        ensures
            match spec_parse_login(bytes@) {
                Ok(v) => r matches Ok(p) && p@ == v,
                Err(e) => r == Err::<Self, ServerError>(e),
            },
    {
        let mut it = Reader::new(bytes.as_slice());
        let id = match parse_frame_header(&mut it) {
            Ok(v) => v,
            Err(e) => { return Err(e); },
        };
        match id {
            0x00 => {
                let name = match next_string(&mut it) {
                    Ok(v) => v,
                    Err(e) => { return Err(e); },
                };
                let uuid = match next_u128(&mut it) {
                    Ok(v) => v,
                    Err(e) => { return Err(e); },
                };
                Ok(LoginPacketType::LoginStart { name, uuid })
            },
            0x02 => {
                let message_id = match next_string(&mut it) {
                    Ok(v) => v,
                    Err(e) => { return Err(e); },
                };
                let success = match next_bool(&mut it) {
                    Ok(v) => v,
                    Err(e) => { return Err(e); },
                };
                let ghost rem = it.remaining();
                let n = it.len();
                let data = if n > 0 {
                    Some(it.read_bytes(n))
                } else {
                    None
                };
                proof {
                    assert(rem.take(n as int) =~= rem);
                }
                Ok(LoginPacketType::LoginPluginResponse { message_id, success, data })
            },
            0x03 => Ok(LoginPacketType::LoginAcknowledged),
            _ => Err(ServerError::UnknownPacketId(id)),
        }
    }
}

} // verus!
