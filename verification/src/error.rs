use vstd::prelude::*;

verus! {

/// Errors raised by the codec and by the protocol state machine.
///
/// Codec and protocol errors are fatal for the connection that raised
/// them and for that connection only; the server core survives.
#[derive(Debug, Clone, PartialEq, Eq, Structural)]
pub enum ServerError {
    /// A decoder ran past the end of the packet data.
    EndOfPacket,
    /// A variable-length integer carried a continuation bit past its
    /// last allowed byte.
    VarIntTooBig,
    /// A length-prefixed string held bytes that are not valid UTF-8.
    InvalidUtf8,
    /// The length declared by a frame disagrees with the bytes present.
    WrongPacketSize { expected: usize, got: usize },
    /// A serverbound frame declared a payload over the 32767-byte cap.
    PacketTooBig { got: usize },
    /// A handshake asked for a follow-up state the protocol does not define.
    InvalidServerState(i32),
    /// A packet id that the current phase does not define.
    UnknownPacketId(i32),
    /// The first known pack announced by the client is not the pack this
    /// server serves.
    KnownPackMismatch,
    /// A packet arrived in a phase the server does not serve.
    ServerStateNotImplemented(crate::server_connection::ConnectionStatusType),
}

impl ServerError {
    /// A short description of the error, in place of `Display`.
    pub fn message(&self) -> String {
        match self {
            ServerError::EndOfPacket => "reached end of packet data".to_string(),
            ServerError::VarIntTooBig => "parsed VarInt too big".to_string(),
            ServerError::InvalidUtf8 => "string data is not valid UTF-8".to_string(),
            ServerError::WrongPacketSize { expected: _, got: _ } => {
                "size declared by the packet is wrong".to_string()
            },
            ServerError::PacketTooBig { got: _ } => {
                "serverbound packet over the size cap".to_string()
            },
            ServerError::InvalidServerState(_) => "invalid server state".to_string(),
            ServerError::UnknownPacketId(_) => {
                "packet id not defined for the current phase".to_string()
            },
            ServerError::KnownPackMismatch => {
                "server and client known pack mismatch".to_string()
            },
            ServerError::ServerStateNotImplemented(_) => {
                "server state not yet implemented".to_string()
            },
        }
    }
}

} // verus!
