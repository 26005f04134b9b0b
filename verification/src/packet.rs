//! The packet model: one module per protocol phase, and what they share —
//! the packet-id trait and the frame header that every serverbound packet
//! starts with.
//!
//! Wire form of a frame: `[VarInt length][VarInt packet id][payload]`,
//! where `length` counts the id and payload bytes.

pub mod configure;
pub mod handshake;
pub mod login;
pub mod play;
pub mod status;

use vstd::prelude::*;
use crate::codec::{Reader, next_varint, spec_take_varint};
use crate::error::ServerError;

verus! {

/// A packet kind that knows its numeric wire id.
pub trait MCPacketType: Sized {
    /// The wire id in specifications.
    spec fn spec_id(&self) -> i32;

    /// The wire id.
    fn id(self) -> (r: i32)
        ensures
            r == self.spec_id(),
    ;
}

/// The cap on a serverbound frame payload, in bytes.
pub const MAX_SERVERBOUND_PAYLOAD: i32 = 32767;

/// Read a serverbound frame header: the declared length must match the
/// bytes present and stay under the 32767-byte cap; the packet id follows.
/// Yields the id and leaves the cursor at the typed payload. A negative
/// declared length is reported as a size mismatch with `got` zero.
pub open spec fn spec_frame_header(s: Seq<u8>) -> Result<(i32, Seq<u8>), ServerError> {
    match spec_take_varint(s) {
        Ok(p) => {
            let length = p.0;
            let rest = p.1;
            if length < 0 {
                Err(ServerError::WrongPacketSize { expected: rest.len() as usize, got: 0 })
            } else if rest.len() != length {
                Err(
                    ServerError::WrongPacketSize {
                        expected: rest.len() as usize,
                        got: length as usize,
                    },
                )
            } else if length > MAX_SERVERBOUND_PAYLOAD {
                Err(ServerError::PacketTooBig { got: length as usize })
            } else {
                match spec_take_varint(rest) {
                    Ok(q) => Ok((q.0, q.1)),
                    Err(e) => Err(e),
                }
            }
        },
        Err(e) => Err(e),
    }
}

/// A parsed frame's typed payload never exceeds the serverbound cap.
pub proof fn lemma_frame_header_cap(s: Seq<u8>)
    ensures
        spec_frame_header(s) matches Ok(p) ==> p.1.len() <= 32767,
{
    match spec_take_varint(s) {
        Ok(q) => {
            if 0 <= q.0 == q.1.len() && q.0 <= MAX_SERVERBOUND_PAYLOAD {
                crate::codec::lemma_varnum_core_consumes(q.1, 0, 0, 5);
            }
        },
        Err(_) => {},
    }
}

/// Exec form of [`spec_frame_header`].
pub fn parse_frame_header(data: &mut Reader) -> (r: Result<i32, ServerError>)
    requires
        old(data).wf(),
    ensures
        final(data).wf(),
        final(data).data == old(data).data,
        match spec_frame_header(old(data).remaining()) {
            Ok(p) => r == Ok::<i32, ServerError>(p.0) && final(data).remaining() == p.1,
            Err(e) => r == Err::<i32, ServerError>(e),
        },
{
    let length = match next_varint(data) {
        Ok(v) => v,
        Err(e) => { return Err(e); },
    };
    let remaining = data.len();
    if length < 0 {
        return Err(ServerError::WrongPacketSize { expected: remaining, got: 0 });
    }
    if remaining != length as usize {
        return Err(ServerError::WrongPacketSize { expected: remaining, got: length as usize });
    }
    if length > MAX_SERVERBOUND_PAYLOAD {
        return Err(ServerError::PacketTooBig { got: length as usize });
    }
    match next_varint(data) {
        Ok(id) => Ok(id),
        Err(e) => Err(e),
    }
}

} // verus!
