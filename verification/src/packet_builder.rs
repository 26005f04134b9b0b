//! Building clientbound packets: typed fields are appended to a payload,
//! and `build` frames the payload with the packet id and total length.

use vstd::prelude::*;
use vstd::utf8::*;
use crate::codec::{spec_varint_bytes, spec_be_bytes, spec_mcstring_bytes, i16_to_u16, i32_to_u32, i16_as_u16, i32_as_u32, push_be_bytes, encode_varint, str_bytes_vec, lemma_encode_utf8_len, lemma_varuint_bytes_len, lemma_pow128_values};
use crate::error::ServerError;
use crate::packet::MCPacketType;

verus! {

/// The framed wire form of a packet: VarInt total length, VarInt id, payload.
pub open spec fn spec_frame(id: i32, payload: Seq<u8>) -> Seq<u8> {
    let body = spec_varint_bytes(id) + payload;
    spec_varint_bytes(body.len() as i32) + body
}

/// One byte for a boolean field.
pub open spec fn spec_bool_byte(v: bool) -> u8 {
    if v {
        1
    } else {
        0
    }
}

/// An accumulator for one clientbound packet.
pub struct PacketBuilder {
    packet_id: Option<i32>,
    proto_packet: Vec<u8>,
}

impl PacketBuilder {
    /// The id set so far, if any.
    pub closed spec fn spec_packet_id(&self) -> Option<i32> {
        self.packet_id
    }

    /// The payload bytes appended so far.
    pub closed spec fn payload(&self) -> Seq<u8> {
        self.proto_packet@
    }

    pub fn new() -> (r: Self)
        ensures
            r.spec_packet_id() is None,
            r.payload() == Seq::<u8>::empty(),
    {
        PacketBuilder { packet_id: None, proto_packet: Vec::new() }
    }

    pub fn set_id<P: MCPacketType>(self, packet_id: P) -> (r: Self)
        ensures
            r.spec_packet_id() == Some(packet_id.spec_id()),
            r.payload() == self.payload(),
    {
        PacketBuilder { packet_id: Some(packet_id.id()), proto_packet: self.proto_packet }
    }

    pub fn add_byte(self, value: u8) -> (r: Self)
        ensures
            r.spec_packet_id() == self.spec_packet_id(),
            r.payload() == self.payload() + seq![value],
    {
        let mut p = self.proto_packet;
        p.push(value);
        PacketBuilder { packet_id: self.packet_id, proto_packet: p }
    }

    pub fn add_short(self, value: i16) -> (r: Self)
        ensures
            r.spec_packet_id() == self.spec_packet_id(),
            r.payload() == self.payload() + spec_be_bytes(i16_to_u16(value) as nat, 2),
    {
        let mut p = self.proto_packet;
        push_be_bytes(&mut p, i16_as_u16(value) as u128, 2);
        PacketBuilder { packet_id: self.packet_id, proto_packet: p }
    }

    pub fn add_int(self, value: i32) -> (r: Self)
        ensures
            r.spec_packet_id() == self.spec_packet_id(),
            r.payload() == self.payload() + spec_be_bytes(i32_to_u32(value) as nat, 4),
    {
        let mut p = self.proto_packet;
        push_be_bytes(&mut p, i32_as_u32(value) as u128, 4);
        PacketBuilder { packet_id: self.packet_id, proto_packet: p }
    }

    pub fn add_long(self, value: u64) -> (r: Self)
        ensures
            r.spec_packet_id() == self.spec_packet_id(),
            r.payload() == self.payload() + spec_be_bytes(value as nat, 8),
    {
        let mut p = self.proto_packet;
        push_be_bytes(&mut p, value as u128, 8);
        PacketBuilder { packet_id: self.packet_id, proto_packet: p }
    }

    pub fn add_bytes(self, value: Vec<u8>) -> (r: Self)
        ensures
            r.spec_packet_id() == self.spec_packet_id(),
            r.payload() == self.payload() + value@,
    {
        let mut p = self.proto_packet;
        let mut v = value;
        p.append(&mut v);
        PacketBuilder { packet_id: self.packet_id, proto_packet: p }
    }

    /// Append a 128-bit identifier as 16 big-endian bytes.
    pub fn add_uuid(self, value: u128) -> (r: Self)
        ensures
            r.spec_packet_id() == self.spec_packet_id(),
            r.payload() == self.payload() + spec_be_bytes(value as nat, 16),
    {
        let mut p = self.proto_packet;
        push_be_bytes(&mut p, value, 16);
        PacketBuilder { packet_id: self.packet_id, proto_packet: p }
    }

    /// Append a length-prefixed UTF-8 string of at most 32767 characters.
    pub fn add_string(self, string: &str) -> (r: Self)
        requires
            string@.len() <= 32767,
        ensures
            r.spec_packet_id() == self.spec_packet_id(),
            r.payload() == self.payload() + spec_mcstring_bytes(string@),
    {
        proof {
            lemma_encode_utf8_len(string@);
        }
        let mut sb = str_bytes_vec(string);
        let mut p = self.proto_packet;
        let mut lenb = encode_varint(sb.len() as i32);
        p.append(&mut lenb);
        p.append(&mut sb);
        PacketBuilder { packet_id: self.packet_id, proto_packet: p }
    }

    pub fn add_varint(self, value: i32) -> (r: Self)
        ensures
            r.spec_packet_id() == self.spec_packet_id(),
            r.payload() == self.payload() + spec_varint_bytes(value),
    {
        let mut p = self.proto_packet;
        let mut vb = encode_varint(value);
        p.append(&mut vb);
        PacketBuilder { packet_id: self.packet_id, proto_packet: p }
    }

    pub fn add_bool(self, value: bool) -> (r: Self)
        ensures
            r.spec_packet_id() == self.spec_packet_id(),
            r.payload() == self.payload() + seq![spec_bool_byte(value)],
    {
        let mut p = self.proto_packet;
        p.push(if value { 1 } else { 0 });
        PacketBuilder { packet_id: self.packet_id, proto_packet: p }
    }

    /// Frame the payload: total length, id, payload. Nothing is built when
    /// no id was set.
    pub fn build(self) -> (r: Option<Vec<u8>>)
        requires
            self.payload().len() + 5 <= i32::MAX,
        ensures
            match self.spec_packet_id() {
                Some(id) => r matches Some(v) && v@ == spec_frame(id, self.payload()),
                None => r is None,
            },
    {
        match self.packet_id {
            None => None,
            Some(id) => {
                let mut body = encode_varint(id);
                proof {
                    lemma_pow128_values();
                    lemma_varuint_bytes_len(i32_to_u32(id) as u64, 5);
                }
                let mut p = self.proto_packet;
                body.append(&mut p);
                let mut out = encode_varint(body.len() as i32);
                out.append(&mut body);
                Some(out)
            },
        }
    }
}

} // verus!
