//! Owned wire values: a decoded number or string together with the bytes
//! that encode it.

use vstd::prelude::*;
use vstd::utf8::*;
use crate::codec::{Reader, next_varint, next_varlong, next_string, encode_varint, encode_varlong, str_bytes_vec, spec_varint_bytes, spec_varlong_bytes, spec_take_varint, spec_take_varlong, spec_take_string, spec_mcstring_bytes, lemma_encode_utf8_len, lemma_varnum_core_consumes};
use crate::error::ServerError;

verus! {

/// Copy the first `n` bytes of `data` into an owned vector.
fn copy_prefix(data: &Vec<u8>, n: usize) -> (r: Vec<u8>)
    requires
        n <= data@.len(),
    ensures
        r@ == data@.take(n as int),
{
    let mut r: Vec<u8> = Vec::new();
    let mut i: usize = 0;
    while i < n
        invariant
            i <= n <= data@.len(),
            r@ =~= data@.take(i as int),
        decreases n - i,
    {
        r.push(data[i]);
        i = i + 1;
    }
    r
}

/// A signed 32-bit value together with its 1-5 byte VarInt encoding.
#[derive(Debug)]
pub struct VarInt {
    pub value: i32,
    pub bytes: Vec<u8>,
}

impl VarInt {
    /// Encode a value.
    pub fn new(value: i32) -> (r: Self)
        ensures
            r.value == value,
            r.bytes@ == spec_varint_bytes(value),
    {
        VarInt { value, bytes: encode_varint(value) }
    }

    /// Decode the VarInt at the head of `data`, keeping the bytes it spans.
    pub fn from(data: Vec<u8>) -> (r: Result<Self, ServerError>)
        ensures
            match spec_take_varint(data@) {
                Ok(p) => r matches Ok(v) && v.value == p.0 && v.bytes@ == data@.take(
                    data@.len() - p.1.len(),
                ),
                Err(e) => r == Err::<Self, ServerError>(e),
            },
    {
        let mut rd = Reader::new(data.as_slice());
        match next_varint(&mut rd) {
            Ok(value) => {
                proof {
                    lemma_varnum_core_consumes(data@, 0, 0, 5);
                }
                let consumed = data.len() - rd.len();
                let bytes = copy_prefix(&data, consumed);
                Ok(VarInt { value, bytes })
            },
            Err(e) => Err(e),
        }
    }
}

/// A signed 64-bit value together with its 1-10 byte VarLong encoding.
#[derive(Debug)]
pub struct VarLong {
    pub value: i64,
    pub bytes: Vec<u8>,
}

impl VarLong {
    /// Encode a value.
    pub fn new(value: i64) -> (r: Self)
        ensures
            r.value == value,
            r.bytes@ == spec_varlong_bytes(value),
    {
        VarLong { value, bytes: encode_varlong(value) }
    }

    /// Decode the VarLong at the head of `data`, keeping the bytes it spans.
    pub fn from(data: Vec<u8>) -> (r: Result<Self, ServerError>)
        ensures
            match spec_take_varlong(data@) {
                Ok(p) => r matches Ok(v) && v.value == p.0 && v.bytes@ == data@.take(
                    data@.len() - p.1.len(),
                ),
                Err(e) => r == Err::<Self, ServerError>(e),
            },
    {
        let mut rd = Reader::new(data.as_slice());
        match next_varlong(&mut rd) {
            Ok(value) => {
                proof {
                    lemma_varnum_core_consumes(data@, 0, 0, 10);
                }
                let consumed = data.len() - rd.len();
                let bytes = copy_prefix(&data, consumed);
                Ok(VarLong { value, bytes })
            },
            Err(e) => Err(e),
        }
    }
}

/// A string together with its wire form: VarInt byte count, then UTF-8.
#[derive(Debug)]
pub struct MCString {
    pub value: String,
    pub bytes: Vec<u8>,
}

impl MCString {
    /// Encode a string of at most 32767 characters.
    pub fn new(value: String) -> (r: Result<Self, ServerError>)
        requires
            value@.len() <= 32767,
        ensures
            r matches Ok(m) && m.value == value && m.bytes@ == spec_mcstring_bytes(value@),
    {
        proof {
            lemma_encode_utf8_len(value@);
        }
        let mut sb = str_bytes_vec(value.as_str());
        let mut bytes = encode_varint(sb.len() as i32);
        bytes.append(&mut sb);
        Ok(MCString { value, bytes })
    }

    /// Decode the string at the head of `data`, keeping the bytes it spans.
    pub fn from(data: Vec<u8>) -> (r: Result<Self, ServerError>)
        ensures
            match spec_take_string(data@) {
                Ok(p) => r matches Ok(m) && m.value@ == p.0 && m.bytes@ == data@.take(
                    data@.len() - p.1.len(),
                ),
                Err(e) => r == Err::<Self, ServerError>(e),
            },
    {
        let mut rd = Reader::new(data.as_slice());
        match next_string(&mut rd) {
            Ok(value) => {
                let consumed = data.len() - rd.len();
                let bytes = copy_prefix(&data, consumed);
                Ok(MCString { value, bytes })
            },
            Err(e) => Err(e),
        }
    }
}

} // verus!
