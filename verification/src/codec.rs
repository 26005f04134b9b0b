//! Pure byte-level codec: variable-length integers, big-endian fixed-width
//! integers, length-prefixed UTF-8 strings, and the frame splitter that
//! turns a byte stream into packets.
//!
//! Every decoder is specified exactly: a spec-level decoder says, for every
//! input, the value returned, the bytes consumed, and the error raised.

use vstd::prelude::*;
use vstd::utf8::*;
use crate::error::ServerError;

verus! {

// ---------------------------------------------------------------------------
// Two's-complement reinterpretations used throughout the codec.
// ---------------------------------------------------------------------------

pub open spec fn u32_to_i32(v: u32) -> i32 {
    if v <= i32::MAX as u32 {
        v as i32
    } else {
        (v - 0x1_0000_0000) as i32
    }
}

pub open spec fn i32_to_u32(v: i32) -> u32 {
    if v >= 0 {
        v as u32
    } else {
        (v + 0x1_0000_0000) as u32
    }
}

pub open spec fn u64_to_i64(v: u64) -> i64 {
    if v <= i64::MAX as u64 {
        v as i64
    } else {
        (v - 0x1_0000_0000_0000_0000) as i64
    }
}

pub open spec fn i64_to_u64(v: i64) -> u64 {
    if v >= 0 {
        v as u64
    } else {
        (v + 0x1_0000_0000_0000_0000) as u64
    }
}

pub fn u32_as_i32(v: u32) -> (r: i32)
    ensures
        r == u32_to_i32(v),
{
    if v <= 0x7fff_ffff {
        v as i32
    } else {
        ((v as i64) - 0x1_0000_0000) as i32
    }
}

pub fn i32_as_u32(v: i32) -> (r: u32)
    ensures
        r == i32_to_u32(v),
{
    if v >= 0 {
        v as u32
    } else {
        ((v as i64) + 0x1_0000_0000) as u32
    }
}

pub fn u64_as_i64(v: u64) -> (r: i64)
    ensures
        r == u64_to_i64(v),
{
    if v <= 0x7fff_ffff_ffff_ffff {
        v as i64
    } else {
        ((v as i128) - 0x1_0000_0000_0000_0000) as i64
    }
}

pub fn i64_as_u64(v: i64) -> (r: u64)
    ensures
        r == i64_to_u64(v),
{
    if v >= 0 {
        v as u64
    } else {
        ((v as i128) + 0x1_0000_0000_0000_0000) as u64
    }
}

// ---------------------------------------------------------------------------
// Powers used to state positional values of digits and bytes.
// ---------------------------------------------------------------------------

pub open spec fn pow128(i: nat) -> nat
    decreases i,
{
    if i == 0 {
        1
    } else {
        128 * pow128((i - 1) as nat)
    }
}

pub open spec fn pow256(i: nat) -> nat
    decreases i,
{
    if i == 0 {
        1
    } else {
        256 * pow256((i - 1) as nat)
    }
}

pub proof fn lemma_pow128_pos(i: nat)
    ensures
        pow128(i) >= 1,
    decreases i,
{
    if i > 0 {
        lemma_pow128_pos((i - 1) as nat);
    }
}

pub proof fn lemma_pow128_mono(a: nat, b: nat)
    requires
        a <= b,
    ensures
        pow128(a) <= pow128(b),
    decreases b,
{
    if a < b {
        lemma_pow128_mono(a, (b - 1) as nat);
        lemma_pow128_pos((b - 1) as nat);
    }
}

/// The concrete powers of 128 that the codec proofs lean on.
pub proof fn lemma_pow128_values()
    ensures
        pow128(0) == 1,
        pow128(1) == 0x80,
        pow128(2) == 0x4000,
        pow128(3) == 0x20_0000,
        pow128(4) == 0x1000_0000,
        pow128(5) == 0x8_0000_0000,
        pow128(9) == 0x8000_0000_0000_0000,
        pow128(10) == 0x40_0000_0000_0000_0000,
{
    assert(pow128(0) == 1);
    assert(pow128(1) == 128 * pow128(0));
    assert(pow128(2) == 128 * pow128(1));
    assert(pow128(3) == 128 * pow128(2));
    assert(pow128(4) == 128 * pow128(3));
    assert(pow128(5) == 128 * pow128(4));
    assert(pow128(6) == 128 * pow128(5));
    assert(pow128(7) == 128 * pow128(6));
    assert(pow128(8) == 128 * pow128(7));
    assert(pow128(9) == 128 * pow128(8));
    assert(pow128(10) == 128 * pow128(9));
}

pub proof fn lemma_pow256_pos(i: nat)
    ensures
        pow256(i) >= 1,
    decreases i,
{
    if i > 0 {
        lemma_pow256_pos((i - 1) as nat);
    }
}

// ---------------------------------------------------------------------------
// Variable-length integers (1-5 bytes for 32 bits, 1-10 bytes for 64 bits).
//
// Wire form: 7 data bits per byte, least-significant group first; the high
// bit of a byte set means that another byte follows.
// ---------------------------------------------------------------------------

/// Spec-level decoder core, shared by VarInt (`limit` 5) and VarLong
/// (`limit` 10): `i` bytes have been read so far into `acc`.
pub open spec fn spec_varnum_core(s: Seq<u8>, i: nat, acc: u64, limit: nat) -> Result<
    (u64, Seq<u8>),
    ServerError,
>
    decreases limit - i,
{
    if i >= limit {
        Err(ServerError::VarIntTooBig)
    } else if s.len() == 0 {
        Err(ServerError::EndOfPacket)
    } else {
        let b = s[0];
        let acc2 = (((acc + (b as nat % 0x80) * pow128(i)) % 0x1_0000_0000_0000_0000) as u64);
        if b < 0x80 {
            Ok((acc2, s.drop_first()))
        } else {
            spec_varnum_core(s.drop_first(), i + 1, acc2, limit)
        }
    }
}

/// Decode a VarInt from the front of `s`: the value and the remaining bytes,
/// or the error raised.
pub open spec fn spec_take_varint(s: Seq<u8>) -> Result<(i32, Seq<u8>), ServerError> {
    match spec_varnum_core(s, 0, 0, 5) {
        Ok(p) => Ok((u32_to_i32((p.0 % 0x1_0000_0000) as u32), p.1)),
        Err(e) => Err(e),
    }
}

/// Decode a VarLong from the front of `s`.
pub open spec fn spec_take_varlong(s: Seq<u8>) -> Result<(i64, Seq<u8>), ServerError> {
    match spec_varnum_core(s, 0, 0, 10) {
        Ok(p) => Ok((u64_to_i64(p.0), p.1)),
        Err(e) => Err(e),
    }
}

/// The encoding of an unsigned value in base-128 groups, low group first,
/// continuation bit on every byte but the last.
pub open spec fn spec_varuint_bytes(v: u64) -> Seq<u8>
    decreases v,
{
    if v < 0x80 {
        seq![v as u8]
    } else {
        seq![((v % 0x80) + 0x80) as u8] + spec_varuint_bytes(v / 0x80)
    }
}

/// The VarInt encoding of a signed 32-bit value: its two's-complement bits
/// read as unsigned.
pub open spec fn spec_varint_bytes(v: i32) -> Seq<u8> {
    spec_varuint_bytes(i32_to_u32(v) as u64)
}

/// The VarLong encoding of a signed 64-bit value.
pub open spec fn spec_varlong_bytes(v: i64) -> Seq<u8> {
    spec_varuint_bytes(i64_to_u64(v))
}

pub proof fn lemma_varuint_bytes_len(v: u64, n: nat)
    requires
        1 <= n,
        v < pow128(n),
    ensures
        1 <= spec_varuint_bytes(v).len() <= n,
    decreases v,
{
    if v >= 0x80 {
        assert(n >= 2) by {
            if n < 2 {
                assert(pow128(n) <= 128) by {
                    lemma_pow128_mono(n, 1);
                    lemma_pow128_values();
                };
            }
        };
        assert(v / 0x80 < pow128((n - 1) as nat)) by {
            assert(pow128(n) == 128 * pow128((n - 1) as nat));
        };
        lemma_varuint_bytes_len(v / 0x80, (n - 1) as nat);
    }
}

/// A VarInt takes one to five bytes.
pub proof fn lemma_varint_bytes_len(v: i32)
    ensures
        1 <= spec_varint_bytes(v).len() <= 5,
{
    lemma_pow128_values();
    lemma_varuint_bytes_len(i32_to_u32(v) as u64, 5);
}

/// A string's wire form takes at most five prefix bytes plus four bytes per
/// character.
pub proof fn lemma_mcstring_bytes_len(s: Seq<char>)
    requires
        s.len() <= 32767,
    ensures
        spec_mcstring_bytes(s).len() <= 5 + 4 * s.len(),
{
    lemma_encode_utf8_len(s);
    lemma_varint_bytes_len(encode_utf8(s).len() as i32);
}

/// Decoding an encoded value consumes exactly the encoding and yields the
/// value accumulated so far plus the encoded value at its position.
proof fn lemma_varnum_core_roundtrip(v: u64, rest: Seq<u8>, i: nat, acc: u64, limit: nat)
    requires
        i < limit,
        acc < pow128(i),
        acc + v * pow128(i) < pow128(limit),
        acc + v * pow128(i) < 0x1_0000_0000_0000_0000,
    ensures
        spec_varnum_core(spec_varuint_bytes(v) + rest, i, acc, limit) == Ok::<
            (u64, Seq<u8>),
            ServerError,
        >(((acc + v * pow128(i)) as u64, rest)),
    decreases v,
{
    lemma_pow128_pos(i);
    let s = spec_varuint_bytes(v) + rest;
    if v < 0x80 {
        let b = v as u8;
        assert(s[0] == b);
        assert(s.drop_first() =~= rest);
        assert((b as nat % 0x80) == v as nat);
        assert(acc + v * pow128(i) == acc + (b as nat % 0x80) * pow128(i));
    } else {
        let b = ((v % 0x80) + 0x80) as u8;
        assert(s[0] == b);
        assert(s.drop_first() =~= spec_varuint_bytes(v / 0x80) + rest);
        assert(b as nat % 0x80 == v as nat % 0x80);
        let acc2n = acc + (v as nat % 0x80) * pow128(i);
        // The new accumulator stays under the next power of 128.
        assert((v as nat % 0x80) * pow128(i) <= 127 * pow128(i)) by (nonlinear_arith)
            requires
                v as nat % 0x80 <= 127,
                pow128(i) >= 1,
        ;
        assert(pow128(i + 1) == 128 * pow128(i));
        assert(acc2n < pow128(i + 1));
        // Place value bookkeeping: peeling off the low 7 bits keeps the total.
        assert((v / 0x80) * pow128(i + 1) + acc2n == acc + v * pow128(i)) by (nonlinear_arith)
            requires
                pow128(i + 1) == 128 * pow128(i),
                acc2n == acc + (v as nat % 0x80) * pow128(i),
                v >= 0,
        ;
        // The encoding fits before the byte limit runs out.
        assert(128 * pow128(i) <= v * pow128(i)) by (nonlinear_arith)
            requires
                v >= 128,
                pow128(i) >= 1,
        ;
        assert(pow128(i + 1) <= acc + v * pow128(i));
        assert(i + 1 < limit) by {
            if i + 1 >= limit {
                lemma_pow128_mono(limit, i + 1);
            }
        };
        let acc2 = acc2n as u64;
        assert(acc2 == acc2n);
        lemma_varnum_core_roundtrip(v / 0x80, rest, i + 1, acc2, limit);
        assert(acc2 + (v / 0x80) * pow128(i + 1) == acc + v * pow128(i));
    }
}

/// Round trip for every 32-bit value: decoding the encoding yields the value
/// back, leaves exactly the trailing bytes, and the encoding is 1-5 bytes.
pub proof fn lemma_varint_roundtrip(v: i32, rest: Seq<u8>)
    ensures
        spec_take_varint(spec_varint_bytes(v) + rest) == Ok::<(i32, Seq<u8>), ServerError>(
            (v, rest),
        ),
        1 <= spec_varint_bytes(v).len() <= 5,
{
    let u = i32_to_u32(v) as u64;
    lemma_pow128_values();
    lemma_varnum_core_roundtrip(u, rest, 0, 0, 5);
    lemma_varuint_bytes_len(u, 5);
    assert(u32_to_i32(i32_to_u32(v)) == v);
}

/// Round trip for every 64-bit value: 1-10 bytes.
pub proof fn lemma_varlong_roundtrip(v: i64, rest: Seq<u8>)
    ensures
        spec_take_varlong(spec_varlong_bytes(v) + rest) == Ok::<(i64, Seq<u8>), ServerError>(
            (v, rest),
        ),
        1 <= spec_varlong_bytes(v).len() <= 10,
{
    let u = i64_to_u64(v);
    lemma_pow128_values();
    lemma_varnum_core_roundtrip(u, rest, 0, 0, 10);
    lemma_varuint_bytes_len(u, 10);
    assert(u64_to_i64(i64_to_u64(v)) == v);
}

/// A successful decode always consumes at least one byte.
pub proof fn lemma_varnum_core_consumes(s: Seq<u8>, i: nat, acc: u64, limit: nat)
    ensures
        spec_varnum_core(s, i, acc, limit) matches Ok(p) ==> p.1.len() < s.len(),
    decreases limit - i,
{
    if i < limit && s.len() > 0 {
        let b = s[0];
        let acc2 = (((acc + (b as nat % 0x80) * pow128(i)) % 0x1_0000_0000_0000_0000) as u64);
        if b >= 0x80 {
            lemma_varnum_core_consumes(s.drop_first(), i + 1, acc2, limit);
        }
    }
}

/// Adding bytes at the back does not change an already successful decode.
pub proof fn lemma_varnum_core_extend(s: Seq<u8>, more: Seq<u8>, i: nat, acc: u64, limit: nat)
    ensures
        spec_varnum_core(s, i, acc, limit) matches Ok(p) ==> spec_varnum_core(
            s + more,
            i,
            acc,
            limit,
        ) == Ok::<(u64, Seq<u8>), ServerError>((p.0, p.1 + more)),
    decreases limit - i,
{
    if i < limit && s.len() > 0 {
        let b = s[0];
        assert((s + more)[0] == b);
        assert((s + more).drop_first() =~= s.drop_first() + more);
        let acc2 = (((acc + (b as nat % 0x80) * pow128(i)) % 0x1_0000_0000_0000_0000) as u64);
        if b >= 0x80 {
            lemma_varnum_core_extend(s.drop_first(), more, i + 1, acc2, limit);
        }
    }
}

// ---------------------------------------------------------------------------
// Fixed-width big-endian values.
// ---------------------------------------------------------------------------

/// The value of a big-endian byte string.
pub open spec fn be_value(s: Seq<u8>) -> nat
    decreases s.len(),
{
    if s.len() == 0 {
        0
    } else {
        (be_value(s.drop_last()) * 256 + s.last()) as nat
    }
}

/// The `n`-byte big-endian form of `v` (low bytes of `v` only).
pub open spec fn spec_be_bytes(v: nat, n: nat) -> Seq<u8>
    decreases n,
{
    if n == 0 {
        seq![]
    } else {
        spec_be_bytes(v / 256, (n - 1) as nat).push((v % 256) as u8)
    }
}

pub proof fn lemma_be_bytes_len(v: nat, n: nat)
    ensures
        spec_be_bytes(v, n).len() == n,
    decreases n,
{
    if n > 0 {
        lemma_be_bytes_len(v / 256, (n - 1) as nat);
    }
}

pub proof fn lemma_be_value_bound(s: Seq<u8>)
    ensures
        be_value(s) < pow256(s.len()),
    decreases s.len(),
{
    if s.len() > 0 {
        lemma_be_value_bound(s.drop_last());
        assert(pow256(s.len()) == 256 * pow256((s.len() - 1) as nat));
        assert(be_value(s.drop_last()) * 256 + 255 < 256 * pow256((s.len() - 1) as nat))
            by (nonlinear_arith)
            requires
                be_value(s.drop_last()) < pow256((s.len() - 1) as nat),
        ;
    }
}

/// Round trip: the big-endian bytes of a value below `256^n` carry that value.
pub proof fn lemma_be_roundtrip(v: nat, n: nat)
    requires
        v < pow256(n),
    ensures
        be_value(spec_be_bytes(v, n)) == v,
    decreases n,
{
    if n > 0 {
        let s = spec_be_bytes(v, n);
        lemma_be_bytes_len(v / 256, (n - 1) as nat);
        assert(s.drop_last() =~= spec_be_bytes(v / 256, (n - 1) as nat));
        assert(v / 256 < pow256((n - 1) as nat)) by (nonlinear_arith)
            requires
                v < pow256(n),
                pow256(n) == 256 * pow256((n - 1) as nat),
        ;
        lemma_be_roundtrip(v / 256, (n - 1) as nat);
    } else {
        assert(v == 0);
    }
}

/// Take exactly `n` bytes off the front.
pub open spec fn spec_take_bytes(s: Seq<u8>, n: nat) -> Result<(Seq<u8>, Seq<u8>), ServerError> {
    if s.len() < n {
        Err(ServerError::EndOfPacket)
    } else {
        Ok((s.take(n as int), s.skip(n as int)))
    }
}

pub open spec fn spec_take_u8(s: Seq<u8>) -> Result<(u8, Seq<u8>), ServerError> {
    match spec_take_bytes(s, 1) {
        Ok(p) => Ok((p.0[0], p.1)),
        Err(e) => Err(e),
    }
}

pub open spec fn spec_take_u16(s: Seq<u8>) -> Result<(u16, Seq<u8>), ServerError> {
    match spec_take_bytes(s, 2) {
        Ok(p) => Ok((be_value(p.0) as u16, p.1)),
        Err(e) => Err(e),
    }
}

pub open spec fn spec_take_u32(s: Seq<u8>) -> Result<(u32, Seq<u8>), ServerError> {
    match spec_take_bytes(s, 4) {
        Ok(p) => Ok((be_value(p.0) as u32, p.1)),
        Err(e) => Err(e),
    }
}

pub open spec fn spec_take_u64(s: Seq<u8>) -> Result<(u64, Seq<u8>), ServerError> {
    match spec_take_bytes(s, 8) {
        Ok(p) => Ok((be_value(p.0) as u64, p.1)),
        Err(e) => Err(e),
    }
}

pub open spec fn spec_take_u128(s: Seq<u8>) -> Result<(u128, Seq<u8>), ServerError> {
    match spec_take_bytes(s, 16) {
        Ok(p) => Ok((be_value(p.0) as u128, p.1)),
        Err(e) => Err(e),
    }
}

/// A boolean field is one byte; any nonzero byte reads as true.
pub open spec fn spec_take_bool(s: Seq<u8>) -> Result<(bool, Seq<u8>), ServerError> {
    match spec_take_u8(s) {
        Ok(p) => Ok((p.0 != 0, p.1)),
        Err(e) => Err(e),
    }
}

// ---------------------------------------------------------------------------
// Length-prefixed UTF-8 strings.
// ---------------------------------------------------------------------------

/// Decode a length-prefixed UTF-8 string: VarInt byte count, then exactly
/// that many bytes, which must be valid UTF-8; a missing tail or a negative
/// count is a premature end.
pub open spec fn spec_take_string(s: Seq<u8>) -> Result<(Seq<char>, Seq<u8>), ServerError> {
    match spec_take_varint(s) {
        Ok(p) => {
            let len = p.0;
            let rest = p.1;
            if len < 0 || rest.len() < len {
                Err(ServerError::EndOfPacket)
            } else {
                let sb = rest.take(len as int);
                if valid_utf8(sb) {
                    Ok((decode_utf8(sb), rest.skip(len as int)))
                } else {
                    Err(ServerError::InvalidUtf8)
                }
            }
        },
        Err(e) => Err(e),
    }
}

/// The wire form of a string: VarInt byte count, then the UTF-8 bytes.
pub open spec fn spec_mcstring_bytes(s: Seq<char>) -> Seq<u8>
    recommends
        encode_utf8(s).len() <= i32::MAX,
{
    spec_varint_bytes(encode_utf8(s).len() as i32) + encode_utf8(s)
}

/// A UTF-8 encoding takes between one and four bytes per character.
pub proof fn lemma_encode_utf8_len(s: Seq<char>)
    ensures
        s.len() <= encode_utf8(s).len() <= 4 * s.len(),
    decreases s.len(),
{
    if s.len() > 0 {
        lemma_encode_utf8_len(s.drop_first());
    }
}

/// Round trip for every string of at most 32767 characters: decoding the
/// encoding yields the same characters and leaves exactly the trailing bytes.
pub proof fn lemma_mcstring_roundtrip(s: Seq<char>, rest: Seq<u8>)
    requires
        s.len() <= 32767,
    ensures
        spec_take_string(spec_mcstring_bytes(s) + rest) == Ok::<(Seq<char>, Seq<u8>), ServerError>(
            (s, rest),
        ),
{
    broadcast use encode_utf8_valid_utf8, encode_utf8_decode_utf8;

    let eb = encode_utf8(s);
    lemma_encode_utf8_len(s);
    let len = eb.len() as i32;
    lemma_varint_roundtrip(len, eb + rest);
    assert(spec_mcstring_bytes(s) + rest =~= spec_varint_bytes(len) + (eb + rest));
    assert((eb + rest).take(len as int) =~= eb);
    assert((eb + rest).skip(len as int) =~= rest);
}

// ---------------------------------------------------------------------------
// Exec-side cursor over a byte slice.
// ---------------------------------------------------------------------------

/// A read cursor over packet data; decoders advance it as they consume bytes.
pub struct Reader<'a> {
    pub data: &'a [u8],
    pub pos: usize,
}

impl<'a> Reader<'a> {
    /// The bytes not yet consumed.
    pub open spec fn remaining(&self) -> Seq<u8> {
        self.data@.skip(self.pos as int)
    }

    pub open spec fn wf(&self) -> bool {
        self.pos <= self.data@.len()
    }

    pub fn new(data: &'a [u8]) -> (r: Reader<'a>)
        ensures
            r.wf(),
            r.remaining() == data@,
            r.data == data,
    {
        Reader { data, pos: 0 }
    }

    pub fn len(&self) -> (r: usize)
        requires
            self.wf(),
        ensures
            r == self.remaining().len(),
    {
        self.data.len() - self.pos
    }

    /// Read one byte, known to be present.
    pub fn read_byte(&mut self) -> (b: u8)
        requires
            old(self).wf(),
            old(self).remaining().len() > 0,
        ensures
            final(self).wf(),
            final(self).data == old(self).data,
            b == old(self).remaining()[0],
            final(self).remaining() == old(self).remaining().drop_first(),
    {
        let b = self.data[self.pos];
        self.pos = self.pos + 1;
        proof {
            assert(self.remaining() =~= old(self).remaining().drop_first());
        }
        b
    }

    /// Read exactly `n` bytes, known to be present.
    pub fn read_bytes(&mut self, n: usize) -> (r: Vec<u8>)
        requires
            old(self).wf(),
            old(self).remaining().len() >= n,
        ensures
            final(self).wf(),
            final(self).data == old(self).data,
            r@ == old(self).remaining().take(n as int),
            final(self).remaining() == old(self).remaining().skip(n as int),
    {
        let mut r: Vec<u8> = Vec::new();
        let mut j: usize = 0;
        while j < n
            invariant
                j <= n,
                self.wf(),
                self.data == old(self).data,
                old(self).remaining().len() >= n,
                r@ =~= old(self).remaining().take(j as int),
                self.remaining() =~= old(self).remaining().skip(j as int),
            decreases n - j,
        {
            let b = self.read_byte();
            r.push(b);
            j = j + 1;
            proof {
                assert(r@ =~= old(self).remaining().take(j as int));
                assert(self.remaining() =~= old(self).remaining().skip(j as int));
            }
        }
        r
    }
}

// ---------------------------------------------------------------------------
// Exec decoders, each exact against its spec decoder.
// ---------------------------------------------------------------------------

/// Decode a VarInt at the cursor.
pub fn next_varint(data: &mut Reader) -> (r: Result<i32, ServerError>)
    requires
        old(data).wf(),
    ensures
        final(data).wf(),
        final(data).data == old(data).data,
        match spec_take_varint(old(data).remaining()) {
            Ok(p) => r == Ok::<i32, ServerError>(p.0) && final(data).remaining() == p.1,
            Err(e) => r == Err::<i32, ServerError>(e),
        },
{
    let ghost s0 = old(data).remaining();
    let mut i: usize = 0;
    let mut acc: u64 = 0;
    let mut mult: u64 = 1;
    loop
        invariant
            s0 == old(data).remaining(),
            data.wf(),
            data.data == old(data).data,
            i <= 5,
            mult == pow128(i as nat),
            acc < pow128(i as nat),
            spec_varnum_core(s0, 0, 0, 5) == spec_varnum_core(
                data.remaining(),
                i as nat,
                acc,
                5,
            ),
        decreases 5 - i,
    {
        proof {
            lemma_pow128_values();
            lemma_pow128_mono(i as nat, 5);
            lemma_pow128_pos(i as nat);
        }
        if i >= 5 {
            return Err(ServerError::VarIntTooBig);
        }
        if data.len() == 0 {
            return Err(ServerError::EndOfPacket);
        }
        let b = data.read_byte();
        proof {
            assert((b as nat % 0x80) * pow128(i as nat) <= 127 * pow128(i as nat))
                by (nonlinear_arith)
                requires
                    b as nat % 0x80 <= 127,
                    pow128(i as nat) >= 1,
            ;
            assert(pow128(i as nat + 1) == 128 * pow128(i as nat));
        }
        acc = acc + ((b % 0x80) as u64) * mult;
        if b < 0x80 {
            let v32 = (acc % 0x1_0000_0000) as u32;
            return Ok(u32_as_i32(v32));
        }
        i = i + 1;
        mult = mult * 0x80;
    }
}

/// Decode a VarLong at the cursor.
pub fn next_varlong(data: &mut Reader) -> (r: Result<i64, ServerError>)
    requires
        old(data).wf(),
    ensures
        final(data).wf(),
        final(data).data == old(data).data,
        match spec_take_varlong(old(data).remaining()) {
            Ok(p) => r == Ok::<i64, ServerError>(p.0) && final(data).remaining() == p.1,
            Err(e) => r == Err::<i64, ServerError>(e),
        },
{
    let ghost s0 = old(data).remaining();
    let mut i: usize = 0;
    let mut acc: u64 = 0;
    let mut mult: u64 = 1;
    loop
        invariant
            s0 == old(data).remaining(),
            data.wf(),
            data.data == old(data).data,
            i <= 10,
            i < 10 ==> mult == pow128(i as nat),
            acc < pow128(i as nat),
            spec_varnum_core(s0, 0, 0, 10) == spec_varnum_core(
                data.remaining(),
                i as nat,
                acc,
                10,
            ),
        decreases 10 - i,
    {
        proof {
            lemma_pow128_values();
            lemma_pow128_mono(i as nat, 10);
            lemma_pow128_pos(i as nat);
        }
        if i >= 10 {
            return Err(ServerError::VarIntTooBig);
        }
        if data.len() == 0 {
            return Err(ServerError::EndOfPacket);
        }
        let b = data.read_byte();
        proof {
            assert((b as nat % 0x80) * pow128(i as nat) <= 127 * pow128(i as nat))
                by (nonlinear_arith)
                requires
                    b as nat % 0x80 <= 127,
                    pow128(i as nat) >= 1,
            ;
            assert(pow128(i as nat + 1) == 128 * pow128(i as nat));
            
        }
        proof {
            assert(acc as nat + (b as nat % 0x80) * pow128(i as nat) < pow128(i as nat + 1));
            lemma_pow128_mono(i as nat + 1, 10);
        }
        let sum = (acc as u128) + ((b % 0x80) as u128) * (mult as u128);
        acc = (sum % 0x1_0000_0000_0000_0000) as u64;
        if b < 0x80 {
            return Ok(u64_as_i64(acc));
        }
        i = i + 1;
        if i < 10 {
            mult = mult * 0x80;
        }
    }
}

/// A decoded character sequence is no longer than the bytes it came from.
pub proof fn lemma_decode_utf8_len(b: Seq<u8>)
    requires
        valid_utf8(b),
    ensures
        decode_utf8(b).len() <= b.len(),
    decreases b.len(),
{
    if b.len() > 0 {
        assert(length_of_first_scalar(b) >= 1);
        lemma_decode_utf8_len(pop_first_scalar(b));
    }
}

/// A string decoded from a buffer has no more characters than the buffer
/// has bytes.
pub proof fn lemma_take_string_len(s: Seq<u8>)
    ensures
        spec_take_string(s) matches Ok(p) ==> p.0.len() <= s.len(),
{
    match spec_take_varint(s) {
        Ok(q) => {
            lemma_varnum_core_consumes(s, 0, 0, 5);
            let len = q.0;
            let rest = q.1;
            if 0 <= len <= rest.len() {
                let sb = rest.take(len as int);
                if valid_utf8(sb) {
                    lemma_decode_utf8_len(sb);
                }
            }
        },
        Err(_) => {},
    }
}

/// Re-encoding a decoded string gives back the bytes, so its byte length is
/// what was decoded.
pub proof fn lemma_take_string_byte_len(s: Seq<u8>)
    ensures
        spec_take_string(s) matches Ok(p) ==> encode_utf8(p.0).len() <= s.len(),
{
    match spec_take_varint(s) {
        Ok(q) => {
            lemma_varnum_core_consumes(s, 0, 0, 5);
            let len = q.0;
            let rest = q.1;
            if 0 <= len <= rest.len() {
                let sb = rest.take(len as int);
                if valid_utf8(sb) {
                    decode_utf8_encode_utf8(sb);
                }
            }
        },
        Err(_) => {},
    }
}

// ---------------------------------------------------------------------------
// Exec encoders.
// ---------------------------------------------------------------------------

/// Encode an unsigned value in base-128 groups, low group first.
pub fn encode_varuint(v0: u64) -> (r: Vec<u8>)
    ensures
        r@ == spec_varuint_bytes(v0),
{
    let mut v = v0;
    let mut out: Vec<u8> = Vec::new();
    while v >= 0x80
        invariant
            spec_varuint_bytes(v0) =~= out@ + spec_varuint_bytes(v),
        decreases v,
    {
        let ghost vpre = v;
        out.push(((v % 0x80) + 0x80) as u8);
        v = v / 0x80;
        proof {
            assert(spec_varuint_bytes(vpre) =~= seq![
                (((vpre % 0x80) + 0x80) as u8),
            ] + spec_varuint_bytes(vpre / 0x80));
            assert(spec_varuint_bytes(v0) =~= out@ + spec_varuint_bytes(v));
        }
    }
    out.push(v as u8);
    proof {
        assert(spec_varuint_bytes(v) =~= seq![(v as u8)]);
        assert(out@ =~= spec_varuint_bytes(v0));
    }
    out
}

/// Encode a signed 32-bit value as a VarInt (1-5 bytes).
pub fn encode_varint(v: i32) -> (r: Vec<u8>)
    ensures
        r@ == spec_varint_bytes(v),
{
    encode_varuint(i32_as_u32(v) as u64)
}

/// Encode a signed 64-bit value as a VarLong (1-10 bytes).
pub fn encode_varlong(v: i64) -> (r: Vec<u8>)
    ensures
        r@ == spec_varlong_bytes(v),
{
    encode_varuint(i64_as_u64(v))
}

// ---------------------------------------------------------------------------
// Exec decoders for fixed-width fields.
// ---------------------------------------------------------------------------

/// Read `n` big-endian bytes (at most 16) as an unsigned value.
fn next_be(data: &mut Reader, n: usize) -> (r: Result<u128, ServerError>)
    requires
        old(data).wf(),
        n <= 16,
    ensures
        final(data).wf(),
        final(data).data == old(data).data,
        match spec_take_bytes(old(data).remaining(), n as nat) {
            Ok(p) => r == Ok::<u128, ServerError>(be_value(p.0) as u128)
                && final(data).remaining() == p.1,
            Err(e) => r == Err::<u128, ServerError>(e),
        },
{
    let ghost s0 = old(data).remaining();
    if data.len() < n {
        return Err(ServerError::EndOfPacket);
    }
    let mut acc: u128 = 0;
    let mut j: usize = 0;
    while j < n
        invariant
            s0 == old(data).remaining(),
            data.wf(),
            data.data == old(data).data,
            j <= n <= 16,
            s0.len() >= n,
            data.remaining() == s0.skip(j as int),
            acc == be_value(s0.take(j as int)),
            acc < pow256(j as nat),
        decreases n - j,
    {
        let b = data.read_byte();
        proof {
            assert(s0.take(j + 1).drop_last() =~= s0.take(j as int));
            assert(s0.take(j + 1).last() == s0[j as int]);
            assert(pow256(j as nat + 1) == 256 * pow256(j as nat));
            assert(acc * 256 + 255 < 256 * pow256(j as nat)) by (nonlinear_arith)
                requires
                    acc < pow256(j as nat),
            ;
            lemma_pow256_values();
            lemma_pow256_le(j as nat + 1, 16);
            assert(s0.skip(j as int).drop_first() =~= s0.skip(j + 1));
        }
        acc = acc * 256 + (b as u128);
        j = j + 1;
    }
    proof {
        assert(s0.take(n as int) =~= s0.take(n as int));
    }
    Ok(acc)
}

/// Concrete powers of 256 used for overflow bounds.
proof fn lemma_pow256_values()
    ensures
        pow256(1) == 0x100,
        pow256(2) == 0x1_0000,
        pow256(4) == 0x1_0000_0000,
        pow256(8) == 0x1_0000_0000_0000_0000,
        pow256(15) == 0x1000000_0000_0000_0000_0000_0000_0000,
        pow256(16) == 0x1_0000_0000_0000_0000_0000_0000_0000_0000,
{
    assert(pow256(0) == 1);
    assert(pow256(1) == 256 * pow256(0));
    assert(pow256(2) == 256 * pow256(1));
    assert(pow256(3) == 256 * pow256(2));
    assert(pow256(4) == 256 * pow256(3));
    assert(pow256(5) == 256 * pow256(4));
    assert(pow256(6) == 256 * pow256(5));
    assert(pow256(7) == 256 * pow256(6));
    assert(pow256(8) == 256 * pow256(7));
    assert(pow256(9) == 256 * pow256(8));
    assert(pow256(10) == 256 * pow256(9));
    assert(pow256(11) == 256 * pow256(10));
    assert(pow256(12) == 256 * pow256(11));
    assert(pow256(13) == 256 * pow256(12));
    assert(pow256(14) == 256 * pow256(13));
    assert(pow256(15) == 256 * pow256(14));
    assert(pow256(16) == 256 * pow256(15));
}

proof fn lemma_pow256_le(a: nat, b: nat)
    requires
        a <= b,
    ensures
        pow256(a) <= pow256(b),
    decreases b,
{
    if a < b {
        lemma_pow256_le(a, (b - 1) as nat);
        lemma_pow256_pos((b - 1) as nat);
    }
}

/// Read one byte as an unsigned 8-bit value.
pub fn next_u8(data: &mut Reader) -> (r: Result<u8, ServerError>)
    requires
        old(data).wf(),
    ensures
        final(data).wf(),
        final(data).data == old(data).data,
        match spec_take_u8(old(data).remaining()) {
            Ok(p) => r == Ok::<u8, ServerError>(p.0) && final(data).remaining() == p.1,
            Err(e) => r == Err::<u8, ServerError>(e),
        },
{
    let ghost s0 = old(data).remaining();
    match next_be(data, 1) {
        Ok(v) => {
            proof {
                let b = s0.take(1);
                assert(b.drop_last() =~= Seq::<u8>::empty());
                assert(be_value(Seq::<u8>::empty()) == 0);
                assert(be_value(b) == be_value(b.drop_last()) * 256 + b.last());
                assert(b.last() == b[0]);
            }
            Ok(v as u8)
        },
        Err(e) => Err(e),
    }
}

/// Read two big-endian bytes as an unsigned 16-bit value.
pub fn next_u16(data: &mut Reader) -> (r: Result<u16, ServerError>)
    requires
        old(data).wf(),
    ensures
        final(data).wf(),
        final(data).data == old(data).data,
        match spec_take_u16(old(data).remaining()) {
            Ok(p) => r == Ok::<u16, ServerError>(p.0) && final(data).remaining() == p.1,
            Err(e) => r == Err::<u16, ServerError>(e),
        },
{
    let ghost s0 = old(data).remaining();
    match next_be(data, 2) {
        Ok(v) => {
            proof {
                lemma_be_value_bound(s0.take(2));
                lemma_pow256_values();
            }
            Ok(v as u16)
        },
        Err(e) => Err(e),
    }
}

/// Read four big-endian bytes as an unsigned 32-bit value.
pub fn next_u32(data: &mut Reader) -> (r: Result<u32, ServerError>)
    requires
        old(data).wf(),
    ensures
        final(data).wf(),
        final(data).data == old(data).data,
        match spec_take_u32(old(data).remaining()) {
            Ok(p) => r == Ok::<u32, ServerError>(p.0) && final(data).remaining() == p.1,
            Err(e) => r == Err::<u32, ServerError>(e),
        },
{
    let ghost s0 = old(data).remaining();
    match next_be(data, 4) {
        Ok(v) => {
            proof {
                lemma_be_value_bound(s0.take(4));
                lemma_pow256_values();
            }
            Ok(v as u32)
        },
        Err(e) => Err(e),
    }
}

/// Read eight big-endian bytes as an unsigned 64-bit value.
pub fn next_u64(data: &mut Reader) -> (r: Result<u64, ServerError>)
    requires
        old(data).wf(),
    ensures
        final(data).wf(),
        final(data).data == old(data).data,
        match spec_take_u64(old(data).remaining()) {
            Ok(p) => r == Ok::<u64, ServerError>(p.0) && final(data).remaining() == p.1,
            Err(e) => r == Err::<u64, ServerError>(e),
        },
{
    let ghost s0 = old(data).remaining();
    match next_be(data, 8) {
        Ok(v) => {
            proof {
                lemma_be_value_bound(s0.take(8));
                lemma_pow256_values();
            }
            Ok(v as u64)
        },
        Err(e) => Err(e),
    }
}

/// Read sixteen big-endian bytes as an unsigned 128-bit value.
pub fn next_u128(data: &mut Reader) -> (r: Result<u128, ServerError>)
    requires
        old(data).wf(),
    ensures
        final(data).wf(),
        final(data).data == old(data).data,
        match spec_take_u128(old(data).remaining()) {
            Ok(p) => r == Ok::<u128, ServerError>(p.0) && final(data).remaining() == p.1,
            Err(e) => r == Err::<u128, ServerError>(e),
        },
{
    next_be(data, 16)
}

/// Read one byte as a boolean: any nonzero byte is true.
pub fn next_bool(data: &mut Reader) -> (r: Result<bool, ServerError>)
    requires
        old(data).wf(),
    ensures
        final(data).wf(),
        final(data).data == old(data).data,
        match spec_take_bool(old(data).remaining()) {
            Ok(p) => r == Ok::<bool, ServerError>(p.0) && final(data).remaining() == p.1,
            Err(e) => r == Err::<bool, ServerError>(e),
        },
{
    match next_u8(data) {
        Ok(b) => Ok(b != 0),
        Err(e) => Err(e),
    }
}

// ---------------------------------------------------------------------------
// Strings.
// ---------------------------------------------------------------------------

/// Relies on `String::from_utf8`: it succeeds exactly on valid UTF-8 input
/// and yields the character sequence that the bytes encode, as vstd's
/// UTF-8 model states it.
#[verifier::external_body]
fn string_from_utf8(bytes: Vec<u8>) -> (r: Option<String>)
    ensures
        r is Some <==> valid_utf8(bytes@),
        r matches Some(s) ==> s@ == decode_utf8(bytes@),
{
    String::from_utf8(bytes).ok()
}

/// Read a length-prefixed UTF-8 string.
pub fn next_string(data: &mut Reader) -> (r: Result<String, ServerError>)
    requires
        old(data).wf(),
    ensures
        final(data).wf(),
        final(data).data == old(data).data,
        match spec_take_string(old(data).remaining()) {
            Ok(p) => r matches Ok(s) && s@ == p.0 && final(data).remaining() == p.1,
            Err(e) => r == Err::<String, ServerError>(e),
        },
{
    let len = match next_varint(data) {
        Ok(v) => v,
        Err(e) => { return Err(e); },
    };
    if len < 0 {
        return Err(ServerError::EndOfPacket);
    }
    let n = len as usize;
    if data.len() < n {
        return Err(ServerError::EndOfPacket);
    }
    let bytes = data.read_bytes(n);
    match string_from_utf8(bytes) {
        Some(s) => Ok(s),
        None => Err(ServerError::InvalidUtf8),
    }
}

pub open spec fn u8_to_i8(v: u8) -> i8 {
    if v <= i8::MAX as u8 {
        v as i8
    } else {
        (v - 0x100) as i8
    }
}

pub fn u8_as_i8(v: u8) -> (r: i8)
    ensures
        r == u8_to_i8(v),
{
    if v <= 0x7f {
        v as i8
    } else {
        ((v as i16) - 0x100) as i8
    }
}

pub open spec fn i16_to_u16(v: i16) -> u16 {
    if v >= 0 {
        v as u16
    } else {
        (v + 0x1_0000) as u16
    }
}

pub fn i16_as_u16(v: i16) -> (r: u16)
    ensures
        r == i16_to_u16(v),
{
    if v >= 0 {
        v as u16
    } else {
        ((v as i32) + 0x1_0000) as u16
    }
}

/// Byte `j` of the `n`-byte big-endian form holds the digit at place
/// `n - 1 - j`.
pub proof fn lemma_be_bytes_index(v: nat, n: nat, j: int)
    requires
        0 <= j < n,
    ensures
        spec_be_bytes(v, n)[j] == ((v / pow256((n - 1 - j) as nat)) % 256) as u8,
    decreases n,
{
    lemma_be_bytes_len(v / 256, (n - 1) as nat);
    let s = spec_be_bytes(v, n);
    let sp = spec_be_bytes(v / 256, (n - 1) as nat);
    assert(s == sp.push((v % 256) as u8));
    if j == n - 1 {
        assert(s[j] == (v % 256) as u8);
        assert(pow256(0) == 1);
        assert(v / pow256(0) == v);
    } else {
        lemma_be_bytes_index(v / 256, (n - 1) as nat, j);
        assert(s[j] == sp[j]);
        assert(pow256((n - 1 - j) as nat) == 256 * pow256((n - 2 - j) as nat));
        lemma_pow256_pos((n - 2 - j) as nat);
        vstd::arithmetic::div_mod::lemma_div_denominator(
            v as int,
            256,
            pow256((n - 2 - j) as nat) as int,
        );
        assert((v / 256) / pow256((n - 2 - j) as nat) == v / pow256((n - 1 - j) as nat));
    }
}

/// Append the `n`-byte big-endian form of `v` (at most 16 bytes).
pub fn push_be_bytes(out: &mut Vec<u8>, v: u128, n: usize)
    requires
        n <= 16,
    ensures
        final(out)@ == old(out)@ + spec_be_bytes(v as nat, n as nat),
{
    if n == 0 {
        proof {
            assert(out@ =~= old(out)@ + spec_be_bytes(v as nat, 0));
        }
        return ;
    }
    let mut div: u128 = 1;
    let mut j: usize = 0;
    while j < n - 1
        invariant
            n <= 16,
            j <= n - 1,
            div == pow256(j as nat),
        decreases n - j,
    {
        proof {
            lemma_pow256_values();
            lemma_pow256_le(j as nat + 1, 15);
        }
        div = div * 256;
        j = j + 1;
    }
    let mut k: usize = 0;
    while k < n
        invariant
            n <= 16,
            k <= n,
            k < n ==> div == pow256((n - 1 - k) as nat),
            out@ == old(out)@ + Seq::new(
                k as nat,
                |t: int| ((v as nat / pow256((n - 1 - t) as nat)) % 256) as u8,
            ),
        decreases n - k,
    {
        proof {
            lemma_pow256_pos((n - 1 - k) as nat);
        }
        let b = ((v / div) % 256) as u8;
        out.push(b);
        proof {
            if k + 1 < n {
                assert(pow256((n - 1 - k) as nat) == 256 * pow256((n - 2 - k) as nat));
                lemma_pow256_pos((n - 2 - k) as nat);
            }
            assert(out@ =~= old(out)@ + Seq::new(
                (k + 1) as nat,
                |t: int| ((v as nat / pow256((n - 1 - t) as nat)) % 256) as u8,
            ));
        }
        div = div / 256;
        k = k + 1;
    }
    proof {
        lemma_be_bytes_len(v as nat, n as nat);
        assert forall|t: int| 0 <= t < n implies spec_be_bytes(v as nat, n as nat)[t] == ((
        v as nat / pow256((n - 1 - t) as nat)) % 256) as u8 by {
            lemma_be_bytes_index(v as nat, n as nat, t);
        };
        assert(Seq::new(
            n as nat,
            |t: int| ((v as nat / pow256((n - 1 - t) as nat)) % 256) as u8,
        ) =~= spec_be_bytes(v as nat, n as nat));
    }
}

/// Copy the UTF-8 bytes of a string into an owned vector.
pub fn str_bytes_vec(s: &str) -> (r: Vec<u8>)
    ensures
        r@ == encode_utf8(s@),
{
    let bs = s.as_bytes();
    let mut r: Vec<u8> = Vec::new();
    let mut i: usize = 0;
    while i < bs.len()
        invariant
            i <= bs@.len(),
            bs@ == encode_utf8(s@),
            r@ =~= bs@.take(i as int),
        decreases bs@.len() - i,
    {
        r.push(bs[i]);
        i = i + 1;
    }
    proof {
        assert(r@ =~= bs@);
    }
    r
}

// ---------------------------------------------------------------------------
// Framing: splitting a byte stream into length-prefixed frames.
// ---------------------------------------------------------------------------

/// Split the first complete frame off the buffer, length prefix included,
/// or say that the buffer does not yet hold a complete frame.
pub open spec fn spec_extract_frame(buf: Seq<u8>) -> Option<(Seq<u8>, Seq<u8>)> {
    match spec_take_varint(buf) {
        Ok(p) => {
            let len = p.0;
            let rest = p.1;
            if len >= 0 && rest.len() >= len {
                let consumed = buf.len() - rest.len() + len;
                Some((buf.take(consumed as int), buf.skip(consumed as int)))
            } else {
                None
            }
        },
        Err(_) => None,
    }
}

/// All frames extractable from the buffer, in order, and the leftover bytes.
pub open spec fn spec_drain(buf: Seq<u8>) -> (Seq<Seq<u8>>, Seq<u8>)
    decreases buf.len(),
    when buf.len() >= 0
    via spec_drain_dec
{
    match spec_extract_frame(buf) {
        Some(p) => {
            let r = spec_drain(p.1);
            (seq![p.0] + r.0, r.1)
        },
        None => (seq![], buf),
    }
}

#[via_fn]
proof fn spec_drain_dec(buf: Seq<u8>) {
    if spec_extract_frame(buf) matches Some(p) {
        lemma_varnum_core_consumes(buf, 0, 0, 5);
    }
}

/// A frame is well-formed when its payload length matches its prefix.
pub open spec fn spec_frame_wf(frame: Seq<u8>) -> bool {
    match spec_take_varint(frame) {
        Ok(p) => p.0 >= 0 && p.1.len() == p.0,
        Err(_) => false,
    }
}

/// A well-formed frame at the head of a buffer is extracted exactly,
/// whatever follows it.
pub proof fn lemma_extract_well_formed_frame(frame: Seq<u8>, rest: Seq<u8>)
    requires
        spec_frame_wf(frame),
    ensures
        spec_extract_frame(frame + rest) == Some((frame, rest)),
{
    lemma_varnum_core_extend(frame, rest, 0, 0, 5);
    let p = spec_take_varint(frame)->Ok_0;
    let consumed = (frame + rest).len() - (p.1 + rest).len() + p.0;
    assert(consumed == frame.len());
    assert((frame + rest).take(frame.len() as int) =~= frame);
    assert((frame + rest).skip(frame.len() as int) =~= rest);
}

/// Draining a buffer that starts with a well-formed frame yields that frame
/// first, then whatever the remainder yields.
pub proof fn lemma_drain_well_formed_frame(frame: Seq<u8>, rest: Seq<u8>)
    requires
        spec_frame_wf(frame),
    ensures
        spec_drain(frame + rest).0 == seq![frame] + spec_drain(rest).0,
        spec_drain(frame + rest).1 == spec_drain(rest).1,
{
    lemma_extract_well_formed_frame(frame, rest);
}

/// No frame is observed before its last byte has arrived: a strict prefix
/// of a well-formed frame yields nothing.
pub proof fn lemma_frame_needs_last_byte(frame: Seq<u8>, i: int)
    requires
        spec_frame_wf(frame),
        0 <= i < frame.len(),
    ensures
        spec_extract_frame(frame.take(i)) is None,
{
    let prefix = frame.take(i);
    assert(frame =~= prefix + frame.skip(i));
    match spec_take_varint(prefix) {
        Ok(p) => {
            lemma_varnum_core_extend(prefix, frame.skip(i), 0, 0, 5);
            lemma_varnum_core_consumes(prefix, 0, 0, 5);
            let pf = spec_take_varint(frame)->Ok_0;
            assert(pf.0 == p.0 && pf.1 == p.1 + frame.skip(i));
            // The whole frame holds prefix bytes plus exactly p.0 payload
            // bytes, so the strict prefix is short of payload.
            assert(p.1.len() < p.0);
        },
        Err(_) => {},
    }
}

/// Feeding the stream in two pieces extracts the same frames as feeding it
/// whole: what the first piece yields, plus what the leftover joined with
/// the second piece yields.
pub proof fn lemma_drain_extend(buf: Seq<u8>, more: Seq<u8>)
    ensures
        spec_drain(buf + more).0 == spec_drain(buf).0 + spec_drain(spec_drain(buf).1 + more).0,
        spec_drain(buf + more).1 == spec_drain(spec_drain(buf).1 + more).1,
    decreases buf.len(),
{
    match spec_extract_frame(buf) {
        Some(p) => {
            lemma_varnum_core_extend(buf, more, 0, 0, 5);
            lemma_varnum_core_consumes(buf, 0, 0, 5);
            let pv = spec_take_varint(buf)->Ok_0;
            let consumed = buf.len() - pv.1.len() + pv.0;
            assert((buf + more).take(consumed as int) =~= buf.take(consumed as int));
            assert((buf + more).skip(consumed as int) =~= buf.skip(consumed as int) + more);
            lemma_drain_extend(buf.skip(consumed as int), more);
            assert(spec_drain(buf + more).0 =~= spec_drain(buf).0 + spec_drain(
                spec_drain(buf).1 + more,
            ).0);
        },
        None => {
            assert(spec_drain(buf).0 =~= Seq::<Seq<u8>>::empty());
            assert(spec_drain(buf).1 == buf);
            assert(spec_drain(buf).0 + spec_drain(buf + more).0 =~= spec_drain(buf + more).0);
        },
    }
}

/// Extract the first complete frame from the buffer, removing it, or leave
/// the buffer unchanged when no complete frame has arrived yet.
pub fn try_extract_frame(buffer: &mut Vec<u8>) -> (r: Option<Vec<u8>>)
    ensures
        match spec_extract_frame(old(buffer)@) {
            Some(p) => r matches Some(f) && f@ == p.0 && final(buffer)@ == p.1,
            None => r is None && final(buffer)@ == old(buffer)@,
        },
{
    let ghost s0 = buffer@;
    let mut rd = Reader::new(buffer.as_slice());
    let len = match next_varint(&mut rd) {
        Ok(v) => v,
        Err(_) => { return None; },
    };
    if len < 0 {
        return None;
    }
    let prefix = buffer.len() - rd.len();
    if rd.len() < len as usize {
        return None;
    }
    let consumed = prefix + len as usize;
    let mut frame: Vec<u8> = Vec::new();
    let mut j: usize = 0;
    while j < consumed
        invariant
            s0 == buffer@,
            j <= consumed <= buffer@.len(),
            frame@ =~= s0.take(j as int),
        decreases consumed - j,
    {
        let b = buffer[j];
        frame.push(b);
        j = j + 1;
    }
    let mut rest: Vec<u8> = Vec::new();
    let mut k: usize = consumed;
    while k < buffer.len()
        invariant
            s0 == buffer@,
            consumed <= k <= buffer@.len(),
            rest@ =~= s0.subrange(consumed as int, k as int),
        decreases buffer@.len() - k,
    {
        let b = buffer[k];
        rest.push(b);
        k = k + 1;
    }
    proof {
        assert(rest@ =~= s0.skip(consumed as int));
    }
    *buffer = rest;
    Some(frame)
}

} // verus!
