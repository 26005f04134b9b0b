use rustmc::blockpos::BlockPos;
use rustmc::codec::{
    encode_varint, encode_varlong, next_string, next_u16, next_u64, next_varint, next_varlong,
    try_extract_frame, Reader,
};
use rustmc::datatypes::{MCString, VarInt, VarLong};
use rustmc::error::ServerError;

#[test]
fn varint_encodes_known_values() {
    assert_eq!(VarInt::new(0).bytes, vec![0x00]);
    assert_eq!(VarInt::new(1).bytes, vec![0x01]);
    assert_eq!(VarInt::new(127).bytes, vec![0x7f]);
    assert_eq!(VarInt::new(128).bytes, vec![0x80, 0x01]);
    assert_eq!(VarInt::new(767).bytes, vec![0xff, 0x05]);
    assert_eq!(VarInt::new(25565).bytes, vec![0xdd, 0xc7, 0x01]);
    assert_eq!(VarInt::new(-1).bytes, vec![0xff, 0xff, 0xff, 0xff, 0x0f]);
    assert_eq!(VarInt::new(i32::MIN).bytes, vec![0x80, 0x80, 0x80, 0x80, 0x08]);
}

#[test]
fn varint_round_trips() {
    for v in [0i32, 1, -1, 127, 128, 255, 300, 767, 25565, i32::MAX, i32::MIN, -2147483647] {
        let enc = VarInt::new(v);
        assert!(1 <= enc.bytes.len() && enc.bytes.len() <= 5);
        let dec = VarInt::from(enc.bytes.clone()).unwrap();
        assert_eq!(dec.value, v);
        assert_eq!(dec.bytes, enc.bytes);
    }
}

#[test]
fn varlong_round_trips() {
    for v in [0i64, 1, -1, 127, 128, i64::MAX, i64::MIN, 1_000_000_000_000] {
        let enc = VarLong::new(v);
        assert!(1 <= enc.bytes.len() && enc.bytes.len() <= 10);
        let dec = VarLong::from(enc.bytes.clone()).unwrap();
        assert_eq!(dec.value, v);
    }
    assert_eq!(VarLong::new(-1).bytes.len(), 10);
}

#[test]
fn varint_rejects_too_long_and_short_input() {
    let too_long = vec![0x80u8, 0x80, 0x80, 0x80, 0x80, 0x01];
    assert!(matches!(VarInt::from(too_long), Err(ServerError::VarIntTooBig)));
    let truncated = vec![0x80u8];
    assert!(matches!(VarInt::from(truncated), Err(ServerError::EndOfPacket)));
}

#[test]
fn mcstring_round_trips() {
    let enc = MCString::new(String::from("localhost")).unwrap();
    let mut expected = vec![9u8];
    expected.extend_from_slice(b"localhost");
    assert_eq!(enc.bytes, expected);
    let dec = MCString::from(enc.bytes.clone()).unwrap();
    assert_eq!(dec.value, "localhost");
    assert_eq!(dec.bytes, enc.bytes);
}

#[test]
fn mcstring_round_trips_multibyte() {
    // Two characters of two and three UTF-8 bytes each: the byte count in
    // the prefix is larger than the character count.
    let s = String::from("\u{00e9}\u{20ac}x");
    let enc = MCString::new(s.clone()).unwrap();
    assert_eq!(enc.bytes[0], 6);
    let dec = MCString::from(enc.bytes.clone()).unwrap();
    assert_eq!(dec.value, s);
}

#[test]
fn string_decode_rejects_invalid_utf8() {
    let bytes = vec![2u8, 0xff, 0xfe];
    let mut rd = Reader::new(bytes.as_slice());
    assert_eq!(next_string(&mut rd), Err(ServerError::InvalidUtf8));
}

#[test]
fn string_decode_rejects_premature_end() {
    let bytes = vec![5u8, b'a', b'b'];
    let mut rd = Reader::new(bytes.as_slice());
    assert_eq!(next_string(&mut rd), Err(ServerError::EndOfPacket));
}

#[test]
fn fixed_width_decoders_read_big_endian() {
    let bytes = vec![0x63u8, 0xdd, 0x01, 0x02, 0x03, 0x04, 0x05, 0x06, 0x07, 0x08];
    let mut rd = Reader::new(bytes.as_slice());
    assert_eq!(next_u16(&mut rd).unwrap(), 0x63dd);
    assert_eq!(next_u64(&mut rd).unwrap(), 0x0102030405060708);
}

#[test]
fn varint_decoder_ignores_leading_reads() {
    let bytes = vec![0xddu8, 0xc7, 0x01, 0x2a];
    let mut rd = Reader::new(bytes.as_slice());
    assert_eq!(next_varint(&mut rd).unwrap(), 25565);
    assert_eq!(rd.len(), 1);
    let bytes2 = encode_varlong(-6574177734957711742i64);
    let mut rd2 = Reader::new(bytes2.as_slice());
    assert_eq!(next_varlong(&mut rd2).unwrap(), -6574177734957711742i64);
}

#[test]
fn blockpos_packs_and_unpacks() {
    let p = BlockPos::new(100, -60, -200);
    let packed = p.packed();
    let q = BlockPos::unpack(packed);
    assert_eq!((q.x, q.y, q.z), (100, -60, -200));
    // The documented layout: x in the top 26 bits, z next, y in the low 12.
    let origin = BlockPos::new(1, 1, 1).packed();
    assert_eq!(origin, (1u64 << 38) | (1u64 << 12) | 1);
    let edge = BlockPos::new(-1, -1, -1);
    assert_eq!(BlockPos::unpack(edge.packed()), edge);
}

#[test]
fn frames_split_only_when_complete() {
    // Two frames, fed in arbitrary splits: a frame appears only once its
    // last byte has arrived, and the split never changes the frames.
    let f1 = vec![0x01u8, 0x00];
    let f2 = vec![0x09u8, 0x01, 0, 0, 0, 0, 0, 0, 0, 0x2a];
    let mut stream = Vec::new();
    stream.extend_from_slice(&f1);
    stream.extend_from_slice(&f2);
    for split in 0..stream.len() {
        let mut buffer: Vec<u8> = Vec::new();
        let mut frames: Vec<Vec<u8>> = Vec::new();
        buffer.extend_from_slice(&stream[..split]);
        while let Some(f) = try_extract_frame(&mut buffer) {
            frames.push(f);
        }
        assert!(frames.len() <= 1);
        if split < f1.len() {
            assert!(frames.is_empty());
        }
        buffer.extend_from_slice(&stream[split..]);
        while let Some(f) = try_extract_frame(&mut buffer) {
            frames.push(f);
        }
        assert_eq!(frames, vec![f1.clone(), f2.clone()]);
        assert!(buffer.is_empty());
    }
}

#[test]
fn incomplete_frame_waits() {
    let mut buffer = vec![0x05u8, 0x01, 0x02];
    assert!(try_extract_frame(&mut buffer).is_none());
    assert_eq!(buffer, vec![0x05u8, 0x01, 0x02]);
    let helper = encode_varint(300);
    assert_eq!(helper, vec![0xac, 0x02]);
}
