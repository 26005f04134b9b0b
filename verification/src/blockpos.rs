//! Packed block positions: a 64-bit value holding x (26 bits), z (26 bits)
//! and y (12 bits), each two's-complement.

use vstd::prelude::*;
use crate::codec::{i32_as_u32, i32_to_u32, u32_to_i32};

verus! {

/// A block cell coordinate.
#[derive(Debug, Clone, Copy, PartialEq, Eq, Structural)]
pub struct BlockPos {
    pub x: i32,
    pub y: i32,
    pub z: i32,
}

/// The packed wire form: `((x & 0x3FFFFFF) << 38) | ((z & 0x3FFFFFF) << 12)
/// | (y & 0xFFF)` over the coordinates' two's-complement bits.
pub open spec fn spec_blockpos_packed(x: i32, y: i32, z: i32) -> u64 {
    (((i32_to_u32(x) as u64) & 0x3FFFFFF) << 38) | (((i32_to_u32(z) as u64) & 0x3FFFFFF) << 12) | (
    (i32_to_u32(y) as u64) & 0xFFF)
}

/// Sign-extend a 26-bit field.
pub open spec fn spec_sign_extend_26(v: u64) -> i32 {
    if v < 0x200_0000 {
        v as i32
    } else {
        (v - 0x400_0000) as i32
    }
}

/// Sign-extend a 12-bit field.
pub open spec fn spec_sign_extend_12(v: u64) -> i32 {
    if v < 0x800 {
        v as i32
    } else {
        (v - 0x1000) as i32
    }
}

/// The coordinates a packed value decodes to.
pub open spec fn spec_blockpos_unpacked(p: u64) -> (i32, i32, i32) {
    (
        spec_sign_extend_26((p >> 38) & 0x3FFFFFF),
        spec_sign_extend_12(p & 0xFFF),
        spec_sign_extend_26((p >> 12) & 0x3FFFFFF),
    )
}

impl BlockPos {
    pub fn new(x: i32, y: i32, z: i32) -> (r: Self)
        ensures
            r == (BlockPos { x, y, z }),
    {
        BlockPos { x, y, z }
    }

    /// The packed 64-bit wire form.
    pub fn packed(&self) -> (r: u64)
        ensures
            r == spec_blockpos_packed(self.x, self.y, self.z),
    {
        (((i32_as_u32(self.x) as u64) & 0x3FFFFFF) << 38u64) | (((i32_as_u32(self.z) as u64)
            & 0x3FFFFFF) << 12u64) | ((i32_as_u32(self.y) as u64) & 0xFFF)
    }

    /// Decode a packed value, sign-extending each field.
    pub fn unpack(p: u64) -> (r: Self)
        ensures
            r.x == spec_blockpos_unpacked(p).0,
            r.y == spec_blockpos_unpacked(p).1,
            r.z == spec_blockpos_unpacked(p).2,
    {
        let xf = (p >> 38u64) & 0x3FFFFFF;
        let zf = (p >> 12u64) & 0x3FFFFFF;
        let yf = p & 0xFFF;
        proof {
            assert(xf < 0x400_0000 && zf < 0x400_0000 && yf < 0x1000) by (bit_vector)
                requires
                    xf == (p >> 38u64) & 0x3FFFFFF,
                    zf == (p >> 12u64) & 0x3FFFFFF,
                    yf == p & 0xFFF,
            ;
        }
        let x = if xf < 0x200_0000 {
            xf as i32
        } else {
            ((xf as i64) - 0x400_0000) as i32
        };
        let z = if zf < 0x200_0000 {
            zf as i32
        } else {
            ((zf as i64) - 0x400_0000) as i32
        };
        let y = if yf < 0x800 {
            yf as i32
        } else {
            ((yf as i64) - 0x1000) as i32
        };
        BlockPos { x, y, z }
    }
}

/// Round trip: packing coordinates within the fields' ranges and unpacking
/// them yields the same coordinates.
pub proof fn lemma_blockpos_roundtrip(x: i32, y: i32, z: i32)
    requires
        -0x200_0000 <= x < 0x200_0000,
        -0x800 <= y < 0x800,
        -0x200_0000 <= z < 0x200_0000,
    ensures
        spec_blockpos_unpacked(spec_blockpos_packed(x, y, z)) == (x, y, z),
{
    let ux = i32_to_u32(x);
    let uy = i32_to_u32(y);
    let uz = i32_to_u32(z);
    let p = spec_blockpos_packed(x, y, z);
    assert((p >> 38) & 0x3FFFFFF == (ux as u64) & 0x3FFFFFF && (p >> 12) & 0x3FFFFFF == (
    uz as u64) & 0x3FFFFFF && p & 0xFFF == (uy as u64) & 0xFFF) by (bit_vector)
        requires
            p == (((ux as u64) & 0x3FFFFFF) << 38) | (((uz as u64) & 0x3FFFFFF) << 12) | ((
            uy as u64) & 0xFFF),
    ;
    if x >= 0 {
        assert((ux as u64) & 0x3FFFFFF == ux as u64) by (bit_vector)
            requires
                ux < 0x200_0000,
        ;
    } else {
        assert((ux as u64) & 0x3FFFFFF == (ux as u64) - 0xFC00_0000) by (bit_vector)
            requires
                0xFE00_0000 <= ux,
        ;
    }
    if z >= 0 {
        assert((uz as u64) & 0x3FFFFFF == uz as u64) by (bit_vector)
            requires
                uz < 0x200_0000,
        ;
    } else {
        assert((uz as u64) & 0x3FFFFFF == (uz as u64) - 0xFC00_0000) by (bit_vector)
            requires
                0xFE00_0000 <= uz,
        ;
    }
    if y >= 0 {
        assert((uy as u64) & 0xFFF == uy as u64) by (bit_vector)
            requires
                uy < 0x800,
        ;
    } else {
        assert((uy as u64) & 0xFFF == (uy as u64) - 0xFFFF_F000) by (bit_vector)
            requires
                0xFFFF_F800 <= uy,
        ;
    }
}

} // verus!
