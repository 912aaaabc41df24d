//! Big-endian two's-complement encoding of 32-bit signed integers.
use vstd::prelude::*;

verus! {

/// The signed 32-bit value that four bytes denote, most significant byte first.
pub open spec fn be_i32(b0: u8, b1: u8, b2: u8, b3: u8) -> int {
    let top: int = if b0 < 128 { b0 as int } else { b0 as int - 256 };
    top * 0x100_0000 + b1 as int * 0x1_0000 + b2 as int * 0x100 + b3 as int
}

/// The value of four bytes of a sequence, starting at `at`.
pub open spec fn be_i32_at(s: Seq<u8>, at: int) -> int {
    be_i32(s[at], s[at + 1], s[at + 2], s[at + 3])
}

/// Reads a big-endian two's-complement 32-bit integer.
pub fn decode_i32(b0: u8, b1: u8, b2: u8, b3: u8) -> (r: i32)
    ensures
        r as int == be_i32(b0, b1, b2, b3),
{
    let top: i32 = if b0 < 128 { b0 as i32 } else { b0 as i32 - 256 };
    top * 0x100_0000 + (b1 as i32) * 0x1_0000 + (b2 as i32) * 0x100 + b3 as i32
}

/// Writes a 32-bit integer as four big-endian two's-complement bytes.
pub fn encode_i32(x: i32) -> (r: [u8; 4])
    ensures
        be_i32(r[0], r[1], r[2], r[3]) == x as int,
{
    let u: u32 = if x < 0 { (x as i64 + 0x1_0000_0000) as u32 } else { x as u32 };
    let b0: u8 = (u / 0x100_0000) as u8;
    let b1: u8 = (u / 0x1_0000 % 0x100) as u8;
    let b2: u8 = (u / 0x100 % 0x100) as u8;
    let b3: u8 = (u % 0x100) as u8;
    proof {
        let ui = u as int;
        assert(ui == (ui / 0x100_0000) * 0x100_0000 + (ui / 0x1_0000 % 0x100) * 0x1_0000 + (ui
            / 0x100 % 0x100) * 0x100 + ui % 0x100) by (nonlinear_arith)
            requires
                0 <= ui < 0x1_0000_0000,
        ;
    }
    [b0, b1, b2, b3]
}

} // verus!
