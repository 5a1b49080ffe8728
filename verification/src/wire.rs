//! Little-endian field readers and writers for the wire formats the devices
//! exchange with the guest: page-frame entries, block entries, statistics
//! entries and the config space.

use vstd::prelude::*;

verus! {

/// Value of two bytes read as a little-endian u16.
pub open spec fn u16_of_le(s: Seq<u8>) -> u16
    recommends
        s.len() == 2,
{
    (s[0] + s[1] * 0x100) as u16
}

/// Value of four bytes read as a little-endian u32.
pub open spec fn u32_of_le(s: Seq<u8>) -> u32
    recommends
        s.len() == 4,
{
    (s[0] + s[1] * 0x100 + s[2] * 0x1_0000 + s[3] * 0x100_0000) as u32
}

/// Value of eight bytes read as a little-endian u64.
pub open spec fn u64_of_le(s: Seq<u8>) -> u64
    recommends
        s.len() == 8,
{
    (s[0] + s[1] * 0x100 + s[2] * 0x1_0000 + s[3] * 0x100_0000 + s[4] * 0x1_0000_0000
        + s[5] * 0x100_0000_0000 + s[6] * 0x1_0000_0000_0000 + s[7] * 0x100_0000_0000_0000) as u64
}

/// The four little-endian bytes of a u32.
pub open spec fn u32_le_bytes(x: u32) -> Seq<u8> {
    seq![
        (x % 0x100) as u8,
        ((x / 0x100) % 0x100) as u8,
        ((x / 0x1_0000) % 0x100) as u8,
        ((x / 0x100_0000) % 0x100) as u8,
    ]
}

pub fn pack_u16_le(b0: u8, b1: u8) -> (r: u16)
    ensures
        r == u16_of_le(seq![b0, b1]),
{
    b0 as u16 + b1 as u16 * 0x100
}

pub fn pack_u32_le(b0: u8, b1: u8, b2: u8, b3: u8) -> (r: u32)
    ensures
        r == u32_of_le(seq![b0, b1, b2, b3]),
{
    b0 as u32 + b1 as u32 * 0x100 + b2 as u32 * 0x1_0000 + b3 as u32 * 0x100_0000
}

pub fn pack_u64_le(b: [u8; 8]) -> (r: u64)
    ensures
        r == u64_of_le(b@),
{
    b[0] as u64 + b[1] as u64 * 0x100 + b[2] as u64 * 0x1_0000 + b[3] as u64 * 0x100_0000
        + b[4] as u64 * 0x1_0000_0000 + b[5] as u64 * 0x100_0000_0000
        + b[6] as u64 * 0x1_0000_0000_0000 + b[7] as u64 * 0x100_0000_0000_0000
}

/// Splits a u32 into its four little-endian bytes.
pub fn unpack_u32_le(x: u32) -> (r: (u8, u8, u8, u8))
    ensures
        seq![r.0, r.1, r.2, r.3] == u32_le_bytes(x),
{
    let r = (
        (x % 0x100) as u8,
        ((x / 0x100) % 0x100) as u8,
        ((x / 0x1_0000) % 0x100) as u8,
        ((x / 0x100_0000) % 0x100) as u8,
    );
    proof {
        assert(seq![r.0, r.1, r.2, r.3] =~= u32_le_bytes(x));
    }
    r
}

} // verus!
