//! Little-endian encoding and decoding of fixed-width numbers.

use vstd::prelude::*;
use crate::decode::le_u32;
use crate::encode::{le_bytes_u32, le_bytes_u64};

verus! {

/// The four bytes read back give the number.
pub proof fn lemma_le_u32_roundtrip(v: u32)
    ensures
        le_bytes_u32(v).len() == 4,
        le_u32(le_bytes_u32(v)) == v,
{
    let b = le_bytes_u32(v);
    assert(b[0] == v % 0x100);
    assert(b[1] == v / 0x100 % 0x100);
    assert(b[2] == v / 0x1_0000 % 0x100);
    assert(b[3] == v / 0x100_0000);
    assert(v % 0x100 + 0x100 * (v / 0x100 % 0x100) + 0x1_0000 * (v / 0x1_0000 % 0x100) + 0x100_0000 * (v
        / 0x100_0000) == v) by (nonlinear_arith);
}

/// Encode u32 as little-endian 4 bytes.
pub fn encode_u32_le(value: u32) -> (r: [u8; 4])
    ensures
        r@ == le_bytes_u32(value),
{
    let r = [(value % 0x100) as u8, (value / 0x100 % 0x100) as u8, (value / 0x1_0000 % 0x100) as u8, (value
        / 0x100_0000) as u8];
    assert(r@ =~= le_bytes_u32(value));
    r
}

/// Encode i32 as little-endian 4 bytes: those of its two's complement.
pub fn encode_i32_le(value: i32) -> (r: [u8; 4])
    ensures
        r@ == le_bytes_u32(value as u32),
{
    encode_u32_le(value as u32)
}

/// Encode u64 as little-endian 8 bytes.
pub fn encode_u64_le(value: u64) -> (r: [u8; 8])
    ensures
        r@ == le_bytes_u64(value),
{
    let lo = encode_u32_le((value % 0x1_0000_0000) as u32);
    let hi = encode_u32_le((value / 0x1_0000_0000) as u32);
    let r = [lo[0], lo[1], lo[2], lo[3], hi[0], hi[1], hi[2], hi[3]];
    assert(r@ =~= le_bytes_u64(value));
    r
}

/// Encode i64 as little-endian 8 bytes: those of its two's complement.
pub fn encode_i64_le(value: i64) -> (r: [u8; 8])
    ensures
        r@ == le_bytes_u64(value as u64),
{
    encode_u64_le(value as u64)
}

/// Decode u32 from the first 4 bytes, little-endian; `None` where there
/// are fewer.
pub fn decode_u32_le(bytes: &[u8]) -> (r: Option<u32>)
    ensures
        r == (if bytes@.len() >= 4 {
            Some(le_u32(bytes@) as u32)
        } else {
            None
        }),
{
    if bytes.len() >= 4 {
        Some(bytes[0] as u32 + (bytes[1] as u32) * 0x100 + (bytes[2] as u32) * 0x1_0000 + (bytes[3] as u32)
            * 0x100_0000)
    } else {
        None
    }
}

/// Decode i32 from the first 4 bytes, little-endian two's complement;
/// `None` where there are fewer.
pub fn decode_i32_le(bytes: &[u8]) -> (r: Option<i32>)
    ensures
        r == (if bytes@.len() >= 4 {
            Some((le_u32(bytes@) as u32) as i32)
        } else {
            None
        }),
{
    match decode_u32_le(bytes) {
        Some(v) => Some(v as i32),
        None => None,
    }
}

/// Decoding the encoding of a u32 gives it back.
pub proof fn lemma_u32_le_roundtrip(v: u32)
    ensures
        le_bytes_u32(v).len() >= 4,
        le_u32(le_bytes_u32(v)) as u32 == v,
{
    lemma_le_u32_roundtrip(v);
}

/// Decoding the encoding of an i32 gives it back.
pub proof fn lemma_i32_le_roundtrip(v: i32)
    ensures
        le_bytes_u32(v as u32).len() >= 4,
        (le_u32(le_bytes_u32(v as u32)) as u32) as i32 == v,
{
    lemma_le_u32_roundtrip(v as u32);
    assert(((v as u32) as i32) == v) by (bit_vector);
}

} // verus!
