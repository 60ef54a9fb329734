//! LEB128 encoding and decoding (Little Endian Base 128).
//!
//! WebAssembly uses LEB128 for encoding integers in a space-efficient way.
//! A value is split into groups of seven bits, least significant group
//! first; every byte but the last has its high bit set.

use vstd::prelude::*;
use crate::error::{WasmError, WasmErrorView};

verus! {

broadcast use vstd::string::group_string_axioms;

/// Maximum number of bytes for a 32-bit LEB128 value
const MAX_LEB128_32: usize = 5;

/// Maximum number of bytes for a 64-bit LEB128 value
const MAX_LEB128_64: usize = 10;

/// 128 to the power `n`.
pub open spec fn pow128(n: nat) -> nat
    decreases n,
{
    if n == 0 {
        1
    } else {
        128 * pow128((n - 1) as nat)
    }
}

/// The number that the low seven bits of the first `n` bytes of `b` denote,
/// least significant group first.
pub open spec fn leb_sum(b: Seq<u8>, n: nat) -> nat
    decreases n,
{
    if n == 0 {
        0
    } else {
        leb_sum(b, (n - 1) as nat) + ((b[n - 1] & 0x7f) as nat) * pow128((n - 1) as nat)
    }
}

/// How a scan for the end of a LEB128 number stops.
pub enum LebScan {
    /// The number ends after this many bytes.
    Done(nat),
    /// The input ends before the number does.
    Eof,
    /// The number is longer than the type allows.
    TooLong,
    /// The fifth byte of an unsigned 32-bit number has bits above the 32nd.
    Overflow,
}

/// Scan from byte `i` for the last byte of a LEB128 number of at most `max`
/// bytes. Where `checked`, a fifth byte with any of the bits 0x70 set
/// overflows 32 bits.
pub open spec fn leb_scan(b: Seq<u8>, i: nat, max: nat, checked: bool) -> LebScan
    decreases max - i,
{
    if i >= b.len() {
        LebScan::Eof
    } else if i >= max {
        LebScan::TooLong
    } else if checked && i == 4 && b[4] & 0x70 != 0 {
        LebScan::Overflow
    } else if b[i as int] & 0x80 == 0 {
        LebScan::Done(i + 1)
    } else {
        leb_scan(b, i + 1, max, checked)
    }
}

/// The two's complement reading of the low `width` bits of `x`.
pub open spec fn wrap_signed(x: int, width: nat) -> int {
    let m = x % pow2_width(width);
    if m >= pow2_width(width) / 2 {
        m - pow2_width(width)
    } else {
        m
    }
}

/// 2 to the power 32 or 64.
pub open spec fn pow2_width(width: nat) -> int {
    if width == 32 {
        0x1_0000_0000
    } else {
        0x1_0000_0000_0000_0000
    }
}

/// The signed number that the first `n` bytes of `b` denote: the unsigned
/// sum, less 128 to the power `n` where the last byte has its sign bit 0x40
/// set and the `7 * n` bits read fit in `width` bits.
pub open spec fn leb_signed(b: Seq<u8>, n: nat, width: nat) -> int {
    if 7 * n < width && b[n - 1] & 0x40 != 0 {
        leb_sum(b, n) - pow128(n)
    } else {
        leb_sum(b, n) as int
    }
}

/// The outcome of decoding a LEB128 number: the number and the count of
/// bytes read, or the error.
pub type LebOutcome = Result<(int, nat), WasmErrorView>;

/// The outcome that a decoder result stands for.
pub open spec fn leb_outcome<T: Integer>(r: Result<(T, usize), WasmError>) -> LebOutcome {
    match r {
        Ok((v, n)) => Ok((v as int, n as nat)),
        Err(e) => Err(e@),
    }
}

/// Unsigned 32-bit LEB128 decoding of the start of `b`.
pub open spec fn spec_decode_u32(b: Seq<u8>) -> LebOutcome {
    match leb_scan(b, 0, 5, true) {
        LebScan::Done(n) => Ok((leb_sum(b, n) as int, n)),
        LebScan::Eof => Err(WasmErrorView::UnexpectedEof),
        LebScan::TooLong => Err(WasmErrorView::Leb128DecodeError("u32 exceeds maximum byte length"@)),
        LebScan::Overflow => Err(WasmErrorView::Leb128DecodeError("u32 overflow in LEB128"@)),
    }
}

/// Unsigned 64-bit LEB128 decoding of the start of `b`; bits above the 64th
/// are dropped.
pub open spec fn spec_decode_u64(b: Seq<u8>) -> LebOutcome {
    match leb_scan(b, 0, 10, false) {
        LebScan::Done(n) => Ok(((leb_sum(b, n) as int) % 0x1_0000_0000_0000_0000, n)),
        LebScan::Eof => Err(WasmErrorView::UnexpectedEof),
        _ => Err(WasmErrorView::Leb128DecodeError("u64 exceeds maximum byte length"@)),
    }
}

/// Signed 32-bit LEB128 decoding of the start of `b`; bits above the 32nd
/// are dropped.
pub open spec fn spec_decode_i32(b: Seq<u8>) -> LebOutcome {
    match leb_scan(b, 0, 5, false) {
        LebScan::Done(n) => Ok((wrap_signed(leb_signed(b, n, 32), 32), n)),
        LebScan::Eof => Err(WasmErrorView::UnexpectedEof),
        _ => Err(WasmErrorView::Leb128DecodeError("i32 exceeds maximum byte length"@)),
    }
}

/// Signed 64-bit LEB128 decoding of the start of `b`; bits above the 64th
/// are dropped.
pub open spec fn spec_decode_i64(b: Seq<u8>) -> LebOutcome {
    match leb_scan(b, 0, 10, false) {
        LebScan::Done(n) => Ok((wrap_signed(leb_signed(b, n, 64), 64), n)),
        LebScan::Eof => Err(WasmErrorView::UnexpectedEof),
        _ => Err(WasmErrorView::Leb128DecodeError("i64 exceeds maximum byte length"@)),
    }
}

/// The unsigned LEB128 encoding of `v`: the shortest one.
pub open spec fn spec_encode_unsigned(v: nat) -> Seq<u8>
    decreases v,
{
    if v < 128 {
        seq![v as u8]
    } else {
        seq![(v % 128 + 128) as u8] + spec_encode_unsigned(v / 128)
    }
}

/// The measure by which signed encoding terminates.
pub open spec fn signed_measure(v: int) -> int {
    if v >= 0 {
        v
    } else {
        -v - 1
    }
}

/// The signed LEB128 encoding of `v`: bytes are emitted until the rest is
/// all zeros or all ones and the sign bit of the last byte agrees with it.
pub open spec fn spec_encode_signed(v: int) -> Seq<u8>
    decreases signed_measure(v),
{
    let low = v % 128;
    let rest = v / 128;
    if (rest == 0 && low < 64) || (rest == -1 && low >= 64) {
        seq![low as u8]
    } else {
        seq![(low + 128) as u8] + spec_encode_signed(rest)
    }
}

// ---------------------------------------------------------------------------
// Arithmetic facts about the bit operations the decoders and encoders use.

proof fn lemma_pow128_values()
    ensures
        pow128(0) == 1,
        pow128(1) == 0x80,
        pow128(2) == 0x4000,
        pow128(3) == 0x20_0000,
        pow128(4) == 0x1000_0000,
        pow128(5) == 0x8_0000_0000,
        pow128(6) == 0x400_0000_0000,
        pow128(7) == 0x2_0000_0000_0000,
        pow128(8) == 0x100_0000_0000_0000,
        pow128(9) == 0x8000_0000_0000_0000,
        pow128(10) == 0x40_0000_0000_0000_0000,
{
    reveal_with_fuel(pow128, 11);
}

/// Adding the seven bits `v` at group `i` to a 32-bit accumulator that holds
/// fewer than `7 * i` bits.
proof fn lemma_or_shift_u32(r: u32, v: u32, i: nat)
    requires
        i <= 4,
        v < 128,
        r < pow128(i),
    ensures
        (r | (v << (7 * i) as u32)) as int == (r + v * pow128(i)) % 0x1_0000_0000,
        i < 4 ==> r + v * pow128(i) < pow128(i + 1),
        i < 4 ==> r + v * pow128(i) < 0x1000_0000,
        i == 4 && v < 16 ==> r + v * pow128(i) < 0x1_0000_0000,
{
    lemma_pow128_values();
    if i == 0 {
        assert(r < 1 && v < 128 ==> (r | (v << 0u32)) == r + v) by (bit_vector);
    } else if i == 1 {
        assert(r < 0x80 && v < 128 ==> (r | (v << 7u32)) == r + v * 0x80) by (bit_vector);
    } else if i == 2 {
        assert(r < 0x4000 && v < 128 ==> (r | (v << 14u32)) == r + v * 0x4000) by (bit_vector);
    } else if i == 3 {
        assert(r < 0x20_0000 && v < 128 ==> (r | (v << 21u32)) == r + v * 0x20_0000) by (bit_vector);
    } else {
        assert(r < 0x1000_0000 && v < 128 ==> (r | (v << 28u32)) as int == (r + v * 0x1000_0000)
            % 0x1_0000_0000) by (bit_vector);
    }
}

/// Adding the seven bits `v` at group `i` to a 64-bit accumulator that holds
/// fewer than `7 * i` bits.
proof fn lemma_or_shift_u64(r: u64, v: u64, i: nat)
    requires
        i <= 9,
        v < 128,
        r < pow128(i),
    ensures
        (r | (v << (7 * i) as u64)) as int == (r + v * pow128(i)) % 0x1_0000_0000_0000_0000,
        i < 9 ==> r + v * pow128(i) < pow128(i + 1),
        i < 9 ==> r + v * pow128(i) < 0x8000_0000_0000_0000,
{
    lemma_pow128_values();
    if i == 0 {
        assert(r < 1 && v < 128 ==> (r | (v << 0u64)) == r + v) by (bit_vector);
    } else if i == 1 {
        assert(r < 0x80 && v < 128 ==> (r | (v << 7u64)) == r + v * 0x80) by (bit_vector);
    } else if i == 2 {
        assert(r < 0x4000 && v < 128 ==> (r | (v << 14u64)) == r + v * 0x4000) by (bit_vector);
    } else if i == 3 {
        assert(r < 0x20_0000 && v < 128 ==> (r | (v << 21u64)) == r + v * 0x20_0000) by (bit_vector);
    } else if i == 4 {
        assert(r < 0x1000_0000 && v < 128 ==> (r | (v << 28u64)) == r + v * 0x1000_0000)
            by (bit_vector);
    } else if i == 5 {
        assert(r < 0x8_0000_0000 && v < 128 ==> (r | (v << 35u64)) == r + v * 0x8_0000_0000)
            by (bit_vector);
    } else if i == 6 {
        assert(r < 0x400_0000_0000 && v < 128 ==> (r | (v << 42u64)) == r + v * 0x400_0000_0000)
            by (bit_vector);
    } else if i == 7 {
        assert(r < 0x2_0000_0000_0000 && v < 128 ==> (r | (v << 49u64)) == r + v
            * 0x2_0000_0000_0000) by (bit_vector);
    } else if i == 8 {
        assert(r < 0x100_0000_0000_0000 && v < 128 ==> (r | (v << 56u64)) == r + v
            * 0x100_0000_0000_0000) by (bit_vector);
    } else {
        assert(r < 0x8000_0000_0000_0000 && v < 128 ==> (r | (v << 63u64)) as int == (r + v
            * 0x8000_0000_0000_0000) % 0x1_0000_0000_0000_0000) by (bit_vector);
    }
}

/// Sign extension of a 32-bit accumulator that holds `7 * n` bits.
proof fn lemma_sign_extend_u32(r: u32, n: nat)
    requires
        1 <= n <= 4,
        r < pow128(n),
    ensures
        (r | (!0u32 << (7 * n) as u32)) as int == r + 0x1_0000_0000 - pow128(n),
{
    lemma_pow128_values();
    if n == 1 {
        assert(r < 0x80 ==> (r | (!0u32 << 7u32)) as int == r + 0x1_0000_0000 - 0x80) by (bit_vector);
    } else if n == 2 {
        assert(r < 0x4000 ==> (r | (!0u32 << 14u32)) as int == r + 0x1_0000_0000 - 0x4000)
            by (bit_vector);
    } else if n == 3 {
        assert(r < 0x20_0000 ==> (r | (!0u32 << 21u32)) as int == r + 0x1_0000_0000 - 0x20_0000)
            by (bit_vector);
    } else {
        assert(r < 0x1000_0000 ==> (r | (!0u32 << 28u32)) as int == r + 0x1_0000_0000
            - 0x1000_0000) by (bit_vector);
    }
}

/// Sign extension of a 64-bit accumulator that holds `7 * n` bits.
proof fn lemma_sign_extend_u64(r: u64, n: nat)
    requires
        1 <= n <= 9,
        r < pow128(n),
    ensures
        (r | (!0u64 << (7 * n) as u64)) as int == r + 0x1_0000_0000_0000_0000 - pow128(n),
{
    lemma_pow128_values();
    if n == 1 {
        assert(r < 0x80 ==> (r | (!0u64 << 7u64)) as int == r + 0x1_0000_0000_0000_0000 - 0x80)
            by (bit_vector);
    } else if n == 2 {
        assert(r < 0x4000 ==> (r | (!0u64 << 14u64)) as int == r + 0x1_0000_0000_0000_0000
            - 0x4000) by (bit_vector);
    } else if n == 3 {
        assert(r < 0x20_0000 ==> (r | (!0u64 << 21u64)) as int == r + 0x1_0000_0000_0000_0000
            - 0x20_0000) by (bit_vector);
    } else if n == 4 {
        assert(r < 0x1000_0000 ==> (r | (!0u64 << 28u64)) as int == r + 0x1_0000_0000_0000_0000
            - 0x1000_0000) by (bit_vector);
    } else if n == 5 {
        assert(r < 0x8_0000_0000 ==> (r | (!0u64 << 35u64)) as int == r
            + 0x1_0000_0000_0000_0000 - 0x8_0000_0000) by (bit_vector);
    } else if n == 6 {
        assert(r < 0x400_0000_0000 ==> (r | (!0u64 << 42u64)) as int == r
            + 0x1_0000_0000_0000_0000 - 0x400_0000_0000) by (bit_vector);
    } else if n == 7 {
        assert(r < 0x2_0000_0000_0000 ==> (r | (!0u64 << 49u64)) as int == r
            + 0x1_0000_0000_0000_0000 - 0x2_0000_0000_0000) by (bit_vector);
    } else if n == 8 {
        assert(r < 0x100_0000_0000_0000 ==> (r | (!0u64 << 56u64)) as int == r
            + 0x1_0000_0000_0000_0000 - 0x100_0000_0000_0000) by (bit_vector);
    } else {
        assert(r < 0x8000_0000_0000_0000 ==> (r | (!0u64 << 63u64)) as int == r
            + 0x1_0000_0000_0000_0000 - 0x8000_0000_0000_0000) by (bit_vector);
    }
}

proof fn lemma_u32_as_i32(x: u32)
    ensures
        (x as i32) as int == wrap_signed(x as int, 32),
{
    assert((x < 0x8000_0000 ==> (x as i32) as int == x as int) && (x >= 0x8000_0000 ==> (x as i32) as int
        == x as int - 0x1_0000_0000)) by (bit_vector);
}

proof fn lemma_u64_as_i64(x: u64)
    ensures
        (x as i64) as int == wrap_signed(x as int, 64),
{
    assert(x < 0x8000_0000_0000_0000 ==> (x as i64) as int == x as int) by (bit_vector);
    assert(x >= 0x8000_0000_0000_0000 ==> (x as i64) as int == x as int - 0x1_0000_0000_0000_0000)
        by (bit_vector);
}

proof fn lemma_byte_bits(byte: u8)
    ensures
        (byte & 0x7f) < 128,
        (byte & 0x7f) as u32 >> 4u32 != 0 <==> byte & 0x70 != 0,
        (byte & 0x7f) as u32 >> 4u32 == 0 ==> (byte & 0x7f) < 16,
{
    assert(((byte & 0x7f) as u32 >> 4u32 == 0) ==> (byte & 0x7f) < 16) by (bit_vector);
    assert((byte & 0x7f) < 128) by (bit_vector);
    assert(((byte & 0x7f) as u32 >> 4u32 != 0) <==> (byte & 0x70 != 0)) by (bit_vector);
}

proof fn lemma_low_bits_u32(v: u32)
    ensures
        (v & 0x7f) as int == v % 128,
        (v >> 7u32) as int == v / 128,
{
    assert((v & 0x7f) as int == v % 128 && (v >> 7u32) as int == v / 128) by (bit_vector);
}

proof fn lemma_low_bits_u64(v: u64)
    ensures
        (v & 0x7f) as int == v % 128,
        (v >> 7u64) as int == v / 128,
{
    assert((v & 0x7f) as int == v % 128 && (v >> 7u64) as int == v / 128) by (bit_vector);
}

proof fn lemma_low_bits_i32(v: i32)
    ensures
        (v & 0x7f) as int == v % 128,
        (v >> 7u32) as int == v / 128,
{
    assert((v & 0x7f) as int == v % 128 && (v >> 7u32) as int == v / 128) by (bit_vector);
}

proof fn lemma_low_bits_i64(v: i64)
    ensures
        (v & 0x7f) as int == v % 128,
        (v >> 7u64) as int == v / 128,
{
    assert((v & 0x7f) as int == v % 128 && (v >> 7u64) as int == v / 128) by (bit_vector);
}

proof fn lemma_byte_flags(b: u8)
    requires
        b < 128,
    ensures
        (b | 0x80) as int == b + 128,
        (b & 0x40 == 0) <==> b < 64,
{
    assert(b < 128 ==> (b | 0x80) as int == b + 128 && ((b & 0x40 == 0) <==> b < 64)) by (bit_vector);
}

// ---------------------------------------------------------------------------
// Decoders.

/// Decode an unsigned 32-bit LEB128 value.
pub fn decode_u32(bytes: &[u8]) -> (r: Result<(u32, usize), WasmError>)
    ensures
        leb_outcome(r) == spec_decode_u32(bytes@),
{
    let mut result: u32 = 0;
    let mut shift: u32 = 0;
    let mut i: usize = 0;
    loop
        invariant
            i <= 5,
            shift == 7 * i,
            leb_scan(bytes@, 0, 5, true) == leb_scan(bytes@, i as nat, 5, true),
            i <= 4 ==> result as nat == leb_sum(bytes@, i as nat),
            i <= 4 ==> leb_sum(bytes@, i as nat) < pow128(i as nat),
        decreases 5 - i,
    {
        if i >= bytes.len() {
            return Err(WasmError::UnexpectedEof);
        }
        if i >= MAX_LEB128_32 {
            return Err(WasmError::Leb128DecodeError("u32 exceeds maximum byte length".to_string()));
        }
        let byte = bytes[i];
        i += 1;
        let value = (byte & 0x7f) as u32;
        proof {
            lemma_byte_bits(byte);
        }
        if shift == 28 && value >> 4 != 0 {
            return Err(WasmError::Leb128DecodeError("u32 overflow in LEB128".to_string()));
        }
        proof {
            lemma_or_shift_u32(result, value, (i - 1) as nat);
            lemma_pow128_values();
        }
        let ghost prev = result;
        result |= value << shift;
        assert(leb_sum(bytes@, i as nat) == prev + value * pow128((i - 1) as nat));
        if byte & 0x80 == 0 {
            assert(leb_sum(bytes@, i as nat) < 0x1_0000_0000);
            return Ok((result, i));
        }
        shift += 7;
    }
}


/// Decode an unsigned 64-bit LEB128 value.
pub fn decode_u64(bytes: &[u8]) -> (r: Result<(u64, usize), WasmError>)
    ensures
        leb_outcome(r) == spec_decode_u64(bytes@),
{
    let mut result: u64 = 0;
    let mut shift: u32 = 0;
    let mut i: usize = 0;
    loop
        invariant
            i <= 10,
            shift == 7 * i,
            leb_scan(bytes@, 0, 10, false) == leb_scan(bytes@, i as nat, 10, false),
            i <= 9 ==> result as nat == leb_sum(bytes@, i as nat),
            i <= 9 ==> leb_sum(bytes@, i as nat) < pow128(i as nat),
        decreases 10 - i,
    {
        if i >= bytes.len() {
            return Err(WasmError::UnexpectedEof);
        }
        if i >= MAX_LEB128_64 {
            return Err(WasmError::Leb128DecodeError("u64 exceeds maximum byte length".to_string()));
        }
        let byte = bytes[i];
        i += 1;
        let value = (byte & 0x7f) as u64;
        proof {
            lemma_byte_bits(byte);
            lemma_or_shift_u64(result, value, (i - 1) as nat);
            lemma_pow128_values();
        }
        let ghost prev = result;
        result |= value << shift;
        assert(leb_sum(bytes@, i as nat) == prev + value * pow128((i - 1) as nat));
        if byte & 0x80 == 0 {
            return Ok((result, i));
        }
        shift += 7;
    }
}

/// Decode a signed 32-bit LEB128 value.
pub fn decode_i32(bytes: &[u8]) -> (r: Result<(i32, usize), WasmError>)
    ensures
        leb_outcome(r) == spec_decode_i32(bytes@),
{
    let mut result: u32 = 0;
    let mut shift: u32 = 0;
    let mut i: usize = 0;
    loop
        invariant
            i <= 5,
            shift == 7 * i,
            leb_scan(bytes@, 0, 5, false) == leb_scan(bytes@, i as nat, 5, false),
            i <= 4 ==> result as nat == leb_sum(bytes@, i as nat),
            i <= 4 ==> leb_sum(bytes@, i as nat) < pow128(i as nat),
        decreases 5 - i,
    {
        if i >= bytes.len() {
            return Err(WasmError::UnexpectedEof);
        }
        if i >= MAX_LEB128_32 {
            return Err(WasmError::Leb128DecodeError("i32 exceeds maximum byte length".to_string()));
        }
        let byte = bytes[i];
        i += 1;
        let value = (byte & 0x7f) as u32;
        proof {
            lemma_byte_bits(byte);
            lemma_or_shift_u32(result, value, (i - 1) as nat);
            lemma_pow128_values();
        }
        let ghost prev = result;
        result |= value << shift;
        shift += 7;
        assert(leb_sum(bytes@, i as nat) == prev + value * pow128((i - 1) as nat));
        if byte & 0x80 == 0 {
            // Sign extend if negative
            let ghost sum = leb_sum(bytes@, i as nat) as int;
            if shift < 32 && (byte & 0x40) != 0 {
                proof {
                    lemma_sign_extend_u32(result, i as nat);
                }
                result |= !0u32 << shift;
                assert(result as int == sum - pow128(i as nat) + 0x1_0000_0000);
            }
            proof {
                lemma_u32_as_i32(result);
            }
            return Ok((result as i32, i));
        }
    }
}

/// Decode a signed 64-bit LEB128 value.
pub fn decode_i64(bytes: &[u8]) -> (r: Result<(i64, usize), WasmError>)
    ensures
        leb_outcome(r) == spec_decode_i64(bytes@),
{
    let mut result: u64 = 0;
    let mut shift: u32 = 0;
    let mut i: usize = 0;
    loop
        invariant
            i <= 10,
            shift == 7 * i,
            leb_scan(bytes@, 0, 10, false) == leb_scan(bytes@, i as nat, 10, false),
            i <= 9 ==> result as nat == leb_sum(bytes@, i as nat),
            i <= 9 ==> leb_sum(bytes@, i as nat) < pow128(i as nat),
        decreases 10 - i,
    {
        if i >= bytes.len() {
            return Err(WasmError::UnexpectedEof);
        }
        if i >= MAX_LEB128_64 {
            return Err(WasmError::Leb128DecodeError("i64 exceeds maximum byte length".to_string()));
        }
        let byte = bytes[i];
        i += 1;
        let value = (byte & 0x7f) as u64;
        proof {
            lemma_byte_bits(byte);
            lemma_or_shift_u64(result, value, (i - 1) as nat);
            lemma_pow128_values();
        }
        let ghost prev = result;
        result |= value << shift;
        shift += 7;
        assert(leb_sum(bytes@, i as nat) == prev + value * pow128((i - 1) as nat));
        if byte & 0x80 == 0 {
            // Sign extend if negative
            let ghost sum = leb_sum(bytes@, i as nat) as int;
            if shift < 64 && (byte & 0x40) != 0 {
                proof {
                    lemma_sign_extend_u64(result, i as nat);
                }
                result |= !0u64 << shift;
                assert(result as int == sum - pow128(i as nat) + 0x1_0000_0000_0000_0000);
            }
            proof {
                lemma_u64_as_i64(result);
            }
            return Ok((result as i64, i));
        }
    }
}


// ---------------------------------------------------------------------------
// Encoders.

/// Encode an unsigned 32-bit value as LEB128.
pub fn encode_u32(value: u32) -> (r: Vec<u8>)
    ensures
        r@ == spec_encode_unsigned(value as nat),
{
    let mut result: Vec<u8> = Vec::new();
    let mut value = value;
    let ghost orig = value;
    loop
        invariant_except_break
            result@ + spec_encode_unsigned(value as nat) == spec_encode_unsigned(orig as nat),
        ensures
            result@ == spec_encode_unsigned(orig as nat),
        decreases value,
    {
        proof {
            lemma_low_bits_u32(value);
        }
        let ghost old_value = value;
        let mut byte = (value & 0x7f) as u8;
        value >>= 7;
        if value != 0 {
            proof {
                lemma_byte_flags(byte);
            }
            byte |= 0x80;
        }
        assert(result@.push(byte) + (if value == 0 { Seq::<u8>::empty() } else { spec_encode_unsigned(value as nat) })
            == result@ + spec_encode_unsigned(old_value as nat)) by {
            if value != 0 {
                assert(result@.push(byte) + spec_encode_unsigned(value as nat) =~= result@ + (seq![byte]
                    + spec_encode_unsigned(value as nat)));
            } else {
                assert(result@.push(byte) + Seq::<u8>::empty() =~= result@ + seq![byte]);
            }
        }
        result.push(byte);
        if value == 0 {
            break ;
        }
    }
    result
}

/// Encode an unsigned 64-bit value as LEB128.
pub fn encode_u64(value: u64) -> (r: Vec<u8>)
    ensures
        r@ == spec_encode_unsigned(value as nat),
{
    let mut result: Vec<u8> = Vec::new();
    let mut value = value;
    let ghost orig = value;
    loop
        invariant_except_break
            result@ + spec_encode_unsigned(value as nat) == spec_encode_unsigned(orig as nat),
        ensures
            result@ == spec_encode_unsigned(orig as nat),
        decreases value,
    {
        proof {
            lemma_low_bits_u64(value);
        }
        let ghost old_value = value;
        let mut byte = (value & 0x7f) as u8;
        value >>= 7;
        if value != 0 {
            proof {
                lemma_byte_flags(byte);
            }
            byte |= 0x80;
        }
        assert(result@.push(byte) + (if value == 0 { Seq::<u8>::empty() } else { spec_encode_unsigned(value as nat) })
            == result@ + spec_encode_unsigned(old_value as nat)) by {
            if value != 0 {
                assert(result@.push(byte) + spec_encode_unsigned(value as nat) =~= result@ + (seq![byte]
                    + spec_encode_unsigned(value as nat)));
            } else {
                assert(result@.push(byte) + Seq::<u8>::empty() =~= result@ + seq![byte]);
            }
        }
        result.push(byte);
        if value == 0 {
            break ;
        }
    }
    result
}

/// Encode a signed 32-bit value as LEB128.
pub fn encode_i32(value: i32) -> (r: Vec<u8>)
    ensures
        r@ == spec_encode_signed(value as int),
{
    let mut result: Vec<u8> = Vec::new();
    let mut value = value;
    let ghost orig = value;
    loop
        invariant_except_break
            result@ + spec_encode_signed(value as int) == spec_encode_signed(orig as int),
        ensures
            result@ == spec_encode_signed(orig as int),
        decreases signed_measure(value as int),
    {
        proof {
            lemma_low_bits_i32(value);
        }
        let ghost old_value = value;
        let mut byte = (value & 0x7f) as u8;
        value >>= 7;
        proof {
            lemma_byte_flags(byte);
        }
        // Check if we need more bytes
        let done = value == 0 && (byte & 0x40) == 0 || value == -1 && (byte & 0x40) != 0;
        if !done {
            byte |= 0x80;
        }
        assert(result@.push(byte) + (if done { Seq::<u8>::empty() } else { spec_encode_signed(value as int) })
            == result@ + spec_encode_signed(old_value as int)) by {
            if !done {
                assert(result@.push(byte) + spec_encode_signed(value as int) =~= result@ + (seq![byte]
                    + spec_encode_signed(value as int)));
            } else {
                assert(result@.push(byte) + Seq::<u8>::empty() =~= result@ + seq![byte]);
            }
        }
        result.push(byte);
        if done {
            break ;
        }
    }
    result
}

/// Encode a signed 64-bit value as LEB128.
pub fn encode_i64(value: i64) -> (r: Vec<u8>)
    ensures
        r@ == spec_encode_signed(value as int),
{
    let mut result: Vec<u8> = Vec::new();
    let mut value = value;
    let ghost orig = value;
    loop
        invariant_except_break
            result@ + spec_encode_signed(value as int) == spec_encode_signed(orig as int),
        ensures
            result@ == spec_encode_signed(orig as int),
        decreases signed_measure(value as int),
    {
        proof {
            lemma_low_bits_i64(value);
        }
        let ghost old_value = value;
        let mut byte = (value & 0x7f) as u8;
        value >>= 7;
        proof {
            lemma_byte_flags(byte);
        }
        // Check if we need more bytes
        let done = value == 0 && (byte & 0x40) == 0 || value == -1 && (byte & 0x40) != 0;
        if !done {
            byte |= 0x80;
        }
        assert(result@.push(byte) + (if done { Seq::<u8>::empty() } else { spec_encode_signed(value as int) })
            == result@ + spec_encode_signed(old_value as int)) by {
            if !done {
                assert(result@.push(byte) + spec_encode_signed(value as int) =~= result@ + (seq![byte]
                    + spec_encode_signed(value as int)));
            } else {
                assert(result@.push(byte) + Seq::<u8>::empty() =~= result@ + seq![byte]);
            }
        }
        result.push(byte);
        if done {
            break ;
        }
    }
    result
}


/// A scan that ends does so after the byte it started from.
pub proof fn lemma_leb_scan_advances(b: Seq<u8>, i: nat, max: nat, checked: bool)
    ensures
        leb_scan(b, i, max, checked) matches LebScan::Done(n) ==> i < n <= b.len(),
    decreases max - i,
{
    if i < b.len() && i < max && !(checked && i == 4 && b[4] & 0x70 != 0) && b[i as int] & 0x80
        != 0 {
        lemma_leb_scan_advances(b, i + 1, max, checked);
    }
}

/// Each decoder that succeeds reads at least one byte and no more than it
/// was given.
pub proof fn lemma_leb_decode_advances(b: Seq<u8>)
    ensures
        spec_decode_u32(b) matches Ok((_, n)) ==> 1 <= n <= b.len(),
        spec_decode_u64(b) matches Ok((_, n)) ==> 1 <= n <= b.len(),
        spec_decode_i32(b) matches Ok((_, n)) ==> 1 <= n <= b.len(),
        spec_decode_i64(b) matches Ok((_, n)) ==> 1 <= n <= b.len(),
{
    lemma_leb_scan_advances(b, 0, 5, true);
    lemma_leb_scan_advances(b, 0, 10, false);
    lemma_leb_scan_advances(b, 0, 5, false);
}

// ---------------------------------------------------------------------------
// Laws: decoding reads back what encoding wrote.

proof fn lemma_leb_sum_prefix(b: Seq<u8>, t: Seq<u8>, n: nat)
    requires
        n <= b.len(),
    ensures
        leb_sum(b + t, n) == leb_sum(b, n),
    decreases n,
{
    if n > 0 {
        lemma_leb_sum_prefix(b, t, (n - 1) as nat);
        assert((b + t)[n - 1] == b[n - 1]);
    }
}

proof fn lemma_leb_sum_cons(a: u8, t: Seq<u8>, n: nat)
    requires
        n <= t.len(),
    ensures
        leb_sum(seq![a] + t, n + 1) == (a & 0x7f) + 128 * leb_sum(t, n),
    decreases n,
{
    let s = seq![a] + t;
    if n == 0 {
        assert(s[0] == a);
        assert(pow128(0) == 1);
        assert(leb_sum(s, 1) == leb_sum(s, 0) + ((s[0] & 0x7f) as nat) * pow128(0));
        assert(leb_sum(t, 0) == 0);
    } else {
        lemma_leb_sum_cons(a, t, (n - 1) as nat);
        assert(s[n as int] == t[n - 1]);
        let x = (t[n - 1] & 0x7f) as nat;
        let p = pow128((n - 1) as nat);
        assert(pow128(n) == 128 * p);
        assert(leb_sum(s, n + 1) == leb_sum(s, n) + x * pow128(n));
        assert(leb_sum(t, n) == leb_sum(t, (n - 1) as nat) + x * p);
        assert(x * (128 * p) == 128 * (x * p)) by (nonlinear_arith);
    }
}

proof fn lemma_small_byte(b: u8)
    ensures
        b < 128 ==> (b & 0x80 == 0 && b & 0x7f == b),
        b >= 128 ==> (b & 0x80 != 0 && (b & 0x7f) as int == b - 128),
        b & 0x80 == 0 ==> (b & 0x7f == b && (b < 16 <==> b & 0x70 == 0)),
        b < 128 ==> ((b & 0x40 == 0) <==> b < 64),
{
    assert(b < 128 ==> (b & 0x80 == 0 && b & 0x7f == b)) by (bit_vector);
    assert(b >= 128 ==> (b & 0x80 != 0 && (b & 0x7f) as int == b - 128)) by (bit_vector);
    assert(b & 0x80 == 0 ==> (b & 0x7f == b && (b < 16 <==> b & 0x70 == 0))) by (bit_vector);
    assert(b < 128 ==> ((b & 0x40 == 0) <==> b < 64)) by (bit_vector);
}

/// Every byte of a LEB128 number but the last has the continuation bit.
pub open spec fn leb_well_terminated(e: Seq<u8>) -> bool {
    &&& e.len() >= 1
    &&& forall|j: int| 0 <= j < e.len() - 1 ==> #[trigger] e[j] & 0x80 != 0
    &&& e[e.len() - 1] & 0x80 == 0
}

proof fn lemma_encode_unsigned_facts(v: nat)
    ensures
        leb_well_terminated(spec_encode_unsigned(v)),
        leb_sum(spec_encode_unsigned(v), spec_encode_unsigned(v).len()) == v,
        forall|k: nat| k >= 1 && v < pow128(k) ==> spec_encode_unsigned(v).len() <= k,
    decreases v,
{
    let e = spec_encode_unsigned(v);
    if v < 128 {
        let b = v as u8;
        assert(b as nat == v);
        lemma_small_byte(b);
        assert(e == seq![b]);
        assert(leb_sum(e, 1) == leb_sum(e, 0) + ((e[0] & 0x7f) as nat) * pow128(0));
        assert(pow128(0) == 1);
        assert(e.len() == 1);
        assert(e[0] == b);
        assert(b & 0x7f == b);
        assert(((e[0] & 0x7f) as nat) == v);
        assert(leb_sum(e, 0) == 0);
        assert(((e[0] & 0x7f) as nat) * pow128(0) == v) by (nonlinear_arith)
            requires
                pow128(0) == 1,
                ((e[0] & 0x7f) as nat) == v,
        ;
        assert(leb_sum(e, 1) == v);
    } else {
        let lo = v % 128;
        let t = spec_encode_unsigned(v / 128);
        lemma_encode_unsigned_facts(v / 128);
        let b = (lo + 128) as u8;
        assert(b as int == lo + 128);
        lemma_small_byte(b);
        assert(e == seq![b] + t);
        lemma_leb_sum_cons(b, t, t.len());
        assert(leb_sum(e, e.len()) == lo + 128 * (v / 128));
        assert(lo + 128 * (v / 128) == v);
        assert forall|j: int| 0 <= j < e.len() - 1 implies #[trigger] e[j] & 0x80 != 0 by {
            if j > 0 {
                assert(e[j] == t[j - 1]);
            }
        }
        assert(e[e.len() - 1] == t[t.len() - 1]);
        assert forall|k: nat| k >= 1 && v < pow128(k) implies e.len() <= k by {
            if k == 1 {
                reveal_with_fuel(pow128, 2);
            } else {
                assert(pow128(k) == 128 * pow128((k - 1) as nat));
            }
        }
    }
}

proof fn lemma_scan_done(b: Seq<u8>, i: nat, max: nat, checked: bool, n: nat)
    requires
        i < n <= max,
        n <= b.len(),
        forall|j: int| i <= j < n - 1 ==> #[trigger] b[j] & 0x80 != 0,
        b[n - 1] & 0x80 == 0,
        checked && i <= 4 < n ==> b[4] & 0x70 == 0,
    ensures
        leb_scan(b, i, max, checked) == LebScan::Done(n),
    decreases n - i,
{
    if i + 1 < n {
        lemma_scan_done(b, i + 1, max, checked, n);
    }
}

proof fn lemma_encoded_unsigned_scan(v: nat, rest: Seq<u8>, max: nat, checked: bool)
    requires
        spec_encode_unsigned(v).len() <= max,
        checked ==> v < 0x1_0000_0000,
    ensures
        leb_scan(spec_encode_unsigned(v) + rest, 0, max, checked) == LebScan::Done(
            spec_encode_unsigned(v).len(),
        ),
        leb_sum(spec_encode_unsigned(v) + rest, spec_encode_unsigned(v).len()) == v,
{
    let e = spec_encode_unsigned(v);
    let b = e + rest;
    lemma_encode_unsigned_facts(v);
    lemma_leb_sum_prefix(e, rest, e.len());
    assert forall|j: int| 0 <= j < e.len() - 1 implies #[trigger] b[j] & 0x80 != 0 by {
        assert(b[j] == e[j]);
    }
    assert(b[e.len() - 1] == e[e.len() - 1]);
    if checked && e.len() > 4 {
        lemma_pow128_values();
        let top = e[4];
        lemma_small_byte(top);
        assert(e.len() == 5) by {
            assert(v < pow128(5));
        }
        assert(leb_sum(e, 5) == leb_sum(e, 4) + (top & 0x7f) as nat * pow128(4));
        assert(b[4] == top);
    }
    lemma_scan_done(b, 0, max, checked, e.len());
}

/// Decoding an unsigned 32-bit LEB128 encoding gives back the value and its
/// length, whatever bytes follow it.
pub proof fn lemma_u32_roundtrip(v: u32, rest: Seq<u8>)
    ensures
        spec_decode_u32(spec_encode_unsigned(v as nat) + rest) == Ok::<(int, nat), WasmErrorView>(
            (v as int, spec_encode_unsigned(v as nat).len()),
        ),
{
    lemma_encode_unsigned_facts(v as nat);
    lemma_pow128_values();
    assert(v < pow128(5));
    lemma_encoded_unsigned_scan(v as nat, rest, 5, true);
}

/// Decoding an unsigned 64-bit LEB128 encoding gives back the value and its
/// length, whatever bytes follow it.
pub proof fn lemma_u64_roundtrip(v: u64, rest: Seq<u8>)
    ensures
        spec_decode_u64(spec_encode_unsigned(v as nat) + rest) == Ok::<(int, nat), WasmErrorView>(
            (v as int, spec_encode_unsigned(v as nat).len()),
        ),
{
    lemma_encode_unsigned_facts(v as nat);
    lemma_pow128_values();
    assert(v < pow128(10));
    lemma_encoded_unsigned_scan(v as nat, rest, 10, false);
}

/// The number a signed encoding denotes, read without a width limit.
pub open spec fn leb_signed_exact(e: Seq<u8>) -> int {
    if e[e.len() - 1] & 0x40 != 0 {
        leb_sum(e, e.len()) - pow128(e.len())
    } else {
        leb_sum(e, e.len()) as int
    }
}

proof fn lemma_encode_signed_facts(v: int)
    ensures
        leb_well_terminated(spec_encode_signed(v)),
        leb_signed_exact(spec_encode_signed(v)) == v,
    decreases signed_measure(v),
{
    let e = spec_encode_signed(v);
    let low = v % 128;
    let rest = v / 128;
    if (rest == 0 && low < 64) || (rest == -1 && low >= 64) {
        let b = low as u8;
        assert(b as int == low);
        lemma_small_byte(b);
        assert(e == seq![b]);
        assert(leb_sum(e, 1) == leb_sum(e, 0) + ((e[0] & 0x7f) as nat) * pow128(0));
        assert(pow128(0) == 1);
        assert(pow128(1) == 128 * pow128(0));
        assert(e[0] == b);
        assert(((e[0] & 0x7f) as nat) * pow128(0) == b as int) by (nonlinear_arith)
            requires
                pow128(0) == 1,
                ((e[0] & 0x7f) as nat) == b as int,
        ;
        assert(leb_sum(e, 0) == 0);
    } else {
        let t = spec_encode_signed(rest);
        lemma_encode_signed_facts(rest);
        let b = (low + 128) as u8;
        assert(b as int == low + 128);
        lemma_small_byte(b);
        assert(e == seq![b] + t);
        lemma_leb_sum_cons(b, t, t.len());
        assert forall|j: int| 0 <= j < e.len() - 1 implies #[trigger] e[j] & 0x80 != 0 by {
            if j > 0 {
                assert(e[j] == t[j - 1]);
            }
        }
        assert(e[e.len() - 1] == t[t.len() - 1]);
        assert(pow128(e.len()) == 128 * pow128(t.len()));
    }
}

proof fn lemma_encode_signed_len(v: int, k: nat)
    requires
        k >= 1,
        -64 * pow128((k - 1) as nat) <= v < 64 * pow128((k - 1) as nat),
    ensures
        spec_encode_signed(v).len() <= k,
    decreases signed_measure(v),
{
    let low = v % 128;
    let rest = v / 128;
    if (rest == 0 && low < 64) || (rest == -1 && low >= 64) {
    } else {
        if k == 1 {
            reveal_with_fuel(pow128, 2);
        } else {
            assert(pow128((k - 1) as nat) == 128 * pow128((k - 2) as nat));
            lemma_encode_signed_len(rest, (k - 1) as nat);
        }
    }
}

proof fn lemma_encoded_signed_scan(v: int, rest: Seq<u8>, max: nat)
    requires
        spec_encode_signed(v).len() <= max,
    ensures
        leb_scan(spec_encode_signed(v) + rest, 0, max, false) == LebScan::Done(
            spec_encode_signed(v).len(),
        ),
        leb_sum(spec_encode_signed(v) + rest, spec_encode_signed(v).len()) == leb_sum(
            spec_encode_signed(v),
            spec_encode_signed(v).len(),
        ),
        (spec_encode_signed(v) + rest)[spec_encode_signed(v).len() - 1] == spec_encode_signed(v)[
            spec_encode_signed(v).len() - 1],
{
    let e = spec_encode_signed(v);
    let b = e + rest;
    lemma_encode_signed_facts(v);
    lemma_leb_sum_prefix(e, rest, e.len());
    assert forall|j: int| 0 <= j < e.len() - 1 implies #[trigger] b[j] & 0x80 != 0 by {
        assert(b[j] == e[j]);
    }
    assert(b[e.len() - 1] == e[e.len() - 1]);
    lemma_scan_done(b, 0, max, false, e.len());
}

/// Decoding a signed 32-bit LEB128 encoding gives back the value and its
/// length, whatever bytes follow it.
pub proof fn lemma_i32_roundtrip(v: i32, rest: Seq<u8>)
    ensures
        spec_decode_i32(spec_encode_signed(v as int) + rest) == Ok::<(int, nat), WasmErrorView>(
            (v as int, spec_encode_signed(v as int).len()),
        ),
{
    let e = spec_encode_signed(v as int);
    lemma_encode_signed_facts(v as int);
    lemma_pow128_values();
    lemma_encode_signed_len(v as int, 5);
    lemma_encoded_signed_scan(v as int, rest, 5);
    let n = e.len();
    if n == 5 {
        if e[4] & 0x40 != 0 {
            assert(leb_sum(e, 5) == v as int + 0x8_0000_0000);
            assert((v as int + 0x8_0000_0000) % 0x1_0000_0000 == (v as int) % 0x1_0000_0000);
        }
    }
}

/// Decoding a signed 64-bit LEB128 encoding gives back the value and its
/// length, whatever bytes follow it.
pub proof fn lemma_i64_roundtrip(v: i64, rest: Seq<u8>)
    ensures
        spec_decode_i64(spec_encode_signed(v as int) + rest) == Ok::<(int, nat), WasmErrorView>(
            (v as int, spec_encode_signed(v as int).len()),
        ),
{
    let e = spec_encode_signed(v as int);
    lemma_encode_signed_facts(v as int);
    lemma_pow128_values();
    lemma_encode_signed_len(v as int, 10);
    lemma_encoded_signed_scan(v as int, rest, 10);
    let n = e.len();
    if n == 10 {
        if e[9] & 0x40 != 0 {
            assert(leb_sum(e, 10) == v as int + 0x40_0000_0000_0000_0000);
            assert((v as int + 0x40_0000_0000_0000_0000) % 0x1_0000_0000_0000_0000 == (v as int)
                % 0x1_0000_0000_0000_0000);
        }
    }
}

/// The unsigned LEB128 encoding of a 32-bit number takes one to five bytes.
pub proof fn lemma_u32_encoding_len(v: u32)
    ensures
        1 <= spec_encode_unsigned(v as nat).len() <= 5,
{
    lemma_encode_unsigned_facts(v as nat);
    lemma_pow128_values();
    reveal_with_fuel(spec_encode_unsigned, 1);
}

} // verus!
