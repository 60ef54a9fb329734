use wasm_parser::error::WasmError;
use wasm_parser::leb128::{decode_i32, decode_i64, decode_u32, decode_u64, encode_i32, encode_i64, encode_u32, encode_u64};

#[test]
fn test_u32_roundtrip() {
    let values = [0u32, 1, 127, 128, 255, 256, 16383, 16384, 65535, 65536, u32::MAX];
    for &value in &values {
        let encoded = encode_u32(value);
        let (decoded, size) = decode_u32(&encoded).unwrap();
        assert_eq!(decoded, value);
        assert_eq!(size, encoded.len());
    }
}

#[test]
fn leb128_test_i32_roundtrip() {
    let values = [0i32, 1, -1, 127, -127, 128, -128, 255, -255, 256, -256, i32::MAX, i32::MIN];
    for &value in &values {
        let encoded = encode_i32(value);
        let (decoded, size) = decode_i32(&encoded).unwrap();
        assert_eq!(decoded, value);
        assert_eq!(size, encoded.len());
    }
}

#[test]
fn test_u64_roundtrip() {
    let values = [0u64, 1, 127, 128, u64::MAX];
    for &value in &values {
        let encoded = encode_u64(value);
        let (decoded, size) = decode_u64(&encoded).unwrap();
        assert_eq!(decoded, value);
        assert_eq!(size, encoded.len());
    }
}

#[test]
fn test_i64_roundtrip() {
    let values = [0i64, 1, -1, 127, -127, i64::MAX, i64::MIN];
    for &value in &values {
        let encoded = encode_i64(value);
        let (decoded, size) = decode_i64(&encoded).unwrap();
        assert_eq!(decoded, value);
        assert_eq!(size, encoded.len());
    }
}

#[test]
fn test_known_u32_values() {
    assert_eq!(encode_u32(624485), vec![0xe5, 0x8e, 0x26]);
    assert_eq!(encode_u32(127), vec![0x7f]);
    assert_eq!(encode_u32(128), vec![0x80, 0x01]);
    assert_eq!(encode_u32(129), vec![0x81, 0x01]);
}

#[test]
fn test_known_i32_values() {
    assert_eq!(encode_i32(-123456), vec![0xc0, 0xbb, 0x78]);
    // 127 has its sign bit (0x40) set in the first group, so a second
    // byte is needed to keep it positive.
    assert_eq!(encode_i32(127), vec![0xff, 0x00]);
    assert_eq!(encode_i32(-1), vec![0x7f]);
    assert_eq!(encode_i32(-128), vec![0x80, 0x7f]);
}

#[test]
fn leb128_decode_stops_at_the_last_byte() {
    // Trailing bytes after the number are not read.
    assert_eq!(decode_u32(&[0xe5, 0x8e, 0x26, 0xff, 0xff]).unwrap(), (624485, 3));
    assert_eq!(decode_i32(&[0x7f, 0x00]).unwrap(), (-1, 1));
    assert_eq!(decode_u64(&[0x80, 0x01]).unwrap(), (128, 2));
    assert_eq!(decode_i64(&[0x80, 0x7f]).unwrap(), (-128, 2));
}

#[test]
fn leb128_decode_errors() {
    assert_eq!(decode_u32(&[]), Err(WasmError::UnexpectedEof));
    assert_eq!(decode_u32(&[0x80, 0x80]), Err(WasmError::UnexpectedEof));
    assert!(matches!(decode_u32(&[0x80, 0x80, 0x80, 0x80, 0x80, 0x01]), Err(WasmError::Leb128DecodeError(_))));
    // The fifth byte of a u32 may hold only four bits.
    assert!(matches!(decode_u32(&[0xff, 0xff, 0xff, 0xff, 0x1f]), Err(WasmError::Leb128DecodeError(_))));
    assert_eq!(decode_u32(&[0xff, 0xff, 0xff, 0xff, 0x0f]).unwrap(), (u32::MAX, 5));
    assert!(matches!(decode_i32(&[0x80, 0x80, 0x80, 0x80, 0x80, 0x00]), Err(WasmError::Leb128DecodeError(_))));
    assert_eq!(decode_i64(&[0xff]), Err(WasmError::UnexpectedEof));
}

#[test]
fn leb128_encoding_lengths() {
    assert_eq!(encode_u32(u32::MAX).len(), 5);
    assert_eq!(encode_u64(u64::MAX).len(), 10);
    assert_eq!(encode_i64(i64::MIN).len(), 10);
    assert_eq!(encode_i32(63), vec![0x3f]);
    assert_eq!(encode_i32(64), vec![0xc0, 0x00]);
    assert_eq!(encode_i32(-64), vec![0x40]);
    assert_eq!(encode_i32(-65), vec![0xbf, 0x7f]);
}
