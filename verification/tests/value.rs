use wasm_parser::types::ValueType;
use wasm_parser::value::encoding::{
    decode_i32_le, decode_u32_le, encode_i32_le, encode_i64_le, encode_u32_le, encode_u64_le,
};
use wasm_parser::value::Value;

#[test]
fn test_value_type() {
    assert_eq!(Value::I32(42).value_type(), ValueType::I32);
    assert_eq!(Value::I64(42).value_type(), ValueType::I64);
    assert_eq!(Value::F32(3.14f32.to_bits()).value_type(), ValueType::F32);
    assert_eq!(Value::F64(3.14f64.to_bits()).value_type(), ValueType::F64);
}

#[test]
fn test_f32_roundtrip() {
    let values = [0.0f32, -0.0, 1.0, -1.0, f32::MAX, f32::MIN, f32::INFINITY, f32::NAN];
    for &value in &values {
        let encoded = encode_u32_le(value.to_bits());
        let decoded = f32::from_bits(decode_u32_le(&encoded).unwrap());
        if value.is_nan() {
            assert!(decoded.is_nan());
        } else {
            assert_eq!(decoded, value);
        }
    }
}

#[test]
fn test_f64_roundtrip() {
    let values = [0.0f64, -0.0, 1.0, -1.0, f64::MAX, f64::MIN, f64::INFINITY, f64::NAN];
    for &value in &values {
        let encoded = encode_u64_le(value.to_bits());
        assert_eq!(encoded, value.to_bits().to_le_bytes());
        let decoded = f64::from_bits(u64::from_le_bytes(encoded));
        if value.is_nan() {
            assert!(decoded.is_nan());
        } else {
            assert_eq!(decoded, value);
        }
    }
}

#[test]
fn value_test_i32_roundtrip() {
    let values = [0i32, 1, -1, i32::MAX, i32::MIN, 42, -42];
    for &value in &values {
        let encoded = encode_i32_le(value);
        let decoded = decode_i32_le(&encoded).unwrap();
        assert_eq!(decoded, value);
    }
}

#[test]
fn value_le_bytes() {
    assert_eq!(encode_u32_le(0x1234_5678), [0x78, 0x56, 0x34, 0x12]);
    assert_eq!(encode_i32_le(-2), [0xfe, 0xff, 0xff, 0xff]);
    assert_eq!(encode_u64_le(0x0102_0304_0506_0708), [8, 7, 6, 5, 4, 3, 2, 1]);
    assert_eq!(encode_i64_le(-1), [0xff; 8]);
    assert_eq!(decode_u32_le(&[1, 0, 0, 0, 9]), Some(1));
    assert_eq!(decode_u32_le(&[1, 0, 0]), None);
    assert_eq!(decode_i32_le(&[0xff, 0xff, 0xff, 0x7f]), Some(i32::MAX));
}

#[test]
fn value_accessors() {
    assert_eq!(Value::I32(7).to_i32(), Some(7));
    assert_eq!(Value::I64(7).to_i32(), None);
    assert_eq!(Value::I64(-7).to_i64(), Some(-7));
    assert_eq!(Value::F32(1.5f32.to_bits()).to_f32().map(f32::from_bits), Some(1.5));
    assert_eq!(Value::F64(2.5f64.to_bits()).to_f64().map(f64::from_bits), Some(2.5));
    assert_eq!(Value::FuncRef(None).to_f64(), None);
    assert_eq!(Value::V128([0; 16]).value_type(), ValueType::V128);
    assert_eq!(Value::ExternRef(Some(1)).value_type(), ValueType::ExternRef);
}
