use wasm_parser::error::WasmError;
use wasm_parser::types::{BlockType, ExternalKind, FuncType, Limits, ValueType};

#[test]
fn types_test_value_type_from_byte() {
    assert_eq!(ValueType::from_byte(0x7f).unwrap(), ValueType::I32);
    assert_eq!(ValueType::from_byte(0x7e).unwrap(), ValueType::I64);
    assert_eq!(ValueType::from_byte(0x7d).unwrap(), ValueType::F32);
    assert_eq!(ValueType::from_byte(0x7c).unwrap(), ValueType::F64);
    assert_eq!(ValueType::from_byte(0x7b).unwrap(), ValueType::V128);
    assert_eq!(ValueType::from_byte(0x70).unwrap(), ValueType::FuncRef);
    assert_eq!(ValueType::from_byte(0x6f).unwrap(), ValueType::ExternRef);
    assert!(ValueType::from_byte(0x00).is_err());
}

#[test]
fn types_test_block_type_roundtrip() {
    let types = vec![
        BlockType::Empty,
        BlockType::Value(ValueType::I32),
        BlockType::Value(ValueType::I64),
        BlockType::Value(ValueType::F32),
        BlockType::Value(ValueType::F64),
        BlockType::TypeIndex(0),
        BlockType::TypeIndex(5),
    ];

    for bt in &types {
        let encoded = bt.to_i64();
        let decoded = BlockType::from_i64(encoded).unwrap();
        assert_eq!(*bt, decoded);
    }
}

#[test]
fn types_test_limits_validation() {
    let valid = Limits::new(0, Some(10));
    assert!(valid.validate().is_ok());

    let valid2 = Limits::new(10, None);
    assert!(valid2.validate().is_ok());

    let invalid = Limits::new(10, Some(5));
    assert!(invalid.validate().is_err());
}

#[test]
fn types_test_external_kind() {
    assert_eq!(ExternalKind::from_byte(0x00).unwrap(), ExternalKind::Func);
    assert_eq!(ExternalKind::from_byte(0x01).unwrap(), ExternalKind::Table);
    assert_eq!(ExternalKind::from_byte(0x02).unwrap(), ExternalKind::Mem);
    assert_eq!(ExternalKind::from_byte(0x03).unwrap(), ExternalKind::Global);
    assert!(ExternalKind::from_byte(0x04).is_err());
}

#[test]
fn types_value_type_lenient_bytes() {
    // Packed GC types read as i32; other reference forms read as externref.
    assert_eq!(ValueType::from_byte(0x01).unwrap(), ValueType::I32);
    assert_eq!(ValueType::from_byte(0x02).unwrap(), ValueType::I32);
    assert_eq!(ValueType::from_byte(0x6e).unwrap(), ValueType::ExternRef);
    assert_eq!(ValueType::from_byte(0x00), Err(WasmError::InvalidValueType(0x00)));
    for t in [ValueType::I32, ValueType::I64, ValueType::F32, ValueType::F64, ValueType::V128, ValueType::FuncRef, ValueType::ExternRef] {
        assert_eq!(ValueType::from_byte(t.to_byte()).unwrap(), t);
    }
    assert_eq!(ValueType::I32.to_byte(), 0x7f);
    assert_eq!(ValueType::ExternRef.to_byte(), 0x6f);
}

#[test]
fn types_block_type_values() {
    assert_eq!(BlockType::Empty.to_i64(), -64);
    assert_eq!(BlockType::Value(ValueType::FuncRef).to_i64(), -16);
    assert_eq!(BlockType::from_i64(-17).unwrap(), BlockType::Value(ValueType::ExternRef));
    assert_eq!(BlockType::from_i64(-63).unwrap(), BlockType::Value(ValueType::I32));
    assert_eq!(BlockType::from_i64(-50).unwrap(), BlockType::Value(ValueType::ExternRef));
    assert_eq!(BlockType::from_i64(-20).unwrap(), BlockType::Empty);
    assert_eq!(BlockType::from_i64(-15).unwrap(), BlockType::Empty);
    assert_eq!(BlockType::from_i64(7).unwrap(), BlockType::TypeIndex(7));
    assert_eq!(BlockType::from_i64(-9), Err(WasmError::InvalidBlockType(-9)));
    assert_eq!(BlockType::from_i64(-65), Err(WasmError::InvalidBlockType(-65)));
}

#[test]
fn types_limits_constructors() {
    let l = Limits::new64(1, Some(2));
    assert!(l.memory64);
    assert!(!l.shared);
    assert_eq!(l.min, 1);
    assert_eq!(l.max, Some(2));
    assert!(!Limits::new(1, None).memory64);
    assert_eq!(Limits::new(10, Some(5)).validate(), Err(WasmError::InvalidLimits { min: 10, max: 5 }));
    assert!(Limits::new(5, Some(5)).validate().is_ok());
}

#[test]
fn types_external_kind_bytes() {
    assert_eq!(ExternalKind::from_byte(0x04), Err(WasmError::InvalidExternalKind(0x04)));
    assert_eq!(ExternalKind::Global.to_byte(), 0x03);
    assert_eq!(ExternalKind::Unknown(9).to_byte(), 9);
    let f = FuncType::new(vec![ValueType::I32], vec![]);
    assert_eq!(f.params, vec![ValueType::I32]);
    assert!(f.results.is_empty());
}

#[test]
fn types_strict_conversions() {
    assert_eq!(ValueType::from_byte_strict(0x7f), Ok(ValueType::I32));
    assert_eq!(ValueType::from_byte_strict(0x6f), Ok(ValueType::ExternRef));
    assert_eq!(ValueType::from_byte_strict(0x01), Err(WasmError::InvalidValueType(0x01)));
    assert_eq!(ValueType::from_byte_strict(0x00), Err(WasmError::InvalidValueType(0x00)));
    assert_eq!(BlockType::from_i64_strict(-64), Ok(BlockType::Empty));
    assert_eq!(BlockType::from_i64_strict(-17), Ok(BlockType::Value(ValueType::ExternRef)));
    assert_eq!(BlockType::from_i64_strict(9), Ok(BlockType::TypeIndex(9)));
    assert_eq!(BlockType::from_i64_strict(-20), Err(WasmError::InvalidBlockType(-20)));
    assert_eq!(ExternalKind::from_byte_strict(0x02), Ok(ExternalKind::Mem));
    assert_eq!(ExternalKind::from_byte_strict(0x04), Err(WasmError::InvalidKind(0x04)));
}
