//! WebAssembly constant values.

pub mod encoding;

use vstd::prelude::*;
use crate::types::ValueType;

verus! {

/// WebAssembly constant value. The float variants hold the IEEE 754 bit
/// pattern of the value.
#[derive(Debug, Clone, Copy, PartialEq)]
pub enum Value {
    I32(i32),
    I64(i64),
    F32(u32),
    F64(u64),
    V128([u8; 16]),
    FuncRef(Option<u32>),
    ExternRef(Option<u32>),
}

/// The value type of a value.
pub open spec fn type_of_value(v: Value) -> ValueType {
    match v {
        Value::I32(_) => ValueType::I32,
        Value::I64(_) => ValueType::I64,
        Value::F32(_) => ValueType::F32,
        Value::F64(_) => ValueType::F64,
        Value::V128(_) => ValueType::V128,
        Value::FuncRef(_) => ValueType::FuncRef,
        Value::ExternRef(_) => ValueType::ExternRef,
    }
}

impl Value {
    /// Get the value type.
    pub fn value_type(&self) -> (r: ValueType)
        ensures
            r == type_of_value(*self),
    {
        match self {
            Value::I32(_) => ValueType::I32,
            Value::I64(_) => ValueType::I64,
            Value::F32(_) => ValueType::F32,
            Value::F64(_) => ValueType::F64,
            Value::V128(_) => ValueType::V128,
            Value::FuncRef(_) => ValueType::FuncRef,
            Value::ExternRef(_) => ValueType::ExternRef,
        }
    }

    /// Convert to i32.
    pub fn to_i32(&self) -> (r: Option<i32>)
        ensures
            r == (match *self {
                Value::I32(v) => Some(v),
                _ => None,
            }),
    {
        match self {
            Value::I32(v) => Some(*v),
            _ => None,
        }
    }

    /// Convert to i64.
    pub fn to_i64(&self) -> (r: Option<i64>)
        ensures
            r == (match *self {
                Value::I64(v) => Some(v),
                _ => None,
            }),
    {
        match self {
            Value::I64(v) => Some(*v),
            _ => None,
        }
    }

    /// The bit pattern of an f32 value.
    pub fn to_f32(&self) -> (r: Option<u32>)
        ensures
            r == (match *self {
                Value::F32(v) => Some(v),
                _ => None,
            }),
    {
        match self {
            Value::F32(v) => Some(*v),
            _ => None,
        }
    }

    /// The bit pattern of an f64 value.
    pub fn to_f64(&self) -> (r: Option<u64>)
        ensures
            r == (match *self {
                Value::F64(v) => Some(v),
                _ => None,
            }),
    {
        match self {
            Value::F64(v) => Some(*v),
            _ => None,
        }
    }
}

} // verus!
