//! WebAssembly type definitions.

use vstd::prelude::*;
use crate::error::WasmError;

verus! {

/// WebAssembly value types.
#[derive(Debug, Clone, Copy, PartialEq, Eq, Hash, Structural)]
pub enum ValueType {
    /// 32-bit integer
    I32,
    /// 64-bit integer
    I64,
    /// 32-bit float
    F32,
    /// 64-bit float (double)
    F64,
    /// 128-bit vector (SIMD)
    V128,
    /// Function reference
    FuncRef,
    /// External reference
    ExternRef,
}

/// The byte that encodes a value type in the binary format.
pub open spec fn value_type_byte(t: ValueType) -> u8 {
    match t {
        ValueType::I32 => 0x7f,
        ValueType::I64 => 0x7e,
        ValueType::F32 => 0x7d,
        ValueType::F64 => 0x7c,
        ValueType::V128 => 0x7b,
        ValueType::FuncRef => 0x70,
        ValueType::ExternRef => 0x6f,
    }
}

/// The value type that a byte of the binary format denotes, `None` where the
/// byte is rejected. Besides the core and reference types, the packed types
/// of the GC proposal (0x01, 0x02) read as `I32`, and the other reference,
/// reserved and multi-byte forms read as `ExternRef`; only 0x00 is rejected.
pub open spec fn value_type_of_byte(byte: u8) -> Option<ValueType> {
    if byte == 0x7f {
        Some(ValueType::I32)
    } else if byte == 0x7e {
        Some(ValueType::I64)
    } else if byte == 0x7d {
        Some(ValueType::F32)
    } else if byte == 0x7c {
        Some(ValueType::F64)
    } else if byte == 0x7b {
        Some(ValueType::V128)
    } else if byte == 0x70 {
        Some(ValueType::FuncRef)
    } else if byte == 0x6f {
        Some(ValueType::ExternRef)
    } else if byte == 0x01 || byte == 0x02 {
        Some(ValueType::I32)
    } else if byte == 0x00 {
        None
    } else {
        Some(ValueType::ExternRef)
    }
}

impl ValueType {
    /// Convert from byte to ValueType.
    pub fn from_byte(byte: u8) -> (r: Result<ValueType, WasmError>)
        ensures
            r == (match value_type_of_byte(byte) {
                Some(t) => Ok(t),
                None => Err(WasmError::InvalidValueType(byte)),
            }),
    {
        match byte {
            0x7f => Ok(ValueType::I32),
            0x7e => Ok(ValueType::I64),
            0x7d => Ok(ValueType::F32),
            0x7c => Ok(ValueType::F64),
            0x7b => Ok(ValueType::V128),
            0x70 => Ok(ValueType::FuncRef),
            0x6f => Ok(ValueType::ExternRef),
            0x01 | 0x02 => Ok(ValueType::I32),
            0x03..=0x6e => Ok(ValueType::ExternRef),
            0x71..=0x7a => Ok(ValueType::ExternRef),
            0x80..=0xff => Ok(ValueType::ExternRef),
            _ => Err(WasmError::InvalidValueType(byte)),
        }
    }

    /// Convert to byte.
    pub fn to_byte(self) -> (r: u8)
        ensures
            r == value_type_byte(self),
    {
        match self {
            ValueType::I32 => 0x7f,
            ValueType::I64 => 0x7e,
            ValueType::F32 => 0x7d,
            ValueType::F64 => 0x7c,
            ValueType::V128 => 0x7b,
            ValueType::FuncRef => 0x70,
            ValueType::ExternRef => 0x6f,
        }
    }
}

/// Reading back the byte of a value type gives the same value type.
pub proof fn lemma_value_type_byte_roundtrip(t: ValueType)
    ensures
        value_type_of_byte(value_type_byte(t)) == Some(t),
{
}

/// The value type that a byte denotes under the core format alone: only the
/// seven bytes of the core and reference types are accepted.
pub open spec fn value_type_of_byte_strict(byte: u8) -> Option<ValueType> {
    if byte == 0x7f {
        Some(ValueType::I32)
    } else if byte == 0x7e {
        Some(ValueType::I64)
    } else if byte == 0x7d {
        Some(ValueType::F32)
    } else if byte == 0x7c {
        Some(ValueType::F64)
    } else if byte == 0x7b {
        Some(ValueType::V128)
    } else if byte == 0x70 {
        Some(ValueType::FuncRef)
    } else if byte == 0x6f {
        Some(ValueType::ExternRef)
    } else {
        None
    }
}

impl ValueType {
    /// Convert from byte to ValueType, accepting only the bytes of the core
    /// and reference types.
    pub fn from_byte_strict(byte: u8) -> (r: Result<ValueType, WasmError>)
        ensures
            r == (match value_type_of_byte_strict(byte) {
                Some(t) => Ok(t),
                None => Err(WasmError::InvalidValueType(byte)),
            }),
    {
        match byte {
            0x7f => Ok(ValueType::I32),
            0x7e => Ok(ValueType::I64),
            0x7d => Ok(ValueType::F32),
            0x7c => Ok(ValueType::F64),
            0x7b => Ok(ValueType::V128),
            0x70 => Ok(ValueType::FuncRef),
            0x6f => Ok(ValueType::ExternRef),
            _ => Err(WasmError::InvalidValueType(byte)),
        }
    }
}

/// The strict reading gives back every value type from its byte, and
/// accepts no other byte.
pub proof fn lemma_value_type_byte_strict_roundtrip(t: ValueType, byte: u8)
    ensures
        value_type_of_byte_strict(value_type_byte(t)) == Some(t),
        value_type_of_byte_strict(byte) matches Some(u) ==> value_type_byte(u) == byte,
{
}

/// WebAssembly block type (used in control flow instructions).
#[derive(Debug, Clone, Copy, PartialEq, Eq, Structural)]
pub enum BlockType {
    /// Empty block (void)
    Empty,
    /// Single value type
    Value(ValueType),
    /// Type index (for multi-value blocks)
    TypeIndex(i64),
}

/// The block type that a signed LEB128 value denotes, `None` where it is
/// rejected. Core and reference types are exact; the GC packed types read as
/// `I32`, the GC reference types as `ExternRef`, reserved and proposal
/// values as `Empty`, and every non-negative value is a type index.
pub open spec fn block_type_of_i64(value: i64) -> Option<BlockType> {
    if value == -64 {
        Some(BlockType::Empty)
    } else if value == -1 {
        Some(BlockType::Value(ValueType::I32))
    } else if value == -2 {
        Some(BlockType::Value(ValueType::I64))
    } else if value == -3 {
        Some(BlockType::Value(ValueType::F32))
    } else if value == -4 {
        Some(BlockType::Value(ValueType::F64))
    } else if value == -5 {
        Some(BlockType::Value(ValueType::V128))
    } else if value == -16 {
        Some(BlockType::Value(ValueType::FuncRef))
    } else if value == -17 {
        Some(BlockType::Value(ValueType::ExternRef))
    } else if value == -63 || value == -62 {
        Some(BlockType::Value(ValueType::I32))
    } else if -61 <= value <= -49 {
        Some(BlockType::Value(ValueType::ExternRef))
    } else if -48 <= value <= -18 {
        Some(BlockType::Empty)
    } else if value == -15 || value == -12 || value == -8 || value == -7 || value == -6 {
        Some(BlockType::Empty)
    } else if value >= 0 {
        Some(BlockType::TypeIndex(value))
    } else {
        None
    }
}

/// The signed LEB128 value that encodes a block type.
pub open spec fn block_type_value(bt: BlockType) -> i64 {
    match bt {
        BlockType::Empty => -64i64,
        BlockType::Value(vt) => match vt {
            ValueType::I32 => -1i64,
            ValueType::I64 => -2i64,
            ValueType::F32 => -3i64,
            ValueType::F64 => -4i64,
            ValueType::V128 => -5i64,
            ValueType::FuncRef => -16i64,
            ValueType::ExternRef => -17i64,
        },
        BlockType::TypeIndex(idx) => idx,
    }
}

impl BlockType {
    /// Convert from signed LEB128 value.
    pub fn from_i64(value: i64) -> (r: Result<BlockType, WasmError>)
        ensures
            r == (match block_type_of_i64(value) {
                Some(bt) => Ok(bt),
                None => Err(WasmError::InvalidBlockType(value)),
            }),
    {
        match value {
            -64 => Ok(BlockType::Empty),
            -1 => Ok(BlockType::Value(ValueType::I32)),
            -2 => Ok(BlockType::Value(ValueType::I64)),
            -3 => Ok(BlockType::Value(ValueType::F32)),
            -4 => Ok(BlockType::Value(ValueType::F64)),
            -5 => Ok(BlockType::Value(ValueType::V128)),
            -16 => Ok(BlockType::Value(ValueType::FuncRef)),
            -17 => Ok(BlockType::Value(ValueType::ExternRef)),
            -63 | -62 => Ok(BlockType::Value(ValueType::I32)),
            -61..=-49 => Ok(BlockType::Value(ValueType::ExternRef)),
            -48..=-33 => Ok(BlockType::Empty),
            -32..=-18 => Ok(BlockType::Empty),
            -15 => Ok(BlockType::Empty),
            -12 => Ok(BlockType::Empty),
            -8 => Ok(BlockType::Empty),
            -7 => Ok(BlockType::Empty),
            -6 => Ok(BlockType::Empty),
            idx if idx >= 0 => Ok(BlockType::TypeIndex(idx)),
            _ => Err(WasmError::InvalidBlockType(value)),
        }
    }

    /// Convert to i64 for encoding.
    pub fn to_i64(self) -> (r: i64)
        ensures
            r == block_type_value(self),
    {
        match self {
            BlockType::Empty => -64,
            BlockType::Value(vt) => match vt {
                ValueType::I32 => -1,
                ValueType::I64 => -2,
                ValueType::F32 => -3,
                ValueType::F64 => -4,
                ValueType::V128 => -5,
                ValueType::FuncRef => -16,
                ValueType::ExternRef => -17,
            },
            BlockType::TypeIndex(idx) => idx,
        }
    }
}

/// Converting a block type to its value and back gives the same block type,
/// for every block type but a negative type index.
pub proof fn lemma_block_type_roundtrip(bt: BlockType)
    requires
        !(bt matches BlockType::TypeIndex(i) && i < 0),
    ensures
        block_type_of_i64(block_type_value(bt)) == Some(bt),
{
}

/// The block type that a signed LEB128 value denotes under the core format
/// alone: the empty type, the seven value types, and type indices.
pub open spec fn block_type_of_i64_strict(value: i64) -> Option<BlockType> {
    if value == -64 {
        Some(BlockType::Empty)
    } else if value == -1 {
        Some(BlockType::Value(ValueType::I32))
    } else if value == -2 {
        Some(BlockType::Value(ValueType::I64))
    } else if value == -3 {
        Some(BlockType::Value(ValueType::F32))
    } else if value == -4 {
        Some(BlockType::Value(ValueType::F64))
    } else if value == -5 {
        Some(BlockType::Value(ValueType::V128))
    } else if value == -16 {
        Some(BlockType::Value(ValueType::FuncRef))
    } else if value == -17 {
        Some(BlockType::Value(ValueType::ExternRef))
    } else if value >= 0 {
        Some(BlockType::TypeIndex(value))
    } else {
        None
    }
}

impl BlockType {
    /// Convert from signed LEB128 value, accepting only the values of the
    /// core format.
    pub fn from_i64_strict(value: i64) -> (r: Result<BlockType, WasmError>)
        ensures
            r == (match block_type_of_i64_strict(value) {
                Some(bt) => Ok(bt),
                None => Err(WasmError::InvalidBlockType(value)),
            }),
    {
        match value {
            -64 => Ok(BlockType::Empty),
            -1 => Ok(BlockType::Value(ValueType::I32)),
            -2 => Ok(BlockType::Value(ValueType::I64)),
            -3 => Ok(BlockType::Value(ValueType::F32)),
            -4 => Ok(BlockType::Value(ValueType::F64)),
            -5 => Ok(BlockType::Value(ValueType::V128)),
            -16 => Ok(BlockType::Value(ValueType::FuncRef)),
            -17 => Ok(BlockType::Value(ValueType::ExternRef)),
            idx if idx >= 0 => Ok(BlockType::TypeIndex(idx)),
            _ => Err(WasmError::InvalidBlockType(value)),
        }
    }
}

/// The strict reading gives back every block type but a negative type
/// index from its value, and accepts no other value.
pub proof fn lemma_block_type_strict_roundtrip(bt: BlockType, value: i64)
    ensures
        !(bt matches BlockType::TypeIndex(i) && i < 0) ==> block_type_of_i64_strict(block_type_value(bt)) == Some(bt),
        block_type_of_i64_strict(value) matches Some(b) ==> block_type_value(b) == value,
{
}

/// Function type (parameters and results).
#[derive(Debug, Clone, PartialEq, Eq, Default)]
pub struct FuncType {
    /// Parameter types
    pub params: Vec<ValueType>,
    /// Result types
    pub results: Vec<ValueType>,
}

/// Mathematical model of a [`FuncType`].
pub struct FuncTypeView {
    pub params: Seq<ValueType>,
    pub results: Seq<ValueType>,
}

impl View for FuncType {
    type V = FuncTypeView;

    open spec fn view(&self) -> FuncTypeView {
        FuncTypeView { params: self.params@, results: self.results@ }
    }
}

impl FuncType {
    /// Create a new function type.
    pub fn new(params: Vec<ValueType>, results: Vec<ValueType>) -> (r: FuncType)
        ensures
            r.params@ == params@,
            r.results@ == results@,
    {
        FuncType { params, results }
    }
}

/// Memory type with limits.
#[derive(Debug, Clone, Copy, PartialEq, Eq, Structural)]
pub struct MemType {
    /// Memory limits
    pub limits: Limits,
}

/// Table type with element type and limits.
#[derive(Debug, Clone, Copy, PartialEq, Eq, Structural)]
pub struct TableType {
    /// Table limits
    pub limits: Limits,
    /// Element type (usually funcref)
    pub elem_type: ValueType,
}

/// Global type with value type and mutability.
#[derive(Debug, Clone, Copy, PartialEq, Eq, Structural)]
pub struct GlobalType {
    /// Value type of the global
    pub value_type: ValueType,
    /// Whether the global is mutable
    pub mutable: bool,
}

/// Limits (min and optional max).
#[derive(Debug, Clone, Copy, PartialEq, Eq, Structural)]
pub struct Limits {
    /// Minimum size
    pub min: u32,
    /// Maximum size (optional)
    pub max: Option<u32>,
    /// Memory/table has a 64-bit index (memory64 proposal)
    pub memory64: bool,
    /// Memory is shared (threads proposal)
    pub shared: bool,
}

impl Limits {
    /// Create new limits with optional maximum.
    pub fn new(min: u32, max: Option<u32>) -> (r: Limits)
        ensures
            r == (Limits { min, max, memory64: false, shared: false }),
    {
        Limits { min, max, memory64: false, shared: false }
    }

    /// Create new limits for memory64.
    pub fn new64(min: u32, max: Option<u32>) -> (r: Limits)
        ensures
            r == (Limits { min, max, memory64: true, shared: false }),
    {
        Limits { min, max, memory64: true, shared: false }
    }

    /// Validate that max >= min if max is present.
    pub fn validate(&self) -> (r: Result<(), WasmError>)
        ensures
            r == (match self.max {
                Some(max) if max < self.min => Err(WasmError::InvalidLimits { min: self.min, max }),
                _ => Ok(()),
            }),
    {
        if let Some(max) = self.max {
            if max < self.min {
                return Err(WasmError::InvalidLimits { min: self.min, max });
            }
        }
        Ok(())
    }
}

/// External kind (for imports and exports).
#[derive(Debug, Clone, Copy, PartialEq, Eq, Structural)]
pub enum ExternalKind {
    /// Function
    Func,
    /// Table
    Table,
    /// Memory
    Mem,
    /// Global
    Global,
    /// Unknown/custom kind (for extended WASM proposals)
    Unknown(u8),
}

/// The byte that encodes an external kind.
pub open spec fn external_kind_byte(k: ExternalKind) -> u8 {
    match k {
        ExternalKind::Func => 0x00,
        ExternalKind::Table => 0x01,
        ExternalKind::Mem => 0x02,
        ExternalKind::Global => 0x03,
        ExternalKind::Unknown(byte) => byte,
    }
}

/// The external kind that a byte denotes; bytes above 0x03 are rejected.
pub open spec fn external_kind_of_byte(byte: u8) -> Option<ExternalKind> {
    if byte == 0x00 {
        Some(ExternalKind::Func)
    } else if byte == 0x01 {
        Some(ExternalKind::Table)
    } else if byte == 0x02 {
        Some(ExternalKind::Mem)
    } else if byte == 0x03 {
        Some(ExternalKind::Global)
    } else {
        None
    }
}

impl ExternalKind {
    /// Convert from byte.
    pub fn from_byte(byte: u8) -> (r: Result<ExternalKind, WasmError>)
        ensures
            r == (match external_kind_of_byte(byte) {
                Some(k) => Ok(k),
                None => Err(WasmError::InvalidExternalKind(byte)),
            }),
    {
        match byte {
            0x00 => Ok(ExternalKind::Func),
            0x01 => Ok(ExternalKind::Table),
            0x02 => Ok(ExternalKind::Mem),
            0x03 => Ok(ExternalKind::Global),
            _ => Err(WasmError::InvalidExternalKind(byte)),
        }
    }

    /// Convert to byte.
    pub fn to_byte(self) -> (r: u8)
        ensures
            r == external_kind_byte(self),
    {
        match self {
            ExternalKind::Func => 0x00,
            ExternalKind::Table => 0x01,
            ExternalKind::Mem => 0x02,
            ExternalKind::Global => 0x03,
            ExternalKind::Unknown(byte) => byte,
        }
    }
}

/// The four known kinds read back from their byte; an `Unknown` kind reads
/// back only where its byte is one of theirs.
pub proof fn lemma_external_kind_roundtrip(k: ExternalKind)
    requires
        !(k is Unknown),
    ensures
        external_kind_of_byte(external_kind_byte(k)) == Some(k),
{
}

impl ExternalKind {
    /// Convert from byte, refusing any other byte as an invalid
    /// import/export kind.
    pub fn from_byte_strict(byte: u8) -> (r: Result<ExternalKind, WasmError>)
        ensures
            r == (match external_kind_of_byte(byte) {
                Some(k) => Ok(k),
                None => Err(WasmError::InvalidKind(byte)),
            }),
    {
        match byte {
            0x00 => Ok(ExternalKind::Func),
            0x01 => Ok(ExternalKind::Table),
            0x02 => Ok(ExternalKind::Mem),
            0x03 => Ok(ExternalKind::Global),
            _ => Err(WasmError::InvalidKind(byte)),
        }
    }
}

/// Import description (what kind of import).
#[derive(Debug, Clone, PartialEq, Eq, Structural)]
pub enum ImportDesc {
    /// Function with type index
    Func(u32),
    /// Table
    Table(TableType),
    /// Memory
    Mem(MemType),
    /// Global
    Global(GlobalType),
}

} // verus!
