//! WebAssembly instruction definitions.

use vstd::prelude::*;
use crate::types::{BlockType, ValueType};

verus! {

/// WebAssembly instruction opcodes.
#[derive(Debug, Clone, Copy, PartialEq, Eq, Structural)]
pub enum Opcode {
    Unreachable,
    Nop,
    Block,
    Loop,
    If,
    Else,
    End,
    Br,
    BrIf,
    BrTable,
    Return,
    Call,
    CallIndirect,
    Drop,
    Select,
    LocalGet,
    LocalSet,
    LocalTee,
    GlobalGet,
    GlobalSet,
    I32Load,
    I64Load,
    F32Load,
    F64Load,
    I32Load8S,
    I32Load8U,
    I32Load16S,
    I32Load16U,
    I64Load8S,
    I64Load8U,
    I64Load16S,
    I64Load16U,
    I64Load32S,
    I64Load32U,
    I32Store,
    I64Store,
    F32Store,
    F64Store,
    I32Store8,
    I32Store16,
    I64Store8,
    I64Store16,
    I64Store32,
    MemorySize,
    MemoryGrow,
    I32Const,
    I64Const,
    F32Const,
    F64Const,
    I32Eqz,
    I32Eq,
    I32Ne,
    I32LtS,
    I32LtU,
    I32GtS,
    I32GtU,
    I32LeS,
    I32LeU,
    I32GeS,
    I32GeU,
    I64Eqz,
    I64Eq,
    I64Ne,
    I64LtS,
    I64LtU,
    I64GtS,
    I64GtU,
    I64LeS,
    I64LeU,
    I64GeS,
    I64GeU,
    F32Eq,
    F32Ne,
    F32Lt,
    F32Gt,
    F32Le,
    F32Ge,
    F64Eq,
    F64Ne,
    F64Lt,
    F64Gt,
    F64Le,
    F64Ge,
    I32Clz,
    I32Ctz,
    I32Popcnt,
    I32Add,
    I32Sub,
    I32Mul,
    I32DivS,
    I32DivU,
    I32RemS,
    I32RemU,
    I32And,
    I32Or,
    I32Xor,
    I32Shl,
    I32ShrS,
    I32ShrU,
    I32Rotl,
    I32Rotr,
    I64Clz,
    I64Ctz,
    I64Popcnt,
    I64Add,
    I64Sub,
    I64Mul,
    I64DivS,
    I64DivU,
    I64RemS,
    I64RemU,
    I64And,
    I64Or,
    I64Xor,
    I64Shl,
    I64ShrS,
    I64ShrU,
    I64Rotl,
    I64Rotr,
    F32Abs,
    F32Neg,
    F32Ceil,
    F32Floor,
    F32Trunc,
    F32Nearest,
    F32Sqrt,
    F32Add,
    F32Sub,
    F32Mul,
    F32Div,
    F32Min,
    F32Max,
    F32Copysign,
    F64Abs,
    F64Neg,
    F64Ceil,
    F64Floor,
    F64Trunc,
    F64Nearest,
    F64Sqrt,
    F64Add,
    F64Sub,
    F64Mul,
    F64Div,
    F64Min,
    F64Max,
    F64Copysign,
    I32WrapI64,
    I32TruncF32S,
    I32TruncF32U,
    I32TruncF64S,
    I32TruncF64U,
    I64ExtendI32S,
    I64ExtendI32U,
    I64TruncF32S,
    I64TruncF32U,
    I64TruncF64S,
    I64TruncF64U,
    F32ConvertI32S,
    F32ConvertI32U,
    F32ConvertI64S,
    F32ConvertI64U,
    F32DemoteF64,
    F64ConvertI32S,
    F64ConvertI32U,
    F64ConvertI64S,
    F64ConvertI64U,
    F64PromoteF32,
    I32ReinterpretF32,
    I64ReinterpretF64,
    F32ReinterpretI32,
    F64ReinterpretI64,
    I32Extend8S,
    I32Extend16S,
    I64Extend8S,
    I64Extend16S,
    I64Extend32S,
    RefNull,
    RefIsNull,
    RefFunc,
    BulkMemoryPrefix,
}

/// The byte of each opcode.
pub open spec fn opcode_byte(op: Opcode) -> u8 {
    match op {
        Opcode::Unreachable => 0x00,
        Opcode::Nop => 0x01,
        Opcode::Block => 0x02,
        Opcode::Loop => 0x03,
        Opcode::If => 0x04,
        Opcode::Else => 0x05,
        Opcode::End => 0x0b,
        Opcode::Br => 0x0c,
        Opcode::BrIf => 0x0d,
        Opcode::BrTable => 0x0e,
        Opcode::Return => 0x0f,
        Opcode::Call => 0x10,
        Opcode::CallIndirect => 0x11,
        Opcode::Drop => 0x1a,
        Opcode::Select => 0x1b,
        Opcode::LocalGet => 0x20,
        Opcode::LocalSet => 0x21,
        Opcode::LocalTee => 0x22,
        Opcode::GlobalGet => 0x23,
        Opcode::GlobalSet => 0x24,
        Opcode::I32Load => 0x28,
        Opcode::I64Load => 0x29,
        Opcode::F32Load => 0x2a,
        Opcode::F64Load => 0x2b,
        Opcode::I32Load8S => 0x2c,
        Opcode::I32Load8U => 0x2d,
        Opcode::I32Load16S => 0x2e,
        Opcode::I32Load16U => 0x2f,
        Opcode::I64Load8S => 0x30,
        Opcode::I64Load8U => 0x31,
        Opcode::I64Load16S => 0x32,
        Opcode::I64Load16U => 0x33,
        Opcode::I64Load32S => 0x34,
        Opcode::I64Load32U => 0x35,
        Opcode::I32Store => 0x36,
        Opcode::I64Store => 0x37,
        Opcode::F32Store => 0x38,
        Opcode::F64Store => 0x39,
        Opcode::I32Store8 => 0x3a,
        Opcode::I32Store16 => 0x3b,
        Opcode::I64Store8 => 0x3c,
        Opcode::I64Store16 => 0x3d,
        Opcode::I64Store32 => 0x3e,
        Opcode::MemorySize => 0x3f,
        Opcode::MemoryGrow => 0x40,
        Opcode::I32Const => 0x41,
        Opcode::I64Const => 0x42,
        Opcode::F32Const => 0x43,
        Opcode::F64Const => 0x44,
        Opcode::I32Eqz => 0x45,
        Opcode::I32Eq => 0x46,
        Opcode::I32Ne => 0x47,
        Opcode::I32LtS => 0x48,
        Opcode::I32LtU => 0x49,
        Opcode::I32GtS => 0x4a,
        Opcode::I32GtU => 0x4b,
        Opcode::I32LeS => 0x4c,
        Opcode::I32LeU => 0x4d,
        Opcode::I32GeS => 0x4e,
        Opcode::I32GeU => 0x4f,
        Opcode::I64Eqz => 0x50,
        Opcode::I64Eq => 0x51,
        Opcode::I64Ne => 0x52,
        Opcode::I64LtS => 0x53,
        Opcode::I64LtU => 0x54,
        Opcode::I64GtS => 0x55,
        Opcode::I64GtU => 0x56,
        Opcode::I64LeS => 0x57,
        Opcode::I64LeU => 0x58,
        Opcode::I64GeS => 0x59,
        Opcode::I64GeU => 0x5a,
        Opcode::F32Eq => 0x5b,
        Opcode::F32Ne => 0x5c,
        Opcode::F32Lt => 0x5d,
        Opcode::F32Gt => 0x5e,
        Opcode::F32Le => 0x5f,
        Opcode::F32Ge => 0x60,
        Opcode::F64Eq => 0x61,
        Opcode::F64Ne => 0x62,
        Opcode::F64Lt => 0x63,
        Opcode::F64Gt => 0x64,
        Opcode::F64Le => 0x65,
        Opcode::F64Ge => 0x66,
        Opcode::I32Clz => 0x67,
        Opcode::I32Ctz => 0x68,
        Opcode::I32Popcnt => 0x69,
        Opcode::I32Add => 0x6a,
        Opcode::I32Sub => 0x6b,
        Opcode::I32Mul => 0x6c,
        Opcode::I32DivS => 0x6d,
        Opcode::I32DivU => 0x6e,
        Opcode::I32RemS => 0x6f,
        Opcode::I32RemU => 0x70,
        Opcode::I32And => 0x71,
        Opcode::I32Or => 0x72,
        Opcode::I32Xor => 0x73,
        Opcode::I32Shl => 0x74,
        Opcode::I32ShrS => 0x75,
        Opcode::I32ShrU => 0x76,
        Opcode::I32Rotl => 0x77,
        Opcode::I32Rotr => 0x78,
        Opcode::I64Clz => 0x79,
        Opcode::I64Ctz => 0x7a,
        Opcode::I64Popcnt => 0x7b,
        Opcode::I64Add => 0x7c,
        Opcode::I64Sub => 0x7d,
        Opcode::I64Mul => 0x7e,
        Opcode::I64DivS => 0x7f,
        Opcode::I64DivU => 0x80,
        Opcode::I64RemS => 0x81,
        Opcode::I64RemU => 0x82,
        Opcode::I64And => 0x83,
        Opcode::I64Or => 0x84,
        Opcode::I64Xor => 0x85,
        Opcode::I64Shl => 0x86,
        Opcode::I64ShrS => 0x87,
        Opcode::I64ShrU => 0x88,
        Opcode::I64Rotl => 0x89,
        Opcode::I64Rotr => 0x8a,
        Opcode::F32Abs => 0x8b,
        Opcode::F32Neg => 0x8c,
        Opcode::F32Ceil => 0x8d,
        Opcode::F32Floor => 0x8e,
        Opcode::F32Trunc => 0x8f,
        Opcode::F32Nearest => 0x90,
        Opcode::F32Sqrt => 0x91,
        Opcode::F32Add => 0x92,
        Opcode::F32Sub => 0x93,
        Opcode::F32Mul => 0x94,
        Opcode::F32Div => 0x95,
        Opcode::F32Min => 0x96,
        Opcode::F32Max => 0x97,
        Opcode::F32Copysign => 0x98,
        Opcode::F64Abs => 0x99,
        Opcode::F64Neg => 0x9a,
        Opcode::F64Ceil => 0x9b,
        Opcode::F64Floor => 0x9c,
        Opcode::F64Trunc => 0x9d,
        Opcode::F64Nearest => 0x9e,
        Opcode::F64Sqrt => 0x9f,
        Opcode::F64Add => 0xa0,
        Opcode::F64Sub => 0xa1,
        Opcode::F64Mul => 0xa2,
        Opcode::F64Div => 0xa3,
        Opcode::F64Min => 0xa4,
        Opcode::F64Max => 0xa5,
        Opcode::F64Copysign => 0xa6,
        Opcode::I32WrapI64 => 0xa7,
        Opcode::I32TruncF32S => 0xa8,
        Opcode::I32TruncF32U => 0xa9,
        Opcode::I32TruncF64S => 0xaa,
        Opcode::I32TruncF64U => 0xab,
        Opcode::I64ExtendI32S => 0xac,
        Opcode::I64ExtendI32U => 0xad,
        Opcode::I64TruncF32S => 0xae,
        Opcode::I64TruncF32U => 0xaf,
        Opcode::I64TruncF64S => 0xb0,
        Opcode::I64TruncF64U => 0xb1,
        Opcode::F32ConvertI32S => 0xb2,
        Opcode::F32ConvertI32U => 0xb3,
        Opcode::F32ConvertI64S => 0xb4,
        Opcode::F32ConvertI64U => 0xb5,
        Opcode::F32DemoteF64 => 0xb6,
        Opcode::F64ConvertI32S => 0xb7,
        Opcode::F64ConvertI32U => 0xb8,
        Opcode::F64ConvertI64S => 0xb9,
        Opcode::F64ConvertI64U => 0xba,
        Opcode::F64PromoteF32 => 0xbb,
        Opcode::I32ReinterpretF32 => 0xbc,
        Opcode::I64ReinterpretF64 => 0xbd,
        Opcode::F32ReinterpretI32 => 0xbe,
        Opcode::F64ReinterpretI64 => 0xbf,
        Opcode::I32Extend8S => 0xc0,
        Opcode::I32Extend16S => 0xc1,
        Opcode::I64Extend8S => 0xc2,
        Opcode::I64Extend16S => 0xc3,
        Opcode::I64Extend32S => 0xc4,
        Opcode::RefNull => 0xd0,
        Opcode::RefIsNull => 0xd1,
        Opcode::RefFunc => 0xd2,
        Opcode::BulkMemoryPrefix => 0xfc,
    }
}

impl Opcode {
    /// The byte that encodes this opcode; bulk memory operations share the
    /// prefix byte 0xfc.
    pub fn to_byte(self) -> (r: u8)
        ensures
            r == opcode_byte(self),
    {
        match self {
            Opcode::Unreachable => 0x00,
            Opcode::Nop => 0x01,
            Opcode::Block => 0x02,
            Opcode::Loop => 0x03,
            Opcode::If => 0x04,
            Opcode::Else => 0x05,
            Opcode::End => 0x0b,
            Opcode::Br => 0x0c,
            Opcode::BrIf => 0x0d,
            Opcode::BrTable => 0x0e,
            Opcode::Return => 0x0f,
            Opcode::Call => 0x10,
            Opcode::CallIndirect => 0x11,
            Opcode::Drop => 0x1a,
            Opcode::Select => 0x1b,
            Opcode::LocalGet => 0x20,
            Opcode::LocalSet => 0x21,
            Opcode::LocalTee => 0x22,
            Opcode::GlobalGet => 0x23,
            Opcode::GlobalSet => 0x24,
            Opcode::I32Load => 0x28,
            Opcode::I64Load => 0x29,
            Opcode::F32Load => 0x2a,
            Opcode::F64Load => 0x2b,
            Opcode::I32Load8S => 0x2c,
            Opcode::I32Load8U => 0x2d,
            Opcode::I32Load16S => 0x2e,
            Opcode::I32Load16U => 0x2f,
            Opcode::I64Load8S => 0x30,
            Opcode::I64Load8U => 0x31,
            Opcode::I64Load16S => 0x32,
            Opcode::I64Load16U => 0x33,
            Opcode::I64Load32S => 0x34,
            Opcode::I64Load32U => 0x35,
            Opcode::I32Store => 0x36,
            Opcode::I64Store => 0x37,
            Opcode::F32Store => 0x38,
            Opcode::F64Store => 0x39,
            Opcode::I32Store8 => 0x3a,
            Opcode::I32Store16 => 0x3b,
            Opcode::I64Store8 => 0x3c,
            Opcode::I64Store16 => 0x3d,
            Opcode::I64Store32 => 0x3e,
            Opcode::MemorySize => 0x3f,
            Opcode::MemoryGrow => 0x40,
            Opcode::I32Const => 0x41,
            Opcode::I64Const => 0x42,
            Opcode::F32Const => 0x43,
            Opcode::F64Const => 0x44,
            Opcode::I32Eqz => 0x45,
            Opcode::I32Eq => 0x46,
            Opcode::I32Ne => 0x47,
            Opcode::I32LtS => 0x48,
            Opcode::I32LtU => 0x49,
            Opcode::I32GtS => 0x4a,
            Opcode::I32GtU => 0x4b,
            Opcode::I32LeS => 0x4c,
            Opcode::I32LeU => 0x4d,
            Opcode::I32GeS => 0x4e,
            Opcode::I32GeU => 0x4f,
            Opcode::I64Eqz => 0x50,
            Opcode::I64Eq => 0x51,
            Opcode::I64Ne => 0x52,
            Opcode::I64LtS => 0x53,
            Opcode::I64LtU => 0x54,
            Opcode::I64GtS => 0x55,
            Opcode::I64GtU => 0x56,
            Opcode::I64LeS => 0x57,
            Opcode::I64LeU => 0x58,
            Opcode::I64GeS => 0x59,
            Opcode::I64GeU => 0x5a,
            Opcode::F32Eq => 0x5b,
            Opcode::F32Ne => 0x5c,
            Opcode::F32Lt => 0x5d,
            Opcode::F32Gt => 0x5e,
            Opcode::F32Le => 0x5f,
            Opcode::F32Ge => 0x60,
            Opcode::F64Eq => 0x61,
            Opcode::F64Ne => 0x62,
            Opcode::F64Lt => 0x63,
            Opcode::F64Gt => 0x64,
            Opcode::F64Le => 0x65,
            Opcode::F64Ge => 0x66,
            Opcode::I32Clz => 0x67,
            Opcode::I32Ctz => 0x68,
            Opcode::I32Popcnt => 0x69,
            Opcode::I32Add => 0x6a,
            Opcode::I32Sub => 0x6b,
            Opcode::I32Mul => 0x6c,
            Opcode::I32DivS => 0x6d,
            Opcode::I32DivU => 0x6e,
            Opcode::I32RemS => 0x6f,
            Opcode::I32RemU => 0x70,
            Opcode::I32And => 0x71,
            Opcode::I32Or => 0x72,
            Opcode::I32Xor => 0x73,
            Opcode::I32Shl => 0x74,
            Opcode::I32ShrS => 0x75,
            Opcode::I32ShrU => 0x76,
            Opcode::I32Rotl => 0x77,
            Opcode::I32Rotr => 0x78,
            Opcode::I64Clz => 0x79,
            Opcode::I64Ctz => 0x7a,
            Opcode::I64Popcnt => 0x7b,
            Opcode::I64Add => 0x7c,
            Opcode::I64Sub => 0x7d,
            Opcode::I64Mul => 0x7e,
            Opcode::I64DivS => 0x7f,
            Opcode::I64DivU => 0x80,
            Opcode::I64RemS => 0x81,
            Opcode::I64RemU => 0x82,
            Opcode::I64And => 0x83,
            Opcode::I64Or => 0x84,
            Opcode::I64Xor => 0x85,
            Opcode::I64Shl => 0x86,
            Opcode::I64ShrS => 0x87,
            Opcode::I64ShrU => 0x88,
            Opcode::I64Rotl => 0x89,
            Opcode::I64Rotr => 0x8a,
            Opcode::F32Abs => 0x8b,
            Opcode::F32Neg => 0x8c,
            Opcode::F32Ceil => 0x8d,
            Opcode::F32Floor => 0x8e,
            Opcode::F32Trunc => 0x8f,
            Opcode::F32Nearest => 0x90,
            Opcode::F32Sqrt => 0x91,
            Opcode::F32Add => 0x92,
            Opcode::F32Sub => 0x93,
            Opcode::F32Mul => 0x94,
            Opcode::F32Div => 0x95,
            Opcode::F32Min => 0x96,
            Opcode::F32Max => 0x97,
            Opcode::F32Copysign => 0x98,
            Opcode::F64Abs => 0x99,
            Opcode::F64Neg => 0x9a,
            Opcode::F64Ceil => 0x9b,
            Opcode::F64Floor => 0x9c,
            Opcode::F64Trunc => 0x9d,
            Opcode::F64Nearest => 0x9e,
            Opcode::F64Sqrt => 0x9f,
            Opcode::F64Add => 0xa0,
            Opcode::F64Sub => 0xa1,
            Opcode::F64Mul => 0xa2,
            Opcode::F64Div => 0xa3,
            Opcode::F64Min => 0xa4,
            Opcode::F64Max => 0xa5,
            Opcode::F64Copysign => 0xa6,
            Opcode::I32WrapI64 => 0xa7,
            Opcode::I32TruncF32S => 0xa8,
            Opcode::I32TruncF32U => 0xa9,
            Opcode::I32TruncF64S => 0xaa,
            Opcode::I32TruncF64U => 0xab,
            Opcode::I64ExtendI32S => 0xac,
            Opcode::I64ExtendI32U => 0xad,
            Opcode::I64TruncF32S => 0xae,
            Opcode::I64TruncF32U => 0xaf,
            Opcode::I64TruncF64S => 0xb0,
            Opcode::I64TruncF64U => 0xb1,
            Opcode::F32ConvertI32S => 0xb2,
            Opcode::F32ConvertI32U => 0xb3,
            Opcode::F32ConvertI64S => 0xb4,
            Opcode::F32ConvertI64U => 0xb5,
            Opcode::F32DemoteF64 => 0xb6,
            Opcode::F64ConvertI32S => 0xb7,
            Opcode::F64ConvertI32U => 0xb8,
            Opcode::F64ConvertI64S => 0xb9,
            Opcode::F64ConvertI64U => 0xba,
            Opcode::F64PromoteF32 => 0xbb,
            Opcode::I32ReinterpretF32 => 0xbc,
            Opcode::I64ReinterpretF64 => 0xbd,
            Opcode::F32ReinterpretI32 => 0xbe,
            Opcode::F64ReinterpretI64 => 0xbf,
            Opcode::I32Extend8S => 0xc0,
            Opcode::I32Extend16S => 0xc1,
            Opcode::I64Extend8S => 0xc2,
            Opcode::I64Extend16S => 0xc3,
            Opcode::I64Extend32S => 0xc4,
            Opcode::RefNull => 0xd0,
            Opcode::RefIsNull => 0xd1,
            Opcode::RefFunc => 0xd2,
            Opcode::BulkMemoryPrefix => 0xfc,
        }
    }
}

/// Memory argument for load/store instructions.
#[derive(Debug, Clone, Copy, PartialEq, Eq, Structural)]
pub struct MemArg {
    pub align: u32,
    pub offset: u32,
}

impl MemArg {
    pub fn new(align: u32, offset: u32) -> (r: MemArg)
        ensures
            r == (MemArg { align, offset }),
    {
        MemArg { align, offset }
    }
}

/// Instruction with operands. The constants of the float instructions hold
/// the IEEE 754 bit pattern of the value.
#[derive(Debug, PartialEq)]
pub enum Instruction {
    // Control instructions
    Unreachable,
    Nop,
    Block { block_type: BlockType, body: Vec<Instruction> },
    Loop { block_type: BlockType, body: Vec<Instruction> },
    If { block_type: BlockType, then_branch: Vec<Instruction>, else_branch: Vec<Instruction> },
    Else,
    End,
    Br { label_idx: u32 },
    BrIf { label_idx: u32 },
    BrTable { labels: Vec<u32>, default_label: u32 },
    Return,
    Call { function_idx: u32 },
    CallIndirect { type_idx: u32, table_idx: u32 },
    ReturnCall { function_idx: u32 },
    ReturnCallIndirect { type_idx: u32, table_idx: u32 },
    CallRef { type_idx: u32 },
    ReturnCallRef { type_idx: u32 },

    // Parametric instructions
    Drop,
    Select,

    // Variable instructions
    LocalGet { local_idx: u32 },
    LocalSet { local_idx: u32 },
    LocalTee { local_idx: u32 },
    GlobalGet { global_idx: u32 },
    GlobalSet { global_idx: u32 },

    // Memory instructions
    I32Load { mem_arg: MemArg },
    I64Load { mem_arg: MemArg },
    F32Load { mem_arg: MemArg },
    F64Load { mem_arg: MemArg },
    I32Load8S { mem_arg: MemArg },
    I32Load8U { mem_arg: MemArg },
    I32Load16S { mem_arg: MemArg },
    I32Load16U { mem_arg: MemArg },
    I64Load8S { mem_arg: MemArg },
    I64Load8U { mem_arg: MemArg },
    I64Load16S { mem_arg: MemArg },
    I64Load16U { mem_arg: MemArg },
    I64Load32S { mem_arg: MemArg },
    I64Load32U { mem_arg: MemArg },
    I32Store { mem_arg: MemArg },
    I64Store { mem_arg: MemArg },
    F32Store { mem_arg: MemArg },
    F64Store { mem_arg: MemArg },
    I32Store8 { mem_arg: MemArg },
    I32Store16 { mem_arg: MemArg },
    I64Store8 { mem_arg: MemArg },
    I64Store16 { mem_arg: MemArg },
    I64Store32 { mem_arg: MemArg },
    MemorySize { mem_idx: u8 },
    MemoryGrow { mem_idx: u8 },
    MemoryInit { data_idx: u32, mem_idx: u8 },
    DataDrop { data_idx: u32 },
    MemoryCopy { src_mem: u8, dst_mem: u8 },
    MemoryFill { mem_idx: u8 },

    // Numeric instructions
    I32Const { value: i32 },
    I64Const { value: i64 },
    F32Const { bits: u32 },
    F64Const { bits: u64 },

    I32Eqz,
    I32Eq,
    I32Ne,
    I32LtS,
    I32LtU,
    I32GtS,
    I32GtU,
    I32LeS,
    I32LeU,
    I32GeS,
    I32GeU,
    I64Eqz,
    I64Eq,
    I64Ne,
    I64LtS,
    I64LtU,
    I64GtS,
    I64GtU,
    I64LeS,
    I64LeU,
    I64GeS,
    I64GeU,
    F32Eq,
    F32Ne,
    F32Lt,
    F32Gt,
    F32Le,
    F32Ge,
    F64Eq,
    F64Ne,
    F64Lt,
    F64Gt,
    F64Le,
    F64Ge,
    I32Clz,
    I32Ctz,
    I32Popcnt,
    I32Add,
    I32Sub,
    I32Mul,
    I32DivS,
    I32DivU,
    I32RemS,
    I32RemU,
    I32And,
    I32Or,
    I32Xor,
    I32Shl,
    I32ShrS,
    I32ShrU,
    I32Rotl,
    I32Rotr,
    I64Clz,
    I64Ctz,
    I64Popcnt,
    I64Add,
    I64Sub,
    I64Mul,
    I64DivS,
    I64DivU,
    I64RemS,
    I64RemU,
    I64And,
    I64Or,
    I64Xor,
    I64Shl,
    I64ShrS,
    I64ShrU,
    I64Rotl,
    I64Rotr,
    F32Abs,
    F32Neg,
    F32Ceil,
    F32Floor,
    F32Trunc,
    F32Nearest,
    F32Sqrt,
    F32Add,
    F32Sub,
    F32Mul,
    F32Div,
    F32Min,
    F32Max,
    F32Copysign,
    F64Abs,
    F64Neg,
    F64Ceil,
    F64Floor,
    F64Trunc,
    F64Nearest,
    F64Sqrt,
    F64Add,
    F64Sub,
    F64Mul,
    F64Div,
    F64Min,
    F64Max,
    F64Copysign,
    I32WrapI64,
    I32TruncF32S,
    I32TruncF32U,
    I32TruncF64S,
    I32TruncF64U,
    I64ExtendI32S,
    I64ExtendI32U,
    I64TruncF32S,
    I64TruncF32U,
    I64TruncF64S,
    I64TruncF64U,
    F32ConvertI32S,
    F32ConvertI32U,
    F32ConvertI64S,
    F32ConvertI64U,
    F32DemoteF64,
    F64ConvertI32S,
    F64ConvertI32U,
    F64ConvertI64S,
    F64ConvertI64U,
    F64PromoteF32,
    I32ReinterpretF32,
    I64ReinterpretF64,
    F32ReinterpretI32,
    F64ReinterpretI64,
    I32Extend8S,
    I32Extend16S,
    I64Extend8S,
    I64Extend16S,
    I64Extend32S,

    // Saturating truncation
    I32TruncSatF32S,
    I32TruncSatF32U,
    I32TruncSatF64S,
    I32TruncSatF64U,
    I64TruncSatF32S,
    I64TruncSatF32U,
    I64TruncSatF64S,
    I64TruncSatF64U,

    // Reference instructions
    RefNull { ty: ValueType },
    RefIsNull,
    RefFunc { func_idx: u32 },

    // Multi-value extension
    SelectTyped { results: Vec<ValueType> },
}

/// Mathematical model of an [`Instruction`]: the instructions that hold a
/// vector hold its sequence; every other instruction stands for itself.
pub enum InstrView {
    Leaf(Instruction),
    Block { block_type: BlockType, body: Seq<InstrView> },
    Loop { block_type: BlockType, body: Seq<InstrView> },
    If { block_type: BlockType, then_branch: Seq<InstrView>, else_branch: Seq<InstrView> },
    BrTable { labels: Seq<u32>, default_label: u32 },
    SelectTyped { results: Seq<ValueType> },
}

/// The models of a sequence of instructions.
pub open spec fn instrs_view(s: Seq<Instruction>) -> Seq<InstrView>
    decreases s,
{
    if s.len() == 0 {
        Seq::empty()
    } else {
        seq![instr_view(s[0])] + instrs_view(s.subrange(1, s.len() as int))
    }
}

/// The model of an instruction.
pub open spec fn instr_view(i: Instruction) -> InstrView
    decreases i,
{
    match i {
        Instruction::Block { block_type, body } => InstrView::Block {
            block_type,
            body: instrs_view(body@),
        },
        Instruction::Loop { block_type, body } => InstrView::Loop {
            block_type,
            body: instrs_view(body@),
        },
        Instruction::If { block_type, then_branch, else_branch } => InstrView::If {
            block_type,
            then_branch: instrs_view(then_branch@),
            else_branch: instrs_view(else_branch@),
        },
        Instruction::BrTable { labels, default_label } => InstrView::BrTable {
            labels: labels@,
            default_label,
        },
        Instruction::SelectTyped { results } => InstrView::SelectTyped { results: results@ },
        _ => InstrView::Leaf(i),
    }
}

/// The models of a sequence have its length, and each is the model of the
/// instruction at its place.
pub proof fn lemma_instrs_view_index(s: Seq<Instruction>)
    ensures
        instrs_view(s).len() == s.len(),
        forall|j: int| 0 <= j < s.len() ==> #[trigger] instrs_view(s)[j] == instr_view(s[j]),
    decreases s.len(),
{
    if s.len() > 0 {
        let t = s.subrange(1, s.len() as int);
        lemma_instrs_view_index(t);
        assert forall|j: int| 0 <= j < s.len() implies #[trigger] instrs_view(s)[j] == instr_view(
            s[j],
        ) by {
            if j > 0 {
                assert(instrs_view(s)[j] == instrs_view(t)[j - 1]);
                assert(t[j - 1] == s[j]);
            }
        }
    }
}

/// The model of a sequence with an instruction pushed at its end.
pub proof fn lemma_instrs_view_push(s: Seq<Instruction>, i: Instruction)
    ensures
        instrs_view(s.push(i)) == instrs_view(s).push(instr_view(i)),
{
    lemma_instrs_view_index(s);
    lemma_instrs_view_index(s.push(i));
    assert(instrs_view(s.push(i)) =~= instrs_view(s).push(instr_view(i)));
}

impl View for Instruction {
    type V = InstrView;

    open spec fn view(&self) -> InstrView {
        instr_view(*self)
    }
}

/// The instruction with no immediate operand that a numeric opcode
/// (0x45 to 0xc4) denotes.
pub open spec fn numeric_instr(op: u8) -> Option<Instruction> {
    match op {
        0x45u8 => Some(Instruction::I32Eqz),
        0x46u8 => Some(Instruction::I32Eq),
        0x47u8 => Some(Instruction::I32Ne),
        0x48u8 => Some(Instruction::I32LtS),
        0x49u8 => Some(Instruction::I32LtU),
        0x4au8 => Some(Instruction::I32GtS),
        0x4bu8 => Some(Instruction::I32GtU),
        0x4cu8 => Some(Instruction::I32LeS),
        0x4du8 => Some(Instruction::I32LeU),
        0x4eu8 => Some(Instruction::I32GeS),
        0x4fu8 => Some(Instruction::I32GeU),
        0x50u8 => Some(Instruction::I64Eqz),
        0x51u8 => Some(Instruction::I64Eq),
        0x52u8 => Some(Instruction::I64Ne),
        0x53u8 => Some(Instruction::I64LtS),
        0x54u8 => Some(Instruction::I64LtU),
        0x55u8 => Some(Instruction::I64GtS),
        0x56u8 => Some(Instruction::I64GtU),
        0x57u8 => Some(Instruction::I64LeS),
        0x58u8 => Some(Instruction::I64LeU),
        0x59u8 => Some(Instruction::I64GeS),
        0x5au8 => Some(Instruction::I64GeU),
        0x5bu8 => Some(Instruction::F32Eq),
        0x5cu8 => Some(Instruction::F32Ne),
        0x5du8 => Some(Instruction::F32Lt),
        0x5eu8 => Some(Instruction::F32Gt),
        0x5fu8 => Some(Instruction::F32Le),
        0x60u8 => Some(Instruction::F32Ge),
        0x61u8 => Some(Instruction::F64Eq),
        0x62u8 => Some(Instruction::F64Ne),
        0x63u8 => Some(Instruction::F64Lt),
        0x64u8 => Some(Instruction::F64Gt),
        0x65u8 => Some(Instruction::F64Le),
        0x66u8 => Some(Instruction::F64Ge),
        0x67u8 => Some(Instruction::I32Clz),
        0x68u8 => Some(Instruction::I32Ctz),
        0x69u8 => Some(Instruction::I32Popcnt),
        0x6au8 => Some(Instruction::I32Add),
        0x6bu8 => Some(Instruction::I32Sub),
        0x6cu8 => Some(Instruction::I32Mul),
        0x6du8 => Some(Instruction::I32DivS),
        0x6eu8 => Some(Instruction::I32DivU),
        0x6fu8 => Some(Instruction::I32RemS),
        0x70u8 => Some(Instruction::I32RemU),
        0x71u8 => Some(Instruction::I32And),
        0x72u8 => Some(Instruction::I32Or),
        0x73u8 => Some(Instruction::I32Xor),
        0x74u8 => Some(Instruction::I32Shl),
        0x75u8 => Some(Instruction::I32ShrS),
        0x76u8 => Some(Instruction::I32ShrU),
        0x77u8 => Some(Instruction::I32Rotl),
        0x78u8 => Some(Instruction::I32Rotr),
        0x79u8 => Some(Instruction::I64Clz),
        0x7au8 => Some(Instruction::I64Ctz),
        0x7bu8 => Some(Instruction::I64Popcnt),
        0x7cu8 => Some(Instruction::I64Add),
        0x7du8 => Some(Instruction::I64Sub),
        0x7eu8 => Some(Instruction::I64Mul),
        0x7fu8 => Some(Instruction::I64DivS),
        0x80u8 => Some(Instruction::I64DivU),
        0x81u8 => Some(Instruction::I64RemS),
        0x82u8 => Some(Instruction::I64RemU),
        0x83u8 => Some(Instruction::I64And),
        0x84u8 => Some(Instruction::I64Or),
        0x85u8 => Some(Instruction::I64Xor),
        0x86u8 => Some(Instruction::I64Shl),
        0x87u8 => Some(Instruction::I64ShrS),
        0x88u8 => Some(Instruction::I64ShrU),
        0x89u8 => Some(Instruction::I64Rotl),
        0x8au8 => Some(Instruction::I64Rotr),
        0x8bu8 => Some(Instruction::F32Abs),
        0x8cu8 => Some(Instruction::F32Neg),
        0x8du8 => Some(Instruction::F32Ceil),
        0x8eu8 => Some(Instruction::F32Floor),
        0x8fu8 => Some(Instruction::F32Trunc),
        0x90u8 => Some(Instruction::F32Nearest),
        0x91u8 => Some(Instruction::F32Sqrt),
        0x92u8 => Some(Instruction::F32Add),
        0x93u8 => Some(Instruction::F32Sub),
        0x94u8 => Some(Instruction::F32Mul),
        0x95u8 => Some(Instruction::F32Div),
        0x96u8 => Some(Instruction::F32Min),
        0x97u8 => Some(Instruction::F32Max),
        0x98u8 => Some(Instruction::F32Copysign),
        0x99u8 => Some(Instruction::F64Abs),
        0x9au8 => Some(Instruction::F64Neg),
        0x9bu8 => Some(Instruction::F64Ceil),
        0x9cu8 => Some(Instruction::F64Floor),
        0x9du8 => Some(Instruction::F64Trunc),
        0x9eu8 => Some(Instruction::F64Nearest),
        0x9fu8 => Some(Instruction::F64Sqrt),
        0xa0u8 => Some(Instruction::F64Add),
        0xa1u8 => Some(Instruction::F64Sub),
        0xa2u8 => Some(Instruction::F64Mul),
        0xa3u8 => Some(Instruction::F64Div),
        0xa4u8 => Some(Instruction::F64Min),
        0xa5u8 => Some(Instruction::F64Max),
        0xa6u8 => Some(Instruction::F64Copysign),
        0xa7u8 => Some(Instruction::I32WrapI64),
        0xa8u8 => Some(Instruction::I32TruncF32S),
        0xa9u8 => Some(Instruction::I32TruncF32U),
        0xaau8 => Some(Instruction::I32TruncF64S),
        0xabu8 => Some(Instruction::I32TruncF64U),
        0xacu8 => Some(Instruction::I64ExtendI32S),
        0xadu8 => Some(Instruction::I64ExtendI32U),
        0xaeu8 => Some(Instruction::I64TruncF32S),
        0xafu8 => Some(Instruction::I64TruncF32U),
        0xb0u8 => Some(Instruction::I64TruncF64S),
        0xb1u8 => Some(Instruction::I64TruncF64U),
        0xb2u8 => Some(Instruction::F32ConvertI32S),
        0xb3u8 => Some(Instruction::F32ConvertI32U),
        0xb4u8 => Some(Instruction::F32ConvertI64S),
        0xb5u8 => Some(Instruction::F32ConvertI64U),
        0xb6u8 => Some(Instruction::F32DemoteF64),
        0xb7u8 => Some(Instruction::F64ConvertI32S),
        0xb8u8 => Some(Instruction::F64ConvertI32U),
        0xb9u8 => Some(Instruction::F64ConvertI64S),
        0xbau8 => Some(Instruction::F64ConvertI64U),
        0xbbu8 => Some(Instruction::F64PromoteF32),
        0xbcu8 => Some(Instruction::I32ReinterpretF32),
        0xbdu8 => Some(Instruction::I64ReinterpretF64),
        0xbeu8 => Some(Instruction::F32ReinterpretI32),
        0xbfu8 => Some(Instruction::F64ReinterpretI64),
        0xc0u8 => Some(Instruction::I32Extend8S),
        0xc1u8 => Some(Instruction::I32Extend16S),
        0xc2u8 => Some(Instruction::I64Extend8S),
        0xc3u8 => Some(Instruction::I64Extend16S),
        0xc4u8 => Some(Instruction::I64Extend32S),
        _ => None,
    }
}

/// The load or store instruction that an opcode from 0x28 to 0x3e denotes,
/// with its memory argument.
pub open spec fn memory_instr(op: u8, mem_arg: MemArg) -> Option<Instruction> {
    match op {
        0x28u8 => Some(Instruction::I32Load { mem_arg }),
        0x29u8 => Some(Instruction::I64Load { mem_arg }),
        0x2au8 => Some(Instruction::F32Load { mem_arg }),
        0x2bu8 => Some(Instruction::F64Load { mem_arg }),
        0x2cu8 => Some(Instruction::I32Load8S { mem_arg }),
        0x2du8 => Some(Instruction::I32Load8U { mem_arg }),
        0x2eu8 => Some(Instruction::I32Load16S { mem_arg }),
        0x2fu8 => Some(Instruction::I32Load16U { mem_arg }),
        0x30u8 => Some(Instruction::I64Load8S { mem_arg }),
        0x31u8 => Some(Instruction::I64Load8U { mem_arg }),
        0x32u8 => Some(Instruction::I64Load16S { mem_arg }),
        0x33u8 => Some(Instruction::I64Load16U { mem_arg }),
        0x34u8 => Some(Instruction::I64Load32S { mem_arg }),
        0x35u8 => Some(Instruction::I64Load32U { mem_arg }),
        0x36u8 => Some(Instruction::I32Store { mem_arg }),
        0x37u8 => Some(Instruction::I64Store { mem_arg }),
        0x38u8 => Some(Instruction::F32Store { mem_arg }),
        0x39u8 => Some(Instruction::F64Store { mem_arg }),
        0x3au8 => Some(Instruction::I32Store8 { mem_arg }),
        0x3bu8 => Some(Instruction::I32Store16 { mem_arg }),
        0x3cu8 => Some(Instruction::I64Store8 { mem_arg }),
        0x3du8 => Some(Instruction::I64Store16 { mem_arg }),
        0x3eu8 => Some(Instruction::I64Store32 { mem_arg }),
        _ => None,
    }
}

/// Decode a numeric instruction from its opcode.
pub fn numeric_from_opcode(op: u8) -> (r: Option<Instruction>)
    ensures
        r == numeric_instr(op),
{
    match op {
        0x45 => Some(Instruction::I32Eqz),
        0x46 => Some(Instruction::I32Eq),
        0x47 => Some(Instruction::I32Ne),
        0x48 => Some(Instruction::I32LtS),
        0x49 => Some(Instruction::I32LtU),
        0x4a => Some(Instruction::I32GtS),
        0x4b => Some(Instruction::I32GtU),
        0x4c => Some(Instruction::I32LeS),
        0x4d => Some(Instruction::I32LeU),
        0x4e => Some(Instruction::I32GeS),
        0x4f => Some(Instruction::I32GeU),
        0x50 => Some(Instruction::I64Eqz),
        0x51 => Some(Instruction::I64Eq),
        0x52 => Some(Instruction::I64Ne),
        0x53 => Some(Instruction::I64LtS),
        0x54 => Some(Instruction::I64LtU),
        0x55 => Some(Instruction::I64GtS),
        0x56 => Some(Instruction::I64GtU),
        0x57 => Some(Instruction::I64LeS),
        0x58 => Some(Instruction::I64LeU),
        0x59 => Some(Instruction::I64GeS),
        0x5a => Some(Instruction::I64GeU),
        0x5b => Some(Instruction::F32Eq),
        0x5c => Some(Instruction::F32Ne),
        0x5d => Some(Instruction::F32Lt),
        0x5e => Some(Instruction::F32Gt),
        0x5f => Some(Instruction::F32Le),
        0x60 => Some(Instruction::F32Ge),
        0x61 => Some(Instruction::F64Eq),
        0x62 => Some(Instruction::F64Ne),
        0x63 => Some(Instruction::F64Lt),
        0x64 => Some(Instruction::F64Gt),
        0x65 => Some(Instruction::F64Le),
        0x66 => Some(Instruction::F64Ge),
        0x67 => Some(Instruction::I32Clz),
        0x68 => Some(Instruction::I32Ctz),
        0x69 => Some(Instruction::I32Popcnt),
        0x6a => Some(Instruction::I32Add),
        0x6b => Some(Instruction::I32Sub),
        0x6c => Some(Instruction::I32Mul),
        0x6d => Some(Instruction::I32DivS),
        0x6e => Some(Instruction::I32DivU),
        0x6f => Some(Instruction::I32RemS),
        0x70 => Some(Instruction::I32RemU),
        0x71 => Some(Instruction::I32And),
        0x72 => Some(Instruction::I32Or),
        0x73 => Some(Instruction::I32Xor),
        0x74 => Some(Instruction::I32Shl),
        0x75 => Some(Instruction::I32ShrS),
        0x76 => Some(Instruction::I32ShrU),
        0x77 => Some(Instruction::I32Rotl),
        0x78 => Some(Instruction::I32Rotr),
        0x79 => Some(Instruction::I64Clz),
        0x7a => Some(Instruction::I64Ctz),
        0x7b => Some(Instruction::I64Popcnt),
        0x7c => Some(Instruction::I64Add),
        0x7d => Some(Instruction::I64Sub),
        0x7e => Some(Instruction::I64Mul),
        0x7f => Some(Instruction::I64DivS),
        0x80 => Some(Instruction::I64DivU),
        0x81 => Some(Instruction::I64RemS),
        0x82 => Some(Instruction::I64RemU),
        0x83 => Some(Instruction::I64And),
        0x84 => Some(Instruction::I64Or),
        0x85 => Some(Instruction::I64Xor),
        0x86 => Some(Instruction::I64Shl),
        0x87 => Some(Instruction::I64ShrS),
        0x88 => Some(Instruction::I64ShrU),
        0x89 => Some(Instruction::I64Rotl),
        0x8a => Some(Instruction::I64Rotr),
        0x8b => Some(Instruction::F32Abs),
        0x8c => Some(Instruction::F32Neg),
        0x8d => Some(Instruction::F32Ceil),
        0x8e => Some(Instruction::F32Floor),
        0x8f => Some(Instruction::F32Trunc),
        0x90 => Some(Instruction::F32Nearest),
        0x91 => Some(Instruction::F32Sqrt),
        0x92 => Some(Instruction::F32Add),
        0x93 => Some(Instruction::F32Sub),
        0x94 => Some(Instruction::F32Mul),
        0x95 => Some(Instruction::F32Div),
        0x96 => Some(Instruction::F32Min),
        0x97 => Some(Instruction::F32Max),
        0x98 => Some(Instruction::F32Copysign),
        0x99 => Some(Instruction::F64Abs),
        0x9a => Some(Instruction::F64Neg),
        0x9b => Some(Instruction::F64Ceil),
        0x9c => Some(Instruction::F64Floor),
        0x9d => Some(Instruction::F64Trunc),
        0x9e => Some(Instruction::F64Nearest),
        0x9f => Some(Instruction::F64Sqrt),
        0xa0 => Some(Instruction::F64Add),
        0xa1 => Some(Instruction::F64Sub),
        0xa2 => Some(Instruction::F64Mul),
        0xa3 => Some(Instruction::F64Div),
        0xa4 => Some(Instruction::F64Min),
        0xa5 => Some(Instruction::F64Max),
        0xa6 => Some(Instruction::F64Copysign),
        0xa7 => Some(Instruction::I32WrapI64),
        0xa8 => Some(Instruction::I32TruncF32S),
        0xa9 => Some(Instruction::I32TruncF32U),
        0xaa => Some(Instruction::I32TruncF64S),
        0xab => Some(Instruction::I32TruncF64U),
        0xac => Some(Instruction::I64ExtendI32S),
        0xad => Some(Instruction::I64ExtendI32U),
        0xae => Some(Instruction::I64TruncF32S),
        0xaf => Some(Instruction::I64TruncF32U),
        0xb0 => Some(Instruction::I64TruncF64S),
        0xb1 => Some(Instruction::I64TruncF64U),
        0xb2 => Some(Instruction::F32ConvertI32S),
        0xb3 => Some(Instruction::F32ConvertI32U),
        0xb4 => Some(Instruction::F32ConvertI64S),
        0xb5 => Some(Instruction::F32ConvertI64U),
        0xb6 => Some(Instruction::F32DemoteF64),
        0xb7 => Some(Instruction::F64ConvertI32S),
        0xb8 => Some(Instruction::F64ConvertI32U),
        0xb9 => Some(Instruction::F64ConvertI64S),
        0xba => Some(Instruction::F64ConvertI64U),
        0xbb => Some(Instruction::F64PromoteF32),
        0xbc => Some(Instruction::I32ReinterpretF32),
        0xbd => Some(Instruction::I64ReinterpretF64),
        0xbe => Some(Instruction::F32ReinterpretI32),
        0xbf => Some(Instruction::F64ReinterpretI64),
        0xc0 => Some(Instruction::I32Extend8S),
        0xc1 => Some(Instruction::I32Extend16S),
        0xc2 => Some(Instruction::I64Extend8S),
        0xc3 => Some(Instruction::I64Extend16S),
        0xc4 => Some(Instruction::I64Extend32S),
        _ => None,
    }
}

/// Build a load or store instruction from its opcode and memory argument.
pub fn memory_from_opcode(op: u8, mem_arg: MemArg) -> (r: Option<Instruction>)
    ensures
        r == memory_instr(op, mem_arg),
{
    match op {
        0x28 => Some(Instruction::I32Load { mem_arg }),
        0x29 => Some(Instruction::I64Load { mem_arg }),
        0x2a => Some(Instruction::F32Load { mem_arg }),
        0x2b => Some(Instruction::F64Load { mem_arg }),
        0x2c => Some(Instruction::I32Load8S { mem_arg }),
        0x2d => Some(Instruction::I32Load8U { mem_arg }),
        0x2e => Some(Instruction::I32Load16S { mem_arg }),
        0x2f => Some(Instruction::I32Load16U { mem_arg }),
        0x30 => Some(Instruction::I64Load8S { mem_arg }),
        0x31 => Some(Instruction::I64Load8U { mem_arg }),
        0x32 => Some(Instruction::I64Load16S { mem_arg }),
        0x33 => Some(Instruction::I64Load16U { mem_arg }),
        0x34 => Some(Instruction::I64Load32S { mem_arg }),
        0x35 => Some(Instruction::I64Load32U { mem_arg }),
        0x36 => Some(Instruction::I32Store { mem_arg }),
        0x37 => Some(Instruction::I64Store { mem_arg }),
        0x38 => Some(Instruction::F32Store { mem_arg }),
        0x39 => Some(Instruction::F64Store { mem_arg }),
        0x3a => Some(Instruction::I32Store8 { mem_arg }),
        0x3b => Some(Instruction::I32Store16 { mem_arg }),
        0x3c => Some(Instruction::I64Store8 { mem_arg }),
        0x3d => Some(Instruction::I64Store16 { mem_arg }),
        0x3e => Some(Instruction::I64Store32 { mem_arg }),
        _ => None,
    }
}

impl Instruction {
    /// Create a new block instruction.
    pub fn block(block_type: BlockType, body: Vec<Instruction>) -> (r: Self)
        ensures
            r == (Instruction::Block { block_type, body }),
    {
        Instruction::Block { block_type, body }
    }

    /// Create a new loop instruction.
    pub fn loop_(block_type: BlockType, body: Vec<Instruction>) -> (r: Self)
        ensures
            r == (Instruction::Loop { block_type, body }),
    {
        Instruction::Loop { block_type, body }
    }

    /// Create a new if instruction.
    pub fn if_(block_type: BlockType, then_branch: Vec<Instruction>, else_branch: Vec<Instruction>) -> (r: Self)
        ensures
            r == (Instruction::If { block_type, then_branch, else_branch }),
    {
        Instruction::If { block_type, then_branch, else_branch }
    }

    /// Check if this instruction is a terminal instruction (end, else).
    pub fn is_terminal(&self) -> (r: bool)
        ensures
            r == (*self is End || *self is Else),
    {
        match self {
            Instruction::End | Instruction::Else => true,
            _ => false,
        }
    }

    /// Check if this instruction is a control flow instruction that can
    /// contain nested instructions.
    pub fn is_nested_container(&self) -> (r: bool)
        ensures
            r == (*self is Block || *self is Loop || *self is If),
    {
        match self {
            Instruction::Block { .. } | Instruction::Loop { .. } | Instruction::If { .. } => true,
            _ => false,
        }
    }
}

/// Helper to build instruction sequences.
#[derive(Debug)]
pub struct InstructionBuilder {
    instructions: Vec<Instruction>,
}

impl View for InstructionBuilder {
    type V = Seq<Instruction>;

    closed spec fn view(&self) -> Seq<Instruction> {
        self.instructions@
    }
}

impl Default for InstructionBuilder {
    fn default() -> (r: Self)
        ensures
            r@ == Seq::<Instruction>::empty(),
    {
        InstructionBuilder { instructions: Vec::new() }
    }
}

impl InstructionBuilder {
    pub fn new() -> (r: Self)
        ensures
            r@ == Seq::<Instruction>::empty(),
    {
        Self::default()
    }

    pub fn push(self, instr: Instruction) -> (r: Self)
        ensures
            r@ == self@.push(instr),
    {
        let mut instructions = self.instructions;
        instructions.push(instr);
        InstructionBuilder { instructions }
    }

    pub fn i32_const(self, value: i32) -> (r: Self)
        ensures
            r@ == self@.push(Instruction::I32Const { value }),
    {
        self.push(Instruction::I32Const { value })
    }

    pub fn i64_const(self, value: i64) -> (r: Self)
        ensures
            r@ == self@.push(Instruction::I64Const { value }),
    {
        self.push(Instruction::I64Const { value })
    }

    pub fn local_get(self, local_idx: u32) -> (r: Self)
        ensures
            r@ == self@.push(Instruction::LocalGet { local_idx }),
    {
        self.push(Instruction::LocalGet { local_idx })
    }

    pub fn local_set(self, local_idx: u32) -> (r: Self)
        ensures
            r@ == self@.push(Instruction::LocalSet { local_idx }),
    {
        self.push(Instruction::LocalSet { local_idx })
    }

    pub fn call(self, function_idx: u32) -> (r: Self)
        ensures
            r@ == self@.push(Instruction::Call { function_idx }),
    {
        self.push(Instruction::Call { function_idx })
    }

    pub fn build(self) -> (r: Vec<Instruction>)
        ensures
            r@ == self@,
    {
        self.instructions
    }
}

/// The opcode of the table above that an instruction begins with, where it
/// has one of those: each instruction is matched with the opcode of the
/// same name. The prefixed instructions, and the typed select, have none.
pub open spec fn op_of(x: Instruction) -> Option<Opcode> {
    match x {
        Instruction::Unreachable => Some(Opcode::Unreachable),
        Instruction::Nop => Some(Opcode::Nop),
        Instruction::Block { .. } => Some(Opcode::Block),
        Instruction::Loop { .. } => Some(Opcode::Loop),
        Instruction::If { .. } => Some(Opcode::If),
        Instruction::Else => Some(Opcode::Else),
        Instruction::End => Some(Opcode::End),
        Instruction::Br { .. } => Some(Opcode::Br),
        Instruction::BrIf { .. } => Some(Opcode::BrIf),
        Instruction::BrTable { .. } => Some(Opcode::BrTable),
        Instruction::Return => Some(Opcode::Return),
        Instruction::Call { .. } => Some(Opcode::Call),
        Instruction::CallIndirect { .. } => Some(Opcode::CallIndirect),
        Instruction::Drop => Some(Opcode::Drop),
        Instruction::Select => Some(Opcode::Select),
        Instruction::LocalGet { .. } => Some(Opcode::LocalGet),
        Instruction::LocalSet { .. } => Some(Opcode::LocalSet),
        Instruction::LocalTee { .. } => Some(Opcode::LocalTee),
        Instruction::GlobalGet { .. } => Some(Opcode::GlobalGet),
        Instruction::GlobalSet { .. } => Some(Opcode::GlobalSet),
        Instruction::I32Load { .. } => Some(Opcode::I32Load),
        Instruction::I64Load { .. } => Some(Opcode::I64Load),
        Instruction::F32Load { .. } => Some(Opcode::F32Load),
        Instruction::F64Load { .. } => Some(Opcode::F64Load),
        Instruction::I32Load8S { .. } => Some(Opcode::I32Load8S),
        Instruction::I32Load8U { .. } => Some(Opcode::I32Load8U),
        Instruction::I32Load16S { .. } => Some(Opcode::I32Load16S),
        Instruction::I32Load16U { .. } => Some(Opcode::I32Load16U),
        Instruction::I64Load8S { .. } => Some(Opcode::I64Load8S),
        Instruction::I64Load8U { .. } => Some(Opcode::I64Load8U),
        Instruction::I64Load16S { .. } => Some(Opcode::I64Load16S),
        Instruction::I64Load16U { .. } => Some(Opcode::I64Load16U),
        Instruction::I64Load32S { .. } => Some(Opcode::I64Load32S),
        Instruction::I64Load32U { .. } => Some(Opcode::I64Load32U),
        Instruction::I32Store { .. } => Some(Opcode::I32Store),
        Instruction::I64Store { .. } => Some(Opcode::I64Store),
        Instruction::F32Store { .. } => Some(Opcode::F32Store),
        Instruction::F64Store { .. } => Some(Opcode::F64Store),
        Instruction::I32Store8 { .. } => Some(Opcode::I32Store8),
        Instruction::I32Store16 { .. } => Some(Opcode::I32Store16),
        Instruction::I64Store8 { .. } => Some(Opcode::I64Store8),
        Instruction::I64Store16 { .. } => Some(Opcode::I64Store16),
        Instruction::I64Store32 { .. } => Some(Opcode::I64Store32),
        Instruction::MemorySize { .. } => Some(Opcode::MemorySize),
        Instruction::MemoryGrow { .. } => Some(Opcode::MemoryGrow),
        Instruction::I32Const { .. } => Some(Opcode::I32Const),
        Instruction::I64Const { .. } => Some(Opcode::I64Const),
        Instruction::F32Const { .. } => Some(Opcode::F32Const),
        Instruction::F64Const { .. } => Some(Opcode::F64Const),
        Instruction::I32Eqz => Some(Opcode::I32Eqz),
        Instruction::I32Eq => Some(Opcode::I32Eq),
        Instruction::I32Ne => Some(Opcode::I32Ne),
        Instruction::I32LtS => Some(Opcode::I32LtS),
        Instruction::I32LtU => Some(Opcode::I32LtU),
        Instruction::I32GtS => Some(Opcode::I32GtS),
        Instruction::I32GtU => Some(Opcode::I32GtU),
        Instruction::I32LeS => Some(Opcode::I32LeS),
        Instruction::I32LeU => Some(Opcode::I32LeU),
        Instruction::I32GeS => Some(Opcode::I32GeS),
        Instruction::I32GeU => Some(Opcode::I32GeU),
        Instruction::I64Eqz => Some(Opcode::I64Eqz),
        Instruction::I64Eq => Some(Opcode::I64Eq),
        Instruction::I64Ne => Some(Opcode::I64Ne),
        Instruction::I64LtS => Some(Opcode::I64LtS),
        Instruction::I64LtU => Some(Opcode::I64LtU),
        Instruction::I64GtS => Some(Opcode::I64GtS),
        Instruction::I64GtU => Some(Opcode::I64GtU),
        Instruction::I64LeS => Some(Opcode::I64LeS),
        Instruction::I64LeU => Some(Opcode::I64LeU),
        Instruction::I64GeS => Some(Opcode::I64GeS),
        Instruction::I64GeU => Some(Opcode::I64GeU),
        Instruction::F32Eq => Some(Opcode::F32Eq),
        Instruction::F32Ne => Some(Opcode::F32Ne),
        Instruction::F32Lt => Some(Opcode::F32Lt),
        Instruction::F32Gt => Some(Opcode::F32Gt),
        Instruction::F32Le => Some(Opcode::F32Le),
        Instruction::F32Ge => Some(Opcode::F32Ge),
        Instruction::F64Eq => Some(Opcode::F64Eq),
        Instruction::F64Ne => Some(Opcode::F64Ne),
        Instruction::F64Lt => Some(Opcode::F64Lt),
        Instruction::F64Gt => Some(Opcode::F64Gt),
        Instruction::F64Le => Some(Opcode::F64Le),
        Instruction::F64Ge => Some(Opcode::F64Ge),
        Instruction::I32Clz => Some(Opcode::I32Clz),
        Instruction::I32Ctz => Some(Opcode::I32Ctz),
        Instruction::I32Popcnt => Some(Opcode::I32Popcnt),
        Instruction::I32Add => Some(Opcode::I32Add),
        Instruction::I32Sub => Some(Opcode::I32Sub),
        Instruction::I32Mul => Some(Opcode::I32Mul),
        Instruction::I32DivS => Some(Opcode::I32DivS),
        Instruction::I32DivU => Some(Opcode::I32DivU),
        Instruction::I32RemS => Some(Opcode::I32RemS),
        Instruction::I32RemU => Some(Opcode::I32RemU),
        Instruction::I32And => Some(Opcode::I32And),
        Instruction::I32Or => Some(Opcode::I32Or),
        Instruction::I32Xor => Some(Opcode::I32Xor),
        Instruction::I32Shl => Some(Opcode::I32Shl),
        Instruction::I32ShrS => Some(Opcode::I32ShrS),
        Instruction::I32ShrU => Some(Opcode::I32ShrU),
        Instruction::I32Rotl => Some(Opcode::I32Rotl),
        Instruction::I32Rotr => Some(Opcode::I32Rotr),
        Instruction::I64Clz => Some(Opcode::I64Clz),
        Instruction::I64Ctz => Some(Opcode::I64Ctz),
        Instruction::I64Popcnt => Some(Opcode::I64Popcnt),
        Instruction::I64Add => Some(Opcode::I64Add),
        Instruction::I64Sub => Some(Opcode::I64Sub),
        Instruction::I64Mul => Some(Opcode::I64Mul),
        Instruction::I64DivS => Some(Opcode::I64DivS),
        Instruction::I64DivU => Some(Opcode::I64DivU),
        Instruction::I64RemS => Some(Opcode::I64RemS),
        Instruction::I64RemU => Some(Opcode::I64RemU),
        Instruction::I64And => Some(Opcode::I64And),
        Instruction::I64Or => Some(Opcode::I64Or),
        Instruction::I64Xor => Some(Opcode::I64Xor),
        Instruction::I64Shl => Some(Opcode::I64Shl),
        Instruction::I64ShrS => Some(Opcode::I64ShrS),
        Instruction::I64ShrU => Some(Opcode::I64ShrU),
        Instruction::I64Rotl => Some(Opcode::I64Rotl),
        Instruction::I64Rotr => Some(Opcode::I64Rotr),
        Instruction::F32Abs => Some(Opcode::F32Abs),
        Instruction::F32Neg => Some(Opcode::F32Neg),
        Instruction::F32Ceil => Some(Opcode::F32Ceil),
        Instruction::F32Floor => Some(Opcode::F32Floor),
        Instruction::F32Trunc => Some(Opcode::F32Trunc),
        Instruction::F32Nearest => Some(Opcode::F32Nearest),
        Instruction::F32Sqrt => Some(Opcode::F32Sqrt),
        Instruction::F32Add => Some(Opcode::F32Add),
        Instruction::F32Sub => Some(Opcode::F32Sub),
        Instruction::F32Mul => Some(Opcode::F32Mul),
        Instruction::F32Div => Some(Opcode::F32Div),
        Instruction::F32Min => Some(Opcode::F32Min),
        Instruction::F32Max => Some(Opcode::F32Max),
        Instruction::F32Copysign => Some(Opcode::F32Copysign),
        Instruction::F64Abs => Some(Opcode::F64Abs),
        Instruction::F64Neg => Some(Opcode::F64Neg),
        Instruction::F64Ceil => Some(Opcode::F64Ceil),
        Instruction::F64Floor => Some(Opcode::F64Floor),
        Instruction::F64Trunc => Some(Opcode::F64Trunc),
        Instruction::F64Nearest => Some(Opcode::F64Nearest),
        Instruction::F64Sqrt => Some(Opcode::F64Sqrt),
        Instruction::F64Add => Some(Opcode::F64Add),
        Instruction::F64Sub => Some(Opcode::F64Sub),
        Instruction::F64Mul => Some(Opcode::F64Mul),
        Instruction::F64Div => Some(Opcode::F64Div),
        Instruction::F64Min => Some(Opcode::F64Min),
        Instruction::F64Max => Some(Opcode::F64Max),
        Instruction::F64Copysign => Some(Opcode::F64Copysign),
        Instruction::I32WrapI64 => Some(Opcode::I32WrapI64),
        Instruction::I32TruncF32S => Some(Opcode::I32TruncF32S),
        Instruction::I32TruncF32U => Some(Opcode::I32TruncF32U),
        Instruction::I32TruncF64S => Some(Opcode::I32TruncF64S),
        Instruction::I32TruncF64U => Some(Opcode::I32TruncF64U),
        Instruction::I64ExtendI32S => Some(Opcode::I64ExtendI32S),
        Instruction::I64ExtendI32U => Some(Opcode::I64ExtendI32U),
        Instruction::I64TruncF32S => Some(Opcode::I64TruncF32S),
        Instruction::I64TruncF32U => Some(Opcode::I64TruncF32U),
        Instruction::I64TruncF64S => Some(Opcode::I64TruncF64S),
        Instruction::I64TruncF64U => Some(Opcode::I64TruncF64U),
        Instruction::F32ConvertI32S => Some(Opcode::F32ConvertI32S),
        Instruction::F32ConvertI32U => Some(Opcode::F32ConvertI32U),
        Instruction::F32ConvertI64S => Some(Opcode::F32ConvertI64S),
        Instruction::F32ConvertI64U => Some(Opcode::F32ConvertI64U),
        Instruction::F32DemoteF64 => Some(Opcode::F32DemoteF64),
        Instruction::F64ConvertI32S => Some(Opcode::F64ConvertI32S),
        Instruction::F64ConvertI32U => Some(Opcode::F64ConvertI32U),
        Instruction::F64ConvertI64S => Some(Opcode::F64ConvertI64S),
        Instruction::F64ConvertI64U => Some(Opcode::F64ConvertI64U),
        Instruction::F64PromoteF32 => Some(Opcode::F64PromoteF32),
        Instruction::I32ReinterpretF32 => Some(Opcode::I32ReinterpretF32),
        Instruction::I64ReinterpretF64 => Some(Opcode::I64ReinterpretF64),
        Instruction::F32ReinterpretI32 => Some(Opcode::F32ReinterpretI32),
        Instruction::F64ReinterpretI64 => Some(Opcode::F64ReinterpretI64),
        Instruction::I32Extend8S => Some(Opcode::I32Extend8S),
        Instruction::I32Extend16S => Some(Opcode::I32Extend16S),
        Instruction::I64Extend8S => Some(Opcode::I64Extend8S),
        Instruction::I64Extend16S => Some(Opcode::I64Extend16S),
        Instruction::I64Extend32S => Some(Opcode::I64Extend32S),
        Instruction::RefNull { .. } => Some(Opcode::RefNull),
        Instruction::RefIsNull => Some(Opcode::RefIsNull),
        Instruction::RefFunc { .. } => Some(Opcode::RefFunc),
        _ => None,
    }
}

/// Every opcode byte that names an instruction with no operands names the
/// instruction whose opcode in the table is that byte.
#[verifier::spinoff_prover]
#[verifier::rlimit(100)]
pub proof fn lemma_numeric_instr_matches_opcodes(op: u8)
    ensures
        numeric_instr(op) matches Some(x) ==> (op_of(x) matches Some(o) && opcode_byte(o) == op),
{
}

/// Every memory opcode byte names the load or store whose opcode in the
/// table is that byte.
#[verifier::spinoff_prover]
#[verifier::rlimit(100)]
pub proof fn lemma_memory_instr_matches_opcodes(op: u8, m: MemArg)
    ensures
        memory_instr(op, m) matches Some(x) ==> (op_of(x) matches Some(o) && opcode_byte(o) == op),
{
}

} // verus!
