//! WebAssembly binary parser.
//!
//! Parses WebAssembly binaries into an editable AST, lets the AST be
//! modified, and encodes modules back to the binary format.

pub mod ast;
pub mod decode;
pub mod decode_instructions;
pub mod encode;
pub mod error;
pub mod instruction;
pub mod leb128;
pub mod parser;
pub mod roundtrip;
pub mod summary;
pub mod text;
pub mod types;
pub mod value;

pub use crate::ast::{FunctionBody, Module};
pub use crate::error::WasmError;
pub use crate::instruction::Instruction;
pub use crate::parser::{encode_module, parse, ModuleExt, WasmParser};

use vstd::prelude::*;

verus! {

/// Magic number for WebAssembly binary format: \0asm
pub const WASM_MAGIC: [u8; 4] = [0x00, 0x61, 0x73, 0x6d];

/// Current WebAssembly version (1)
pub const WASM_VERSION: [u8; 4] = [0x01, 0x00, 0x00, 0x00];

/// WebAssembly section IDs.
#[derive(Debug, Clone, Copy, PartialEq, Eq, Structural)]
pub enum SectionId {
    Custom,
    Type,
    Import,
    Function,
    Table,
    Memory,
    Global,
    Export,
    Start,
    Element,
    Code,
    Data,
    DataCount,
}

/// The section that an id byte names; ids above 12 are rejected.
pub open spec fn section_id_of_byte(value: u8) -> Option<SectionId> {
    match value {
        0u8 => Some(SectionId::Custom),
        1u8 => Some(SectionId::Type),
        2u8 => Some(SectionId::Import),
        3u8 => Some(SectionId::Function),
        4u8 => Some(SectionId::Table),
        5u8 => Some(SectionId::Memory),
        6u8 => Some(SectionId::Global),
        7u8 => Some(SectionId::Export),
        8u8 => Some(SectionId::Start),
        9u8 => Some(SectionId::Element),
        10u8 => Some(SectionId::Code),
        11u8 => Some(SectionId::Data),
        12u8 => Some(SectionId::DataCount),
        _ => None,
    }
}

/// The id byte of a section, its number in the binary format.
pub open spec fn section_id_byte(id: SectionId) -> u8 {
    match id {
        SectionId::Custom => 0,
        SectionId::Type => 1,
        SectionId::Import => 2,
        SectionId::Function => 3,
        SectionId::Table => 4,
        SectionId::Memory => 5,
        SectionId::Global => 6,
        SectionId::Export => 7,
        SectionId::Start => 8,
        SectionId::Element => 9,
        SectionId::Code => 10,
        SectionId::Data => 11,
        SectionId::DataCount => 12,
    }
}

/// Exactly the bytes up to 12 name a section, each the id byte of the
/// section it names; every section is named by its id byte.
pub proof fn lemma_section_id_roundtrip(id: SectionId, value: u8)
    ensures
        section_id_of_byte(section_id_byte(id)) == Some(id),
        section_id_of_byte(value) is Some <==> value <= 12,
        section_id_of_byte(value) matches Some(s) ==> section_id_byte(s) == value,
{
}

impl TryFrom<u8> for SectionId {
    type Error = WasmError;

    fn try_from(value: u8) -> (r: Result<SectionId, WasmError>) {
        match value {
            0 => Ok(SectionId::Custom),
            1 => Ok(SectionId::Type),
            2 => Ok(SectionId::Import),
            3 => Ok(SectionId::Function),
            4 => Ok(SectionId::Table),
            5 => Ok(SectionId::Memory),
            6 => Ok(SectionId::Global),
            7 => Ok(SectionId::Export),
            8 => Ok(SectionId::Start),
            9 => Ok(SectionId::Element),
            10 => Ok(SectionId::Code),
            11 => Ok(SectionId::Data),
            12 => Ok(SectionId::DataCount),
            _ => Err(WasmError::InvalidSectionId(value)),
        }
    }
}

impl vstd::std_specs::convert::TryFromSpecImpl<u8> for SectionId {
    open spec fn obeys_try_from_spec() -> bool {
        true
    }

    open spec fn try_from_spec(value: u8) -> Result<SectionId, WasmError> {
        match section_id_of_byte(value) {
            Some(id) => Ok(id),
            None => Err(WasmError::InvalidSectionId(value)),
        }
    }
}

} // verus!
