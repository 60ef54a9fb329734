//! Error type shared by the decoder, the encoder and the type conversions.

use vstd::prelude::*;

verus! {

/// Errors that can occur during WASM parsing, validation, or encoding.
#[derive(Debug, Clone, PartialEq)]
pub enum WasmError {
    InvalidMagic(Vec<u8>),
    InvalidVersion(Vec<u8>),
    InvalidSectionId(u8),
    UnexpectedEof,
    Leb128DecodeError(String),
    Leb128EncodeError(String),
    InvalidValueType(u8),
    InvalidBlockType(i64),
    InvalidOpcode(u8),
    InvalidFunctionIndex(u32),
    InvalidTypeIndex(u32),
    InvalidAlignment(u32),
    InvalidLimits { min: u32, max: u32 },
    InvalidKind(u8),
    InvalidExternalKind(u8),
    InvalidMutability(u8),
    StringDecodeError(String),
    Utf8Error,
    InvalidElementKind(u8),
    InvalidDataMode(u8),
    ValidationError(String),
    IoError(String),
    Custom(String),
}

/// Mathematical model of a [`WasmError`]: the same variants, with byte vectors
/// as sequences of bytes and strings as sequences of characters.
pub enum WasmErrorView {
    InvalidMagic(Seq<u8>),
    InvalidVersion(Seq<u8>),
    InvalidSectionId(u8),
    UnexpectedEof,
    Leb128DecodeError(Seq<char>),
    Leb128EncodeError(Seq<char>),
    InvalidValueType(u8),
    InvalidBlockType(i64),
    InvalidOpcode(u8),
    InvalidFunctionIndex(u32),
    InvalidTypeIndex(u32),
    InvalidAlignment(u32),
    InvalidLimits { min: u32, max: u32 },
    InvalidKind(u8),
    InvalidExternalKind(u8),
    InvalidMutability(u8),
    StringDecodeError(Seq<char>),
    Utf8Error,
    InvalidElementKind(u8),
    InvalidDataMode(u8),
    ValidationError(Seq<char>),
    IoError(Seq<char>),
    Custom(Seq<char>),
}

impl View for WasmError {
    type V = WasmErrorView;

    open spec fn view(&self) -> WasmErrorView {
        match self {
            WasmError::InvalidMagic(b) => WasmErrorView::InvalidMagic(b@),
            WasmError::InvalidVersion(b) => WasmErrorView::InvalidVersion(b@),
            WasmError::InvalidSectionId(x) => WasmErrorView::InvalidSectionId(*x),
            WasmError::UnexpectedEof => WasmErrorView::UnexpectedEof,
            WasmError::Leb128DecodeError(s) => WasmErrorView::Leb128DecodeError(s@),
            WasmError::Leb128EncodeError(s) => WasmErrorView::Leb128EncodeError(s@),
            WasmError::InvalidValueType(x) => WasmErrorView::InvalidValueType(*x),
            WasmError::InvalidBlockType(x) => WasmErrorView::InvalidBlockType(*x),
            WasmError::InvalidOpcode(x) => WasmErrorView::InvalidOpcode(*x),
            WasmError::InvalidFunctionIndex(x) => WasmErrorView::InvalidFunctionIndex(*x),
            WasmError::InvalidTypeIndex(x) => WasmErrorView::InvalidTypeIndex(*x),
            WasmError::InvalidAlignment(x) => WasmErrorView::InvalidAlignment(*x),
            WasmError::InvalidLimits { min, max } => WasmErrorView::InvalidLimits { min: *min, max: *max },
            WasmError::InvalidKind(x) => WasmErrorView::InvalidKind(*x),
            WasmError::InvalidExternalKind(x) => WasmErrorView::InvalidExternalKind(*x),
            WasmError::InvalidMutability(x) => WasmErrorView::InvalidMutability(*x),
            WasmError::StringDecodeError(s) => WasmErrorView::StringDecodeError(s@),
            WasmError::Utf8Error => WasmErrorView::Utf8Error,
            WasmError::InvalidElementKind(x) => WasmErrorView::InvalidElementKind(*x),
            WasmError::InvalidDataMode(x) => WasmErrorView::InvalidDataMode(*x),
            WasmError::ValidationError(s) => WasmErrorView::ValidationError(s@),
            WasmError::IoError(s) => WasmErrorView::IoError(s@),
            WasmError::Custom(s) => WasmErrorView::Custom(s@),
        }
    }
}

} // verus!
