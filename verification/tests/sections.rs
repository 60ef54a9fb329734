use wasm_parser::{SectionId, WASM_MAGIC, WASM_VERSION};
use wasm_parser::error::WasmError;

#[test]
fn test_magic_and_version() {
    assert_eq!(&WASM_MAGIC, &[0x00, 0x61, 0x73, 0x6d]);
    assert_eq!(&WASM_VERSION, &[0x01, 0x00, 0x00, 0x00]);
}

#[test]
fn test_section_id_conversion() {
    assert_eq!(SectionId::try_from(0u8).unwrap(), SectionId::Custom);
    assert_eq!(SectionId::try_from(1u8).unwrap(), SectionId::Type);
    assert_eq!(SectionId::try_from(10u8).unwrap(), SectionId::Code);
    assert!(SectionId::try_from(13u8).is_err());
}

#[test]
fn section_ids_all_read() {
    assert_eq!(SectionId::try_from(12u8).unwrap(), SectionId::DataCount);
    assert_eq!(SectionId::try_from(11u8).unwrap(), SectionId::Data);
    assert_eq!(SectionId::try_from(200u8), Err(WasmError::InvalidSectionId(200)));
}
