use wasm_parser::ast::{DataMode, ElementMode};
use wasm_parser::decode::{parse_bytes, Decoder};
use wasm_parser::error::WasmError;
use wasm_parser::instruction::Instruction;
use wasm_parser::types::{ExternalKind, ValueType};

const HEADER: [u8; 8] = [0x00, 0x61, 0x73, 0x6d, 0x01, 0x00, 0x00, 0x00];

fn module_with(sections: &[u8]) -> Vec<u8> {
    let mut bytes = HEADER.to_vec();
    bytes.extend_from_slice(sections);
    bytes
}

#[test]
fn test_empty_module() {
    let bytes = vec![0x00, 0x61, 0x73, 0x6d, 0x01, 0x00, 0x00, 0x00];
    let module = parse_bytes(&bytes).unwrap();
    assert!(module.types.is_empty());
    assert!(module.funcs.is_empty());
}

#[test]
fn test_invalid_magic() {
    let bytes = vec![0x00, 0x00, 0x00, 0x00, 0x01, 0x00, 0x00, 0x00];
    assert!(parse_bytes(&bytes).is_err());
}

#[test]
fn test_invalid_version() {
    let bytes = vec![0x00, 0x61, 0x73, 0x6d, 0x02, 0x00, 0x00, 0x00];
    assert!(parse_bytes(&bytes).is_err());
}

#[test]
fn decode_header_errors() {
    assert_eq!(parse_bytes(&[0x00, 0x61]).unwrap_err(), WasmError::UnexpectedEof);
    assert_eq!(parse_bytes(&[0x00, 0x00, 0x00, 0x00, 0x01, 0x00, 0x00, 0x00]).unwrap_err(), WasmError::InvalidMagic(vec![0, 0, 0, 0])
    );
    assert_eq!(parse_bytes(&[0x00, 0x61, 0x73, 0x6d, 0x02, 0x00, 0x00, 0x00]).unwrap_err(), WasmError::InvalidVersion(vec![2, 0, 0, 0])
    );
    assert_eq!(parse_bytes(&module_with(&[13, 0])).unwrap_err(), WasmError::InvalidSectionId(13));
    assert_eq!(parse_bytes(&module_with(&[1, 5, 0])).unwrap_err(), WasmError::UnexpectedEof);
}

#[test]
fn decode_type_import_export_sections() {
    let bytes = module_with(&[
        // type section: (i32, i64) -> (f32)
        1, 7, 1, 0x60, 2, 0x7f, 0x7e, 1, 0x7d,
        // import section: "m"."f" function of type 0
        2, 7, 1, 1, b'm', 1, b'f', 0x00, 0,
        // function section: one function of type 0
        3, 2, 1, 0,
        // export section: "g" function 1
        7, 5, 1, 1, b'g', 0x00, 1,
        // start section
        8, 1, 1,
    ]);
    let module = parse_bytes(&bytes).unwrap();
    assert_eq!(module.types.len(), 1);
    assert_eq!(module.types[0].params, vec![ValueType::I32, ValueType::I64]);
    assert_eq!(module.types[0].results, vec![ValueType::F32]);
    assert_eq!(module.imports.len(), 1);
    assert_eq!(module.imports[0].module, "m");
    assert_eq!(module.imports[0].name, "f");
    assert_eq!(module.imports[0].kind, ExternalKind::Func);
    assert_eq!(module.funcs, vec![0]);
    assert_eq!(module.exports[0].name, "g");
    assert_eq!(module.exports[0].idx, 1);
    assert_eq!(module.start, Some(1));
}

#[test]
fn decode_bad_function_type_form() {
    let bytes = module_with(&[1, 4, 1, 0x61, 0, 0]);
    assert_eq!(
        parse_bytes(&bytes).unwrap_err(),
        WasmError::Custom("Invalid function type form: 97".to_string())
    );
}

#[test]
fn decode_code_section() {
    // one body: one local of i32, local.get 0, i32.const 5, i32.add, end
    let body = [1u8, 1, 0x7f, 0x20, 0, 0x41, 5, 0x6a, 0x0b];
    let mut sections = vec![10, (body.len() + 2) as u8, 1, body.len() as u8];
    sections.extend_from_slice(&body);
    let module = parse_bytes(&module_with(&sections)).unwrap();
    assert_eq!(module.code.len(), 1);
    assert_eq!(module.code[0].locals.len(), 1);
    assert_eq!(module.code[0].locals[0].count, 1);
    assert_eq!(module.code[0].locals[0].ty, ValueType::I32);
    assert_eq!(
        module.code[0].instructions,
        vec![Instruction::LocalGet { local_idx: 0 }, Instruction::I32Const { value: 5 }, Instruction::I32Add]
    );
}

#[test]
fn decode_code_size_mismatch() {
    // the body claims 5 bytes but its instructions take 3
    let sections = [10u8, 6, 1, 5, 0, 0x01, 0x0b, 0x01, 0x0b];
    assert!(matches!(parse_bytes(&module_with(&sections)), Err(WasmError::ValidationError(_))));
}

#[test]
fn decode_nested_blocks() {
    // block (empty) nop end, loop (i32) end
    let body = [0u8, 0x02, 0x40, 0x01, 0x0b, 0x03, 0x7f, 0x0b, 0x0b];
    let mut sections = vec![10, (body.len() + 2) as u8, 1, body.len() as u8];
    sections.extend_from_slice(&body);
    let module = parse_bytes(&module_with(&sections)).unwrap();
    let instrs = &module.code[0].instructions;
    assert_eq!(instrs.len(), 2);
    assert!(matches!(&instrs[0], Instruction::Block { body, .. } if body == &vec![Instruction::Nop]));
    assert!(matches!(&instrs[1], Instruction::Loop { body, .. } if body.is_empty()));
}

#[test]
fn decode_if_else() {
    // if (empty) nop else unreachable end
    let body = [0u8, 0x04, 0x40, 0x01, 0x05, 0x00, 0x0b, 0x0b];
    let mut sections = vec![10, (body.len() + 2) as u8, 1, body.len() as u8];
    sections.extend_from_slice(&body);
    let module = parse_bytes(&module_with(&sections)).unwrap();
    match &module.code[0].instructions[0] {
        Instruction::If { then_branch, else_branch, .. } => {
            assert_eq!(then_branch, &vec![Instruction::Nop]);
            assert_eq!(else_branch, &vec![Instruction::Unreachable]);
        }
        other => panic!("not an if: {:?}", other),
    }
}

#[test]
fn decode_invalid_opcode() {
    let body = [0u8, 0xff, 0x0b];
    let mut sections = vec![10, (body.len() + 2) as u8, 1, body.len() as u8];
    sections.extend_from_slice(&body);
    assert_eq!(parse_bytes(&module_with(&sections)).unwrap_err(), WasmError::InvalidOpcode(0xff));
}

#[test]
fn decode_memory_table_global_data_element() {
    let bytes = module_with(&[
        // table: funcref, min 1 max 2
        4, 5, 1, 0x70, 0x01, 1, 2,
        // memory: min 1, no max
        5, 3, 1, 0x00, 1,
        // global: mutable i32 = 7
        6, 6, 1, 0x7f, 0x01, 0x41, 7, 0x0b,
        // element: active on table 0 at offset 0, functions [0]
        9, 7, 1, 0, 0x41, 0, 0x0b, 1, 0,
        // data count
        12, 1, 1,
        // data: active on memory 0 at offset 8, bytes "hi"
        11, 8, 1, 0, 0x41, 8, 0x0b, 2, b'h', b'i',
        // custom section "n" with data [9]
        0, 3, 1, b'n', 9,
    ]);
    let module = parse_bytes(&bytes).unwrap();
    assert_eq!(module.tables[0].elem_type, ValueType::FuncRef);
    assert_eq!(module.tables[0].limits.max, Some(2));
    assert_eq!(module.memories[0].limits.min, 1);
    assert_eq!(module.memories[0].limits.max, None);
    assert!(module.globals[0].ty.mutable);
    assert_eq!(module.globals[0].init, vec![Instruction::I32Const { value: 7 }]);
    assert_eq!(module.elements[0].init, vec![0]);
    assert!(matches!(module.elements[0].mode, ElementMode::Active { table_idx: 0, .. }));
    assert_eq!(module.data_count, Some(1));
    assert_eq!(module.data[0].data, b"hi".to_vec());
    assert!(matches!(module.data[0].mode, DataMode::Active { mem_idx: 0, .. }));
    assert_eq!(module.custom_sections[0].name, "n");
    assert_eq!(module.custom_sections[0].data, vec![9]);
}

#[test]
fn decode_bad_element_and_data_flags() {
    assert_eq!(parse_bytes(&module_with(&[9, 2, 1, 7])).unwrap_err(), WasmError::InvalidElementKind(7));
    assert_eq!(parse_bytes(&module_with(&[11, 2, 1, 5])).unwrap_err(), WasmError::InvalidDataMode(5));
    assert_eq!(parse_bytes(&module_with(&[2, 6, 1, 1, b'm', 1, b'f', 0x09])).unwrap_err(), WasmError::InvalidExternalKind(9));
}

#[test]
fn decode_names_replace_invalid_utf8() {
    let bytes = module_with(&[0, 2, 1, 0xff]);
    let module = parse_bytes(&bytes).unwrap();
    assert_eq!(module.custom_sections[0].name, "\u{fffd}");
}

#[test]
fn decoder_reads_numbers() {
    let bytes = [0x01, 0x02, 0x03, 0x04, 0x80, 0x01, 0x7f];
    let mut d = Decoder::new(&bytes);
    assert_eq!(d.peek(), Some(0x01));
    assert_eq!(d.read_u32_le().unwrap(), 0x0403_0201);
    assert_eq!(d.read_u32_leb128().unwrap(), 128);
    assert_eq!(d.read_i32_leb128().unwrap(), -1);
    assert_eq!(d.position(), 7);
    assert_eq!(d.read_u8(), Err(WasmError::UnexpectedEof));
    assert_eq!(d.peek(), None);
}
