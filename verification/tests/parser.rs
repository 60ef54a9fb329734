use wasm_parser::ast::{FunctionBody, Module};
use wasm_parser::error::WasmError;
use wasm_parser::instruction::Instruction;
use wasm_parser::parser::{parse, ModuleExt, WasmParser};
use wasm_parser::types::{FuncType, ValueType};

#[test]
fn test_parser_api() {
    let module = WasmParser::new_module();
    assert_eq!(module.function_count(), 0);
}

#[test]
fn test_parse_minimal_module() {
    let bytes = vec![
        0x00, 0x61, 0x73, 0x6d, // magic
        0x01, 0x00, 0x00, 0x00, // version
    ];
    let module = WasmParser::parse(&bytes).unwrap();
    assert_eq!(module.function_count(), 0);
}

#[test]
fn test_roundtrip() {
    let mut module = Module::new();

    // Add a type
    let type_idx = module.add_type(FuncType::new(vec![ValueType::I32], vec![ValueType::I32]));

    // Add a function
    let _func_idx = module.add_function(type_idx);

    // Add a function body
    let mut body = FunctionBody::new();
    body.add_local(1, ValueType::I32);
    body.add_instruction(Instruction::LocalGet { local_idx: 0 });
    body.add_instruction(Instruction::LocalGet { local_idx: 0 });
    body.add_instruction(Instruction::I32Add);
    module.code.push(body);

    // Encode
    let encoded = wasm_parser::parser::encode_module(&module).unwrap();

    // Parse back
    let module2 = parse(&encoded).unwrap();
    assert_eq!(module2.types.len(), 1);
    assert_eq!(module2.funcs.len(), 1);
    assert_eq!(module2.code.len(), 1);
}

fn module_with_one_function() -> Module {
    let mut module = Module::new();
    let t = module.add_type(FuncType::new(vec![], vec![]));
    module.add_function(t);
    let mut body = FunctionBody::new();
    body.add_instruction(Instruction::Nop);
    body.add_instruction(Instruction::I32Add);
    module.code.push(body);
    module
}

#[test]
fn parser_roundtrip_gives_the_same_module() {
    let module = module_with_one_function();
    let bytes = WasmParser::encode_wasm(&module).unwrap();
    let back = WasmParser::parse(&bytes).unwrap();
    assert_eq!(back.types, module.types);
    assert_eq!(back.funcs, module.funcs);
    assert_eq!(back.code, module.code);
}

#[test]
fn parser_has_function() {
    let module = module_with_one_function();
    assert!(module.has_function(0));
    assert!(!module.has_function(1));
}

#[test]
fn parser_insert_remove_replace() {
    let mut module = module_with_one_function();
    module.insert_instruction(0, 1, Instruction::Drop).unwrap();
    assert_eq!(
        module.code[0].instructions,
        vec![Instruction::Nop, Instruction::Drop, Instruction::I32Add]
    );
    module.replace_instruction(0, 0, Instruction::Unreachable).unwrap();
    assert_eq!(
        module.code[0].instructions,
        vec![Instruction::Unreachable, Instruction::Drop, Instruction::I32Add]
    );
    assert_eq!(module.remove_instruction(0, 1), Ok(Some(Instruction::Drop)));
    assert_eq!(module.remove_instruction(0, 5), Ok(None));
    module.replace_instruction(0, 9, Instruction::Nop).unwrap();
    assert_eq!(module.code[0].instructions, vec![Instruction::Unreachable, Instruction::I32Add]);
}

#[test]
fn parser_edits_of_missing_function() {
    let mut module = module_with_one_function();
    assert_eq!(
        module.insert_instruction(3, 0, Instruction::Nop),
        Err(WasmError::InvalidFunctionIndex(3))
    );
    assert_eq!(module.remove_instruction(3, 0), Err(WasmError::InvalidFunctionIndex(3)));
    assert_eq!(
        module.replace_instruction(3, 0, Instruction::Nop),
        Err(WasmError::InvalidFunctionIndex(3))
    );
    assert_eq!(
        module.modify_function(3, |b: &mut FunctionBody| b.add_instruction(Instruction::Nop)),
        Err(WasmError::InvalidFunctionIndex(3))
    );
}

#[test]
fn parser_modify_function_runs_the_closure() {
    let mut module = module_with_one_function();
    module
        .modify_function(0, |b: &mut FunctionBody| b.add_instruction(Instruction::Return))
        .unwrap();
    assert_eq!(
        module.code[0].instructions,
        vec![Instruction::Nop, Instruction::I32Add, Instruction::Return]
    );
}

#[test]
fn parser_parse_errors() {
    assert_eq!(parse(&[0x00, 0x61, 0x73]).unwrap_err(), WasmError::UnexpectedEof);
}

#[test]
fn parser_nested_instructions_read_back() {
    let mut module = Module::new();
    let t = module.add_type(FuncType::new(vec![ValueType::I32], vec![ValueType::I32]));
    module.add_function(t);
    let mut body = FunctionBody::new();
    body.add_instruction(Instruction::Block {
        block_type: wasm_parser::types::BlockType::Value(ValueType::I32),
        body: vec![
            Instruction::Loop {
                block_type: wasm_parser::types::BlockType::Empty,
                body: vec![
                    Instruction::LocalGet { local_idx: 0 },
                    Instruction::I64Const { value: -7 },
                    Instruction::Drop,
                    Instruction::BrTable { labels: vec![0, 1], default_label: 0 },
                ],
            },
            Instruction::LocalGet { local_idx: 0 },
            Instruction::If {
                block_type: wasm_parser::types::BlockType::Value(ValueType::I32),
                then_branch: vec![Instruction::I32Const { value: 1 }, Instruction::I32Add],
                else_branch: vec![Instruction::Call { function_idx: 0 }],
            },
        ],
    });
    module.code.push(body);
    let bytes = wasm_parser::parser::encode_module(&module).unwrap();
    let back = parse(&bytes).unwrap();
    assert_eq!(back.code, module.code);
}

#[test]
fn parser_reads_any_opcode_in_a_block() {
    // function body: block (i32.add) end end
    let bytes = vec![
        0x00, 0x61, 0x73, 0x6d, 0x01, 0x00, 0x00, 0x00,
        1, 4, 1, 0x60, 0, 0,
        3, 2, 1, 0,
        10, 8, 1, 6, 0, 0x02, 0x40, 0x6a, 0x0b, 0x0b,
    ];
    let module = parse(&bytes).unwrap();
    assert_eq!(
        module.code[0].instructions,
        vec![Instruction::Block { block_type: wasm_parser::types::BlockType::Empty, body: vec![Instruction::I32Add] }]
    );
}
