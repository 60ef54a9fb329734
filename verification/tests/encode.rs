use wasm_parser::ast::{Export, FunctionBody, Global, Import, Local, Module};
use wasm_parser::encode::{encode_module, Encoder};
use wasm_parser::error::WasmError;
use wasm_parser::instruction::Instruction;
use wasm_parser::types::{BlockType, ExternalKind, FuncType, GlobalType, Limits, MemType, ValueType};

#[test]
fn test_encode_empty_module() {
    let module = Module::new();
    let bytes = encode_module(&module).unwrap();
    assert_eq!(bytes, vec![0x00, 0x61, 0x73, 0x6d, 0x01, 0x00, 0x00, 0x00]);
}

#[test]
fn test_encode_type_section() {
    let mut module = Module::new();
    module.add_type(FuncType::new(vec![ValueType::I32, ValueType::I32], vec![ValueType::I32]));
    let bytes = encode_module(&module).unwrap();
    assert!(&bytes.starts_with(&[0x00, 0x61, 0x73, 0x6d]));
}

#[test]
fn encode_type_section_bytes() {
    let mut module = Module::new();
    module.add_type(FuncType::new(vec![ValueType::I32, ValueType::I64], vec![ValueType::F32]));
    let bytes = encode_module(&module).unwrap();
    assert_eq!(
        bytes,
        vec![0x00, 0x61, 0x73, 0x6d, 0x01, 0x00, 0x00, 0x00, 1, 7, 1, 0x60, 2, 0x7f, 0x7e, 1, 0x7d]
    );
}

#[test]
fn encode_function_code_export_sections() {
    let mut module = Module::new();
    let t = module.add_type(FuncType::new(vec![ValueType::I32], vec![ValueType::I32]));
    let f = module.add_function(t);
    module.add_export("id".to_string(), ExternalKind::Func, f);
    let mut body = FunctionBody::new();
    body.add_local(2, ValueType::I64);
    body.add_instruction(Instruction::LocalGet { local_idx: 0 });
    module.code.push(body);
    let bytes = encode_module(&module).unwrap();
    let expected: Vec<u8> = vec![
        0x00, 0x61, 0x73, 0x6d, 0x01, 0x00, 0x00, 0x00,
        1, 6, 1, 0x60, 1, 0x7f, 1, 0x7f,
        3, 2, 1, 0,
        7, 6, 1, 2, b'i', b'd', 0x00, 0,
        10, 8, 1, 6, 1, 2, 0x7e, 0x20, 0, 0x0b,
    ];
    assert_eq!(bytes, expected);
}

#[test]
fn encode_imports_memory_global_start() {
    let mut module = Module::new();
    module.add_import(Import {
        module: "env".to_string(),
        name: "m".to_string(),
        kind: ExternalKind::Mem,
        idx: 0,
    });
    module.add_memory(MemType { limits: Limits::new(1, Some(2)) });
    module.add_global(Global {
        ty: GlobalType { value_type: ValueType::I32, mutable: true },
        init: vec![Instruction::I32Const { value: -1 }],
    });
    module.set_start(0);
    let bytes = encode_module(&module).unwrap();
    let expected: Vec<u8> = vec![
        0x00, 0x61, 0x73, 0x6d, 0x01, 0x00, 0x00, 0x00,
        2, 9, 1, 3, b'e', b'n', b'v', 1, b'm', 0x02, 0,
        5, 4, 1, 1, 1, 2,
        6, 6, 1, 0x7f, 1, 0x41, 0x7f, 0x0b,
        8, 1, 0,
    ];
    assert_eq!(bytes, expected);
}

#[test]
fn encode_unimplemented_instruction_fails() {
    let mut module = Module::new();
    let t = module.add_type(FuncType::new(vec![], vec![]));
    module.add_function(t);
    let mut body = FunctionBody::new();
    body.add_instruction(Instruction::I64Eqz);
    module.code.push(body);
    assert_eq!(
        encode_module(&module),
        Err(WasmError::Custom("Unimplemented instruction: I64Eqz".to_string()))
    );
}

#[test]
fn encode_nested_blocks_and_if() {
    let mut module = Module::new();
    let t = module.add_type(FuncType::new(vec![], vec![]));
    module.add_function(t);
    let mut body = FunctionBody::new();
    body.add_instruction(Instruction::Block {
        block_type: BlockType::Empty,
        body: vec![Instruction::Nop],
    });
    body.add_instruction(Instruction::If {
        block_type: BlockType::Value(ValueType::I32),
        then_branch: vec![Instruction::I32Const { value: 1 }],
        else_branch: vec![Instruction::I32Const { value: 2 }],
    });
    module.code.push(body);
    let bytes = encode_module(&module).unwrap();
    let code: Vec<u8> = vec![
        10, 16, 1, 14, 0,
        0x02, 0x40, 0x01, 0x0b,
        0x04, 0x7f, 0x41, 1, 0x05, 0x41, 2, 0x0b,
        0x0b,
    ];
    assert!(bytes.ends_with(&code));
}

#[test]
fn encoder_appends_module() {
    let mut e = Encoder::new();
    let mut module = Module::new();
    module.set_start(624485);
    e.encode(&module).unwrap();
    let bytes = e.into_bytes();
    assert_eq!(bytes, vec![0x00, 0x61, 0x73, 0x6d, 0x01, 0x00, 0x00, 0x00, 8, 3, 0xe5, 0x8e, 0x26]);
}

#[test]
fn encode_local_groups() {
    let mut body = FunctionBody::new();
    body.add_local(3, ValueType::I32);
    assert_eq!(body.locals, vec![Local { count: 3, ty: ValueType::I32 }]);
    let _ = Export { name: "x".to_string(), kind: ExternalKind::Global, idx: 0 };
}

fn one_body(instrs: Vec<Instruction>) -> Module {
    let mut module = Module::new();
    let t = module.add_type(FuncType::new(vec![], vec![]));
    module.add_function(t);
    let mut body = FunctionBody::new();
    for i in instrs {
        body.add_instruction(i);
    }
    module.code.push(body);
    module
}

#[test]
fn encode_if_closes_with_one_end() {
    let module = one_body(vec![Instruction::If {
        block_type: BlockType::Empty,
        then_branch: vec![Instruction::Nop],
        else_branch: vec![],
    }]);
    let bytes = encode_module(&module).unwrap();
    assert!(bytes.ends_with(&[10, 8, 1, 6, 0, 0x04, 0x40, 0x01, 0x0b, 0x0b]));
    let back = wasm_parser::parse(&bytes).unwrap();
    assert_eq!(back.code, module.code);
}

#[test]
fn encode_if_else_reads_back() {
    let module = one_body(vec![
        Instruction::LocalGet { local_idx: 0 },
        Instruction::If {
            block_type: BlockType::Value(ValueType::I32),
            then_branch: vec![Instruction::I32Const { value: 1 }],
            else_branch: vec![Instruction::I32Const { value: -2 }, Instruction::Nop],
        },
        Instruction::Drop,
    ]);
    let bytes = encode_module(&module).unwrap();
    let back = wasm_parser::parse(&bytes).unwrap();
    assert_eq!(back.code, module.code);
}

#[test]
fn encode_messages_match_debug() {
    let cases = vec![
        Instruction::MemoryGrow { mem_idx: 0 },
        Instruction::I32Store { mem_arg: wasm_parser::instruction::MemArg { align: 2, offset: 16 } },
        Instruction::SelectTyped { results: vec![ValueType::I32, ValueType::F64] },
        Instruction::SelectTyped { results: vec![] },
        Instruction::ReturnCallIndirect { type_idx: 3, table_idx: 1234567 },
        Instruction::MemoryCopy { src_mem: 0, dst_mem: 255 },
        Instruction::F64Sqrt,
    ];
    for instr in cases {
        let expected = format!("Unimplemented instruction: {:?}", instr);
        let module = one_body(vec![Instruction::Block { block_type: BlockType::Empty, body: vec![instr] }]);
        assert_eq!(encode_module(&module), Err(WasmError::Custom(expected)));
    }
    let module = one_body(vec![Instruction::MemoryGrow { mem_idx: 7 }]);
    assert_eq!(
        encode_module(&module),
        Err(WasmError::Custom("Unimplemented instruction: MemoryGrow { mem_idx: 7 }".to_string()))
    );
}
