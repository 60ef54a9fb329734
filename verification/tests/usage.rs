use wasm_parser::ast::{Export, Import};
use wasm_parser::types::{ExternalKind, FuncType, Limits, MemType, TableType, ValueType};
use wasm_parser::{encode_module, parse, FunctionBody, Instruction, Module, ModuleExt, WasmParser};

#[test]
fn usage_build_a_function() {
    let mut module = Module::new();
    let type_idx = module.add_type(FuncType::new(vec![ValueType::I32, ValueType::I32], vec![ValueType::I32]));
    assert_eq!(type_idx, 0);
    let func_idx = module.add_function(type_idx);
    assert_eq!(func_idx, 0);
    let mut body = FunctionBody::new();
    body.add_local(1, ValueType::I32);
    body.add_instruction(Instruction::LocalGet { local_idx: 0 });
    body.add_instruction(Instruction::LocalGet { local_idx: 1 });
    body.add_instruction(Instruction::I32Add);
    module.code.push(body);
    assert_eq!(module.function_count(), 1);
    assert!(module.has_function(0));
    assert_eq!(module.get_function_body(0).unwrap().instructions.len(), 3);
    let bytes = encode_module(&module).unwrap();
    let back = parse(&bytes).unwrap();
    assert_eq!(back.code, module.code);
}

#[test]
fn usage_function_indices_count_imports_first() {
    let mut module = Module::new();
    let t = module.add_type(FuncType::new(vec![], vec![]));
    module.add_import(Import { module: "env".to_string(), name: "print".to_string(), kind: ExternalKind::Func, idx: t });
    module.add_function(t);
    let mut body = FunctionBody::new();
    body.add_instruction(Instruction::Nop);
    module.code.push(body);
    // Function 0 is the import and has no body here; function 1 is the body.
    assert!(module.get_function_body(0).is_none());
    assert_eq!(module.get_function_body(1).unwrap().instructions, vec![Instruction::Nop]);
    module.insert_instruction(1, 0, Instruction::I32Const { value: 1 }).unwrap();
    assert_eq!(
        module.get_function_body(1).unwrap().instructions,
        vec![Instruction::I32Const { value: 1 }, Instruction::Nop]
    );
}

#[test]
fn usage_imports_exports_memory_tables() {
    let mut module = WasmParser::new_module();
    module.add_import(Import { module: "env".to_string(), name: "memory".to_string(), kind: ExternalKind::Mem, idx: 0 });
    module.add_export("add".to_string(), ExternalKind::Func, 0);
    module.add_memory(MemType { limits: Limits::new(1, Some(10)) });
    module.add_table(TableType { limits: Limits::new(10, Some(100)), elem_type: ValueType::FuncRef });
    assert_eq!(module.imports.len(), 1);
    assert_eq!(module.exports, vec![Export { name: "add".to_string(), kind: ExternalKind::Func, idx: 0 }]);
    assert_eq!(module.memories.len(), 1);
    assert_eq!(module.tables.len(), 1);
    let bytes = WasmParser::encode_wasm(&module).unwrap();
    let back = WasmParser::parse(&bytes).unwrap();
    assert_eq!(back.imports, module.imports);
    assert_eq!(back.exports, module.exports);
    assert_eq!(back.memories, module.memories);
    assert_eq!(back.tables, module.tables);
}

#[test]
fn usage_insert_then_remove_restores_the_body() {
    let mut module = Module::new();
    let t = module.add_type(FuncType::new(vec![], vec![]));
    module.add_function(t);
    let mut body = FunctionBody::new();
    body.add_instruction(Instruction::Nop);
    body.add_instruction(Instruction::Return);
    module.code.push(body);
    module.insert_instruction(0, 1, Instruction::Drop).unwrap();
    assert_eq!(module.remove_instruction(0, 1), Ok(Some(Instruction::Drop)));
    assert_eq!(module.code[0].instructions, vec![Instruction::Nop, Instruction::Return]);
    // Beyond the end, the instruction goes last.
    module.insert_instruction(0, 9, Instruction::Drop).unwrap();
    assert_eq!(module.code[0].instructions, vec![Instruction::Nop, Instruction::Return, Instruction::Drop]);
}
