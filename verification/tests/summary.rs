use wasm_parser::ast::{Export, FunctionBody, Import, Module};
use wasm_parser::error::WasmError;
use wasm_parser::instruction::Instruction;
use wasm_parser::summary::{
    data_size, export_infos, function_infos, import_infos, module_info, parse_base64_module,
    summarize, validate_base64_module, ExportInfo, FunctionInfo, ImportInfo, ParseReply,
    ValidateReply,
};
use wasm_parser::ast::{DataMode, DataSegment};
use wasm_parser::types::{ExternalKind, FuncType, ValueType};

fn sample_module() -> Module {
    let mut m = Module::new();
    let t0 = m.add_type(FuncType::new(vec![ValueType::I32], vec![]));
    let t1 = m.add_type(FuncType::new(vec![], vec![ValueType::F64]));
    m.add_import(Import { module: "env".to_string(), name: "log".to_string(), kind: ExternalKind::Func, idx: t0 });
    m.add_function(t0);
    m.add_function(t1);
    m.add_export("main".to_string(), ExternalKind::Func, 1);
    let mut body = FunctionBody::new();
    body.add_local(2, ValueType::I32);
    body.add_instruction(Instruction::Nop);
    body.add_instruction(Instruction::Nop);
    m.code.push(body);
    m
}

#[test]
fn summary_counts() {
    let m = sample_module();
    let info = module_info(&m);
    assert_eq!(info.functions, 2);
    assert_eq!(info.types, 2);
    assert_eq!(info.imports, 1);
    assert_eq!(info.exports, 1);
    assert_eq!(info.memories, 0);
}

#[test]
fn summary_imports_and_exports() {
    let m = sample_module();
    assert_eq!(
        import_infos(&m),
        vec![ImportInfo { module: "env".to_string(), name: "log".to_string(), kind: ExternalKind::Func }]
    );
    assert_eq!(
        export_infos(&m),
        vec![ExportInfo { name: "main".to_string(), kind: ExternalKind::Func, index: 1 }]
    );
}

#[test]
fn summary_functions_saturate_the_code_index() {
    let m = sample_module();
    let fs = function_infos(&m);
    assert_eq!(
        fs,
        vec![
            FunctionInfo { index: 0, type_index: 0, params: vec![ValueType::I32], results: vec![], locals: 1, instructions: 2, has_type: true, has_body: true },
            FunctionInfo { index: 1, type_index: 1, params: vec![], results: vec![ValueType::F64], locals: 1, instructions: 2, has_type: true, has_body: true },
        ]
    );
    let report = summarize(&m);
    assert_eq!(report.functions, fs);
    assert_eq!(report.info, module_info(&m));
}

#[test]
fn summary_parse_base64() {
    match parse_base64_module("AGFzbQEAAAA=") {
        ParseReply::Parsed(p) => {
            assert_eq!(p.info.functions, 0);
            assert!(p.imports.is_empty());
        }
        other => panic!("unexpected reply {:?}", other),
    }
    assert!(matches!(parse_base64_module("not base64!"), ParseReply::Base64Error(_)));
    match parse_base64_module("AAAAAAEAAAA=") {
        ParseReply::Invalid(e) => assert_eq!(e, WasmError::InvalidMagic(vec![0, 0, 0, 0])),
        other => panic!("unexpected reply {:?}", other),
    }
}

#[test]
fn summary_validate_base64() {
    assert!(matches!(validate_base64_module("AGFzbQEAAAA="), ValidateReply::Valid));
    assert!(matches!(validate_base64_module("@@@@"), ValidateReply::Base64Error(_)));
    match validate_base64_module("AGFzbQIAAAA=") {
        ValidateReply::Invalid(e) => assert_eq!(e, WasmError::InvalidVersion(vec![2, 0, 0, 0])),
        other => panic!("unexpected reply {:?}", other),
    }
}

#[test]
fn summary_data_size() {
    let mut m = Module::new();
    assert_eq!(data_size(&m), Some(0));
    m.add_data(DataSegment { mode: DataMode::Passive, data: vec![1, 2, 3] });
    m.add_data(DataSegment { mode: DataMode::Passive, data: vec![4] });
    assert_eq!(data_size(&m), Some(4));
    let _ = Export { name: String::new(), kind: ExternalKind::Table, idx: 0 };
}

#[test]
fn summary_function_without_type_or_body() {
    let mut m = sample_module();
    m.add_function(7);
    let fs = function_infos(&m);
    assert_eq!(
        fs[2],
        FunctionInfo { index: 2, type_index: 7, params: vec![], results: vec![], locals: 0, instructions: 0, has_type: false, has_body: false }
    );
}

#[test]
fn summary_check_and_parse_agree() {
    for text in ["AGFzbQEAAAA=", "AGFzbQIAAAA=", "AGFz", "%%%"] {
        let p = parse_base64_module(text);
        let v = validate_base64_module(text);
        assert_eq!(matches!(p, ParseReply::Parsed(_)), matches!(v, ValidateReply::Valid));
        assert_eq!(matches!(p, ParseReply::Base64Error(_)), matches!(v, ValidateReply::Base64Error(_)));
        if let (ParseReply::Invalid(e), ValidateReply::Invalid(f)) = (&p, &v) {
            assert_eq!(e, f);
        }
    }
}
