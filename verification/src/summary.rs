//! Summaries of a parsed module: its counts, imports, exports and
//! functions, as the command line tool and the web service report them.

use vstd::prelude::*;
use base64::Engine;
use vstd::utf8::encode_utf8;
use crate::ast::{Module, func_import_count};
use crate::decode::{parse_bytes, sp_parse};
use crate::ast::ModuleView;
use crate::error::WasmErrorView;
use crate::error::WasmError;
use crate::types::{ExternalKind, ValueType};

verus! {

#[verifier::external_type_specification]
#[verifier::external_body]
pub struct ExDecodeError(base64::DecodeError);

/// What the standard base64 alphabet with padding decodes the bytes to,
/// `None` where they are not valid base64.
pub uninterp spec fn base64_decoded(input: Seq<u8>) -> Option<Seq<u8>>;

/// `base64::engine::general_purpose::STANDARD.decode` of the UTF-8 bytes of
/// the text. Claimed of it: its result depends on those bytes alone, and is
/// an error exactly where `base64_decoded` is `None`. Which error it gives
/// is not stated.
#[verifier::external_body]
fn decode_base64(input: &str) -> (r: Result<Vec<u8>, base64::DecodeError>)
    ensures
        match r {
            Ok(bytes) => base64_decoded(encode_utf8(input@)) == Some(bytes@),
            Err(_) => base64_decoded(encode_utf8(input@)) is None,
        },
{
    base64::engine::general_purpose::STANDARD.decode(input)
}

/// The number of items of each kind in a module.
#[derive(Debug, Clone, Copy, PartialEq, Eq)]
pub struct ModuleInfo {
    pub functions: usize,
    pub types: usize,
    pub imports: usize,
    pub exports: usize,
    pub memories: usize,
    pub tables: usize,
    pub globals: usize,
    pub data_segments: usize,
    pub element_segments: usize,
}

/// An import, as reported.
#[derive(Debug, Clone, PartialEq)]
pub struct ImportInfo {
    pub module: String,
    pub name: String,
    pub kind: ExternalKind,
}

/// An export, as reported.
#[derive(Debug, Clone, PartialEq)]
pub struct ExportInfo {
    pub name: String,
    pub kind: ExternalKind,
    pub index: u32,
}

/// A function, as reported: its index, its type index and that type's
/// parameters and results, and the size of its body; whether the type and
/// the body were found.
#[derive(Debug, Clone, PartialEq)]
pub struct FunctionInfo {
    pub index: usize,
    pub type_index: u32,
    pub params: Vec<ValueType>,
    pub results: Vec<ValueType>,
    pub locals: usize,
    pub instructions: usize,
    pub has_type: bool,
    pub has_body: bool,
}

/// A module, as reported.
#[derive(Debug, Clone, PartialEq)]
pub struct ParsedModule {
    pub info: ModuleInfo,
    pub imports: Vec<ImportInfo>,
    pub exports: Vec<ExportInfo>,
    pub functions: Vec<FunctionInfo>,
}

/// The counts of a module's items.
pub fn module_info(m: &Module) -> (r: ModuleInfo)
    ensures
        r.functions == m.funcs@.len(),
        r.types == m.types@.len(),
        r.imports == m.imports@.len(),
        r.exports == m.exports@.len(),
        r.memories == m.memories@.len(),
        r.tables == m.tables@.len(),
        r.globals == m.globals@.len(),
        r.data_segments == m.data@.len(),
        r.element_segments == m.elements@.len(),
{
    ModuleInfo {
        functions: m.funcs.len(),
        types: m.types.len(),
        imports: m.imports.len(),
        exports: m.exports.len(),
        memories: m.memories.len(),
        tables: m.tables.len(),
        globals: m.globals.len(),
        data_segments: m.data.len(),
        element_segments: m.elements.len(),
    }
}

/// The imports of a module, as reported.
pub fn import_infos(m: &Module) -> (r: Vec<ImportInfo>)
    ensures
        r@.len() == m.imports@.len(),
        forall|k: int|
            0 <= k < r@.len() ==> #[trigger] r@[k].module@ == m.imports@[k].module@ && r@[k].name@
                == m.imports@[k].name@ && r@[k].kind == m.imports@[k].kind,
{
    let mut r: Vec<ImportInfo> = Vec::new();
    let mut k: usize = 0;
    while k < m.imports.len()
        invariant
            k <= m.imports@.len(),
            r@.len() == k,
            forall|j: int|
                0 <= j < k ==> #[trigger] r@[j].module@ == m.imports@[j].module@ && r@[j].name@
                    == m.imports@[j].name@ && r@[j].kind == m.imports@[j].kind,
        decreases m.imports@.len() - k,
    {
        let i = &m.imports[k];
        r.push(ImportInfo { module: i.module.clone(), name: i.name.clone(), kind: i.kind });
        k += 1;
    }
    r
}

/// The exports of a module, as reported.
pub fn export_infos(m: &Module) -> (r: Vec<ExportInfo>)
    ensures
        r@.len() == m.exports@.len(),
        forall|k: int|
            0 <= k < r@.len() ==> #[trigger] r@[k].name@ == m.exports@[k].name@ && r@[k].kind
                == m.exports@[k].kind && r@[k].index == m.exports@[k].idx,
{
    let mut r: Vec<ExportInfo> = Vec::new();
    let mut k: usize = 0;
    while k < m.exports.len()
        invariant
            k <= m.exports@.len(),
            r@.len() == k,
            forall|j: int|
                0 <= j < k ==> #[trigger] r@[j].name@ == m.exports@[j].name@ && r@[j].kind
                    == m.exports@[j].kind && r@[j].index == m.exports@[j].idx,
        decreases m.exports@.len() - k,
    {
        let e = &m.exports[k];
        r.push(ExportInfo { name: e.name.clone(), kind: e.kind, index: e.idx });
        k += 1;
    }
    r
}

/// The number of imported functions, counted in full.
fn imported_function_count(m: &Module) -> (r: usize)
    ensures
        r == func_import_count(m.imports@),
{
    let mut count: usize = 0;
    let mut i: usize = 0;
    while i < m.imports.len()
        invariant
            i <= m.imports@.len(),
            count == func_import_count(m.imports@.subrange(0, i as int)),
            count <= i,
        decreases m.imports@.len() - i,
    {
        proof {
            let s = m.imports@.subrange(0, i as int + 1);
            assert(s.drop_last() =~= m.imports@.subrange(0, i as int));
        }
        if m.imports[i].kind == ExternalKind::Func {
            count += 1;
        }
        i += 1;
    }
    proof {
        assert(m.imports@.subrange(0, i as int) =~= m.imports@);
    }
    count
}

/// A copy of a list of value types.
fn copy_value_types(ts: &Vec<ValueType>) -> (r: Vec<ValueType>)
    ensures
        r@ == ts@,
{
    let mut r: Vec<ValueType> = Vec::new();
    let mut k: usize = 0;
    while k < ts.len()
        invariant
            k <= ts@.len(),
            r@ == ts@.subrange(0, k as int),
        decreases ts@.len() - k,
    {
        r.push(ts[k]);
        assert(r@ =~= ts@.subrange(0, k as int + 1));
        k += 1;
    }
    assert(ts@.subrange(0, k as int) =~= ts@);
    r
}

/// The report of function `idx`, whose type index is `type_idx`: the
/// parameters and results of that type where there is one (none else), and
/// the locals and instructions of the body at `idx` less the imported
/// functions (at least 0) where there is one (0 else).
pub open spec fn function_info_ok(m: Module, idx: int, f: FunctionInfo) -> bool {
    let type_idx = m.funcs@[idx];
    let code_idx = if idx >= func_import_count(m.imports@) { idx - func_import_count(m.imports@) } else { 0 };
    &&& f.index == idx
    &&& f.type_index == type_idx
    &&& f.has_type == (type_idx < m.types@.len())
    &&& f.has_body == (code_idx < m.code@.len())
    &&& (type_idx < m.types@.len() ==> f.params@ == m.types@[type_idx as int].params@ && f.results@
        == m.types@[type_idx as int].results@)
    &&& (type_idx >= m.types@.len() ==> f.params@.len() == 0 && f.results@.len() == 0)
    &&& (code_idx < m.code@.len() ==> f.locals == m.code@[code_idx].locals@.len() && f.instructions
        == m.code@[code_idx].instructions@.len())
    &&& (code_idx >= m.code@.len() ==> f.locals == 0 && f.instructions == 0)
}

/// The functions of a module, as reported.
pub fn function_infos(m: &Module) -> (r: Vec<FunctionInfo>)
    ensures
        r@.len() == m.funcs@.len(),
        forall|k: int| 0 <= k < r@.len() ==> #[trigger] function_info_ok(*m, k, r@[k]),
{
    let import_count = imported_function_count(m);
    let mut r: Vec<FunctionInfo> = Vec::new();
    let mut idx: usize = 0;
    while idx < m.funcs.len()
        invariant
            idx <= m.funcs@.len(),
            import_count == func_import_count(m.imports@),
            r@.len() == idx,
            forall|j: int| 0 <= j < idx ==> #[trigger] function_info_ok(*m, j, r@[j]),
        decreases m.funcs@.len() - idx,
    {
        let type_idx = m.funcs[idx];
        let has_type = (type_idx as usize) < m.types.len();
        let (params, results) = if has_type {
            let t = &m.types[type_idx as usize];
            (copy_value_types(&t.params), copy_value_types(&t.results))
        } else {
            (Vec::new(), Vec::new())
        };
        let code_idx = idx.saturating_sub(import_count);
        let has_body = code_idx < m.code.len();
        let (locals, instructions) = if has_body {
            (m.code[code_idx].locals.len(), m.code[code_idx].instructions.len())
        } else {
            (0, 0)
        };
        let f = FunctionInfo { index: idx, type_index: type_idx, params, results, locals, instructions, has_type, has_body };
        assert(function_info_ok(*m, idx as int, f));
        r.push(f);
        idx += 1;
    }
    r
}

/// `r` is the report of module `m`: its counts, its imports and exports
/// one for one, and its functions as `function_info_ok` says.
pub open spec fn reports(m: Module, r: ParsedModule) -> bool {
    &&& r.info == module_info_spec(m)
    &&& r.imports@.len() == m.imports@.len()
    &&& forall|k: int|
        0 <= k < r.imports@.len() ==> #[trigger] r.imports@[k].module@ == m.imports@[k].module@
            && r.imports@[k].name@ == m.imports@[k].name@ && r.imports@[k].kind == m.imports@[k].kind
    &&& r.exports@.len() == m.exports@.len()
    &&& forall|k: int|
        0 <= k < r.exports@.len() ==> #[trigger] r.exports@[k].name@ == m.exports@[k].name@
            && r.exports@[k].kind == m.exports@[k].kind && r.exports@[k].index == m.exports@[k].idx
    &&& r.functions@.len() == m.funcs@.len()
    &&& forall|k: int| 0 <= k < r.functions@.len() ==> #[trigger] function_info_ok(m, k, r.functions@[k])
}

/// The report of a module.
pub fn summarize(m: &Module) -> (r: ParsedModule)
    ensures
        reports(*m, r),
{
    ParsedModule {
        info: module_info(m),
        imports: import_infos(m),
        exports: export_infos(m),
        functions: function_infos(m),
    }
}

/// The counts of a module's items.
pub open spec fn module_info_spec(m: Module) -> ModuleInfo {
    ModuleInfo {
        functions: m.funcs@.len() as usize,
        types: m.types@.len() as usize,
        imports: m.imports@.len() as usize,
        exports: m.exports@.len() as usize,
        memories: m.memories@.len() as usize,
        tables: m.tables@.len() as usize,
        globals: m.globals@.len() as usize,
        data_segments: m.data@.len() as usize,
        element_segments: m.elements@.len() as usize,
    }
}

/// The reply to a request to parse a module sent as base64 text.
#[derive(Debug)]
pub enum ParseReply {
    /// The text is not valid base64.
    Base64Error(base64::DecodeError),
    /// The bytes are not a module the parser reads.
    Invalid(WasmError),
    /// The report of the module.
    Parsed(ParsedModule),
}

/// The reply to a request to check a module sent as base64 text.
#[derive(Debug)]
pub enum ValidateReply {
    /// The text is not valid base64.
    Base64Error(base64::DecodeError),
    /// The bytes are not a module the parser reads.
    Invalid(WasmError),
    /// The bytes are a module the parser reads.
    Valid,
}

/// The reply to the bytes that base64 text decodes to: the error where
/// they do not parse, else the report of the module they parse to.
pub open spec fn parse_reply_for(bytes: Seq<u8>, r: ParseReply) -> bool {
    &&& !(r is Base64Error)
    &&& r matches ParseReply::Invalid(e) ==> sp_parse(bytes) == Err::<ModuleView, WasmErrorView>(e@)
    &&& r is Parsed ==> exists|m: Module|
        sp_parse(bytes) == Ok::<ModuleView, WasmErrorView>(m@) && #[trigger] reports(m, r->Parsed_0)
}

/// Decode base64 text, parse the module it holds, and report it.
pub fn parse_base64_module(wasm: &str) -> (r: ParseReply)
    ensures
        base64_decoded(encode_utf8(wasm@)) is None <==> r is Base64Error,
        base64_decoded(encode_utf8(wasm@)) is Some ==> parse_reply_for(base64_decoded(encode_utf8(wasm@))->0, r),
{
    let bytes = match decode_base64(wasm) {
        Ok(b) => b,
        Err(e) => return ParseReply::Base64Error(e),
    };
    match parse_bytes(bytes.as_slice()) {
        Ok(module) => {
            let report = summarize(&module);
            let r = ParseReply::Parsed(report);
            assert(reports(module, r->Parsed_0));
            r
        },
        Err(e) => ParseReply::Invalid(e),
    }
}

/// The reply to the bytes that base64 text decodes to: the error where
/// they do not parse, else that they do.
pub open spec fn validate_reply_for(bytes: Seq<u8>, r: ValidateReply) -> bool {
    match r {
        ValidateReply::Invalid(e) => sp_parse(bytes) == Err::<ModuleView, WasmErrorView>(e@),
        ValidateReply::Valid => sp_parse(bytes) is Ok,
        ValidateReply::Base64Error(_) => false,
    }
}

/// Decode base64 text and check that it holds a module the parser reads.
pub fn validate_base64_module(wasm: &str) -> (r: ValidateReply)
    ensures
        base64_decoded(encode_utf8(wasm@)) is None <==> r is Base64Error,
        base64_decoded(encode_utf8(wasm@)) is Some ==> validate_reply_for(
            base64_decoded(encode_utf8(wasm@))->0,
            r,
        ),
{
    let bytes = match decode_base64(wasm) {
        Ok(b) => b,
        Err(e) => return ValidateReply::Base64Error(e),
    };
    match parse_bytes(bytes.as_slice()) {
        Ok(_) => ValidateReply::Valid,
        Err(e) => ValidateReply::Invalid(e),
    }
}

/// Checking a module sent as base64 text and parsing it agree: both reject
/// text that is not base64; the check passes exactly where the parse gives
/// a report; and where the parse fails, the check fails with the same error.
pub proof fn lemma_validate_agrees_with_parse(text: Seq<char>, p: ParseReply, v: ValidateReply)
    requires
        base64_decoded(encode_utf8(text)) is None <==> p is Base64Error,
        base64_decoded(encode_utf8(text)) is Some ==> parse_reply_for(base64_decoded(encode_utf8(text))->0, p),
        base64_decoded(encode_utf8(text)) is None <==> v is Base64Error,
        base64_decoded(encode_utf8(text)) is Some ==> validate_reply_for(base64_decoded(encode_utf8(text))->0, v),
    ensures
        p is Base64Error <==> v is Base64Error,
        p is Parsed <==> v is Valid,
        p matches ParseReply::Invalid(e) ==> (v matches ValidateReply::Invalid(f) && e@ == f@),
{
}

/// The total number of bytes of a list of data segments.
pub open spec fn data_total(ds: Seq<crate::ast::DataSegment>) -> nat
    decreases ds.len(),
{
    if ds.len() == 0 {
        0
    } else {
        data_total(ds.drop_last()) + ds.last().data@.len()
    }
}

/// Adding a data segment, whatever its mode, adds its bytes to the total.
pub proof fn lemma_data_total_push(ds: Seq<crate::ast::DataSegment>, d: crate::ast::DataSegment)
    ensures
        data_total(ds.push(d)) == data_total(ds) + d.data@.len(),
{
    assert(ds.push(d).drop_last() =~= ds);
}

/// The total of two lists of data segments, one after the other, is the sum
/// of their totals; the total of no segments is 0.
pub proof fn lemma_data_total_concat(a: Seq<crate::ast::DataSegment>, b: Seq<crate::ast::DataSegment>)
    ensures
        data_total(a + b) == data_total(a) + data_total(b),
        data_total(Seq::<crate::ast::DataSegment>::empty()) == 0,
    decreases b.len(),
{
    if b.len() > 0 {
        lemma_data_total_concat(a, b.drop_last());
        assert((a + b).drop_last() =~= a + b.drop_last());
        assert((a + b).last() == b.last());
    } else {
        assert(a + b =~= a);
    }
}

/// The total number of bytes of the data segments, `None` where it does not
/// fit in a `usize`.
pub fn data_size(m: &Module) -> (r: Option<usize>)
    ensures
        match r {
            Some(n) => n == data_total(m.data@),
            None => data_total(m.data@) > usize::MAX,
        },
{
    let mut total: usize = 0;
    let mut i: usize = 0;
    while i < m.data.len()
        invariant
            i <= m.data@.len(),
            total == data_total(m.data@.subrange(0, i as int)),
        decreases m.data@.len() - i,
    {
        proof {
            assert(m.data@.subrange(0, i as int + 1).drop_last() =~= m.data@.subrange(0, i as int));
        }
        match total.checked_add(m.data[i].data.len()) {
            Some(t) => total = t,
            None => {
                proof {
                    lemma_data_total_grows(m.data@, i as int + 1);
                }
                return None;
            },
        }
        i += 1;
    }
    proof {
        assert(m.data@.subrange(0, i as int) =~= m.data@);
    }
    Some(total)
}

/// The total of a prefix is at most that of the whole.
proof fn lemma_data_total_grows(ds: Seq<crate::ast::DataSegment>, k: int)
    requires
        0 <= k <= ds.len(),
    ensures
        data_total(ds.subrange(0, k)) <= data_total(ds),
    decreases ds.len() - k,
{
    if k < ds.len() {
        lemma_data_total_grows(ds, k + 1);
        assert(ds.subrange(0, k + 1).drop_last() =~= ds.subrange(0, k));
    } else {
        assert(ds.subrange(0, k) =~= ds);
    }
}

} // verus!
