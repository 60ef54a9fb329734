//! What the decoder reads back of what the encoder writes.
//!
//! The central fact: a module whose instructions the encoder and the
//! decoder both handle, and whose encoding fits the 32-bit sizes of the
//! format, is parsed back from its encoding as it was.

use vstd::prelude::*;
use vstd::utf8::{decode_utf8, encode_utf8, encode_utf8_decode_utf8, encode_utf8_valid_utf8, valid_utf8};
use crate::decode_instructions::{reserved_nop, sp_nonblock};
use crate::decode::{
    SpecResult, prepend, sp_block_type, sp_bytes, sp_leb_i32, sp_leb_i64, sp_leb_u32, sp_limits, sp_mem_arg, sp_name,
    sp_instr, sp_leaf_instr, sp_instrs, sp_single, sp_u32_le, sp_u32_list, sp_u64_le, sp_u8, sp_until_end, sp_if_branches, sp_value_type,
    le_u32, le_u64, text_of, advanced, sp_value_types, sp_func_type, sp_external_kind, sp_import, sp_export,
    sp_table, sp_memory, sp_local, sp_global, sp_locals, sp_element, sp_data_segment, sp_body, sp_func_types,
    sp_imports, sp_tables, sp_memories, sp_exports, sp_globals, sp_elements, sp_bodies, sp_data_segments,
    sp_type_section, sp_import_section, sp_func_section, sp_table_section, sp_memory_section, sp_global_section,
    sp_export_section, sp_start_section, sp_element_section, sp_datacount_section, sp_code_section,
    sp_data_section, sp_custom_section, sp_section, sp_sections, apply_section, sp_module, sp_parse,
    sp_fixed4, wasm_magic, wasm_version,
};
use crate::encode::{
    enc_block_type, enc_limits, enc_mem_arg, enc_name, le_bytes_u32, le_bytes_u64, leb_i32, leb_i64,
    leb_list, leb_u32, limits_flags, leaf_bytes, enc_instr, enc_instrs, open, lemma_enc_instrs_end, chain, after, enc_value_types,
    enc_func_type, enc_func_types, enc_import, enc_imports, enc_table, enc_tables, enc_memories, enc_export,
    enc_exports, enc_local, enc_locals, enc_custom, enc_customs, count_bytes, enc_global, enc_body_content,
    enc_body, enc_element, enc_data_segment, emit_globals, emit_elements, emit_bodies, emit_data, section,
    optional, optional_bytes, section_emitted, enc_leading, enc_middle, enc_trailing, enc_module,
};
use crate::error::WasmErrorView;
use crate::value::encoding::lemma_le_u32_roundtrip;
use crate::{SectionId, section_id_of_byte};
use crate::instruction::{
    Instruction, InstrView, MemArg, op_of, opcode_byte, lemma_numeric_instr_matches_opcodes,
    lemma_memory_instr_matches_opcodes,
};
use crate::ast::{
    CustomSectionView, DataModeView, DataSegmentView, ElementModeView, ElementSegmentView, ExportView,
    FunctionBodyView, GlobalView, ImportView, Local, ModuleView, empty_module_view,
};
use crate::leb128::{
    lemma_i32_roundtrip, lemma_i64_roundtrip, lemma_u32_roundtrip, lemma_u32_encoding_len, spec_encode_signed, spec_encode_unsigned,
};
use crate::types::{
    BlockType, FuncTypeView, Limits, MemType, TableType, ValueType, block_type_of_i64, block_type_value, lemma_block_type_roundtrip,
    lemma_value_type_byte_roundtrip, value_type_byte, ExternalKind, external_kind_byte,
    lemma_external_kind_roundtrip,
};

verus! {

/// The bytes `e` stand at position `p` of `s`.
pub open spec fn at(s: Seq<u8>, p: int, e: Seq<u8>) -> bool {
    0 <= p && p + e.len() <= s.len() && s.subrange(p, p + e.len()) == e
}

/// Bytes that stand at a position are their two parts, one after the other.
pub proof fn lemma_at_split(s: Seq<u8>, p: int, a: Seq<u8>, b: Seq<u8>)
    requires
        at(s, p, a + b),
    ensures
        at(s, p, a),
        at(s, p + a.len(), b),
{
    assert(s.subrange(p, p + a.len()) =~= (a + b).subrange(0, a.len() as int));
    assert(s.subrange(p + a.len(), p + a.len() + b.len()) =~= (a + b).subrange(a.len() as int, (a + b).len() as int));
    assert((a + b).subrange(0, a.len() as int) =~= a);
    assert((a + b).subrange(a.len() as int, (a + b).len() as int) =~= b);
}

/// What follows position `p + e.len()`, where `e` stands at `p`.
proof fn lemma_at_rest(s: Seq<u8>, p: int, e: Seq<u8>)
    requires
        at(s, p, e),
    ensures
        s.subrange(p, s.len() as int) == e + s.subrange(p + e.len(), s.len() as int),
{
    assert(s.subrange(p, s.len() as int) =~= e + s.subrange(p + e.len(), s.len() as int));
}

pub proof fn lemma_read_u8(s: Seq<u8>, p: int, b: u8)
    requires
        at(s, p, seq![b]),
    ensures
        sp_u8(s, p) == Ok::<(u8, int), WasmErrorView>((b, p + 1)),
{
    assert(s.subrange(p, p + 1)[0] == s[p]);
}

#[verifier::spinoff_prover]
pub proof fn lemma_read_bytes(s: Seq<u8>, p: int, b: Seq<u8>)
    requires
        at(s, p, b),
    ensures
        sp_bytes(s, p, b.len() as int) == Ok::<(Seq<u8>, int), WasmErrorView>((b, p + b.len())),
{
}

pub proof fn lemma_read_leb_u32(s: Seq<u8>, p: int, v: u32)
    requires
        at(s, p, leb_u32(v)),
    ensures
        sp_leb_u32(s, p) == Ok::<(u32, int), WasmErrorView>((v, p + leb_u32(v).len())),
{
    let e = leb_u32(v);
    lemma_at_rest(s, p, e);
    lemma_u32_roundtrip(v, s.subrange(p + e.len(), s.len() as int));
}

pub proof fn lemma_read_leb_i32(s: Seq<u8>, p: int, v: i32)
    requires
        at(s, p, leb_i32(v)),
    ensures
        sp_leb_i32(s, p) == Ok::<(i32, int), WasmErrorView>((v, p + leb_i32(v).len())),
{
    let e = leb_i32(v);
    lemma_at_rest(s, p, e);
    lemma_i32_roundtrip(v, s.subrange(p + e.len(), s.len() as int));
}

pub proof fn lemma_read_leb_i64(s: Seq<u8>, p: int, v: i64)
    requires
        at(s, p, leb_i64(v)),
    ensures
        sp_leb_i64(s, p) == Ok::<(i64, int), WasmErrorView>((v, p + leb_i64(v).len())),
{
    let e = leb_i64(v);
    lemma_at_rest(s, p, e);
    lemma_i64_roundtrip(v, s.subrange(p + e.len(), s.len() as int));
}

pub proof fn lemma_read_u32_le(s: Seq<u8>, p: int, v: u32)
    requires
        at(s, p, le_bytes_u32(v)),
    ensures
        sp_u32_le(s, p) == Ok::<(u32, int), WasmErrorView>((v, p + 4)),
{
    lemma_le_u32_roundtrip(v);
}

pub proof fn lemma_read_u64_le(s: Seq<u8>, p: int, v: u64)
    requires
        at(s, p, le_bytes_u64(v)),
    ensures
        sp_u64_le(s, p) == Ok::<(u64, int), WasmErrorView>((v, p + 8)),
{
    let lo = (v % 0x1_0000_0000) as u32;
    let hi = (v / 0x1_0000_0000) as u32;
    lemma_le_u32_roundtrip(lo);
    lemma_le_u32_roundtrip(hi);
    let b = le_bytes_u64(v);
    assert(b.subrange(0, 4) =~= le_bytes_u32(lo));
    assert(b.subrange(4, 8) =~= le_bytes_u32(hi));
    assert(le_u32(b) == le_u32(b.subrange(0, 4)));
    assert(lo + 0x1_0000_0000 * hi == v) by (nonlinear_arith)
        requires
            lo == v % 0x1_0000_0000,
            hi == v / 0x1_0000_0000,
    ;
}

pub proof fn lemma_read_name(s: Seq<u8>, p: int, name: Seq<char>)
    requires
        at(s, p, enc_name(name)),
        encode_utf8(name).len() <= u32::MAX,
    ensures
        sp_name(s, p) == Ok::<(Seq<char>, int), WasmErrorView>((name, p + enc_name(name).len())),
{
    let b = encode_utf8(name);
    let n = b.len() as u32;
    lemma_at_split(s, p, leb_u32(n), b);
    lemma_read_leb_u32(s, p, n);
    lemma_read_bytes(s, p + leb_u32(n).len(), b);
    encode_utf8_valid_utf8(name);
    encode_utf8_decode_utf8(name);
}

pub proof fn lemma_read_value_type(s: Seq<u8>, p: int, t: ValueType)
    requires
        at(s, p, seq![value_type_byte(t)]),
    ensures
        sp_value_type(s, p) == Ok::<(ValueType, int), WasmErrorView>((t, p + 1)),
{
    lemma_read_u8(s, p, value_type_byte(t));
    lemma_value_type_byte_roundtrip(t);
}

/// Reading back the bytes that the encoder writes for limits gives the same
/// limits, and reads all those bytes.
pub proof fn lemma_limits_roundtrip(l: Limits)
    ensures
        sp_limits(enc_limits(l), 0) == Ok::<(Limits, int), WasmErrorView>((l, enc_limits(l).len() as int)),
{
    let s = enc_limits(l);
    assert(s.subrange(0, s.len() as int) =~= s);
    lemma_read_limits(s, 0, l);
}

#[verifier::spinoff_prover]
pub proof fn lemma_read_limits(s: Seq<u8>, p: int, l: Limits)
    requires
        at(s, p, enc_limits(l)),
    ensures
        sp_limits(s, p) == Ok::<(Limits, int), WasmErrorView>((l, p + enc_limits(l).len())),
{
    let f = limits_flags(l);
    let rest = match l.max {
        Some(max) => leb_u32(max),
        None => Seq::empty(),
    };
    assert(enc_limits(l) == seq![f] + leb_u32(l.min) + rest);
    lemma_at_split(s, p, seq![f] + leb_u32(l.min), rest);
    lemma_at_split(s, p, seq![f], leb_u32(l.min));
    lemma_read_u8(s, p, f);
    lemma_read_leb_u32(s, p + 1, l.min);
    let a: u8 = if l.max is Some { 0x01u8 } else { 0u8 };
    let b: u8 = if l.shared { 0x02u8 } else { 0u8 };
    let c: u8 = if l.memory64 { 0x04u8 } else { 0u8 };
    assert(f == (a | b) | c);
    assert((a == 0 || a == 1) && (b == 0 || b == 2) && (c == 0 || c == 4) ==> ((((a | b) | c) & 0x01 != 0)
        == (a == 1) && (((a | b) | c) & 0x02 != 0) == (b == 2) && (((a | b) | c) & 0x04 != 0) == (c == 4)))
        by (bit_vector);
    if let Some(max) = l.max {
        lemma_read_leb_u32(s, p + 1 + leb_u32(l.min).len(), max);
    }
}

/// A block type reads back where a type index fits in 32 bits.
pub open spec fn block_type_ok(bt: BlockType) -> bool {
    match bt {
        BlockType::TypeIndex(x) => 0 <= x <= i32::MAX,
        _ => true,
    }
}

pub proof fn lemma_read_block_type(s: Seq<u8>, p: int, bt: BlockType)
    requires
        at(s, p, enc_block_type(bt)),
        block_type_ok(bt),
    ensures
        sp_block_type(s, p) == Ok::<(BlockType, int), WasmErrorView>((bt, p + enc_block_type(bt).len())),
{
    let v = block_type_value(bt);
    assert(-64 <= v <= i32::MAX);
    lemma_read_leb_i32(s, p, v as i32);
    lemma_block_type_roundtrip(bt);
}

pub proof fn lemma_read_mem_arg(s: Seq<u8>, p: int, m: MemArg)
    requires
        at(s, p, enc_mem_arg(m)),
    ensures
        sp_mem_arg(s, p) == Ok::<(MemArg, int), WasmErrorView>((m, p + enc_mem_arg(m).len())),
{
    lemma_at_split(s, p, leb_u32(m.align), leb_u32(m.offset));
    lemma_read_leb_u32(s, p, m.align);
    lemma_read_leb_u32(s, p + leb_u32(m.align).len(), m.offset);
}

pub proof fn lemma_read_u32_list(s: Seq<u8>, p: int, xs: Seq<u32>)
    requires
        at(s, p, leb_list(xs)),
    ensures
        sp_u32_list(s, p, xs.len()) == Ok::<(Seq<u32>, int), WasmErrorView>((xs, p + leb_list(xs).len())),
    decreases xs.len(),
{
    if xs.len() > 0 {
        // leb_list is built from the back; read the front by splitting it off.
        lemma_leb_list_front(xs);
        let rest = xs.subrange(1, xs.len() as int);
        lemma_at_split(s, p, leb_u32(xs[0]), leb_list(rest));
        lemma_read_leb_u32(s, p, xs[0]);
        lemma_read_u32_list(s, p + leb_u32(xs[0]).len(), rest);
        assert(seq![xs[0]] + rest =~= xs);
        assert(sp_u32_list(s, p, xs.len()) == prepend(seq![xs[0]], sp_u32_list(s, p + leb_u32(xs[0]).len(), rest.len())));
    } else {
        assert(xs =~= Seq::<u32>::empty());
    }
}

/// The bytes of a list of numbers are those of the first, then those of
/// the rest.
pub proof fn lemma_leb_list_front(xs: Seq<u32>)
    requires
        xs.len() > 0,
    ensures
        leb_list(xs) == leb_u32(xs[0]) + leb_list(xs.subrange(1, xs.len() as int)),
    decreases xs.len(),
{
    let rest = xs.subrange(1, xs.len() as int);
    if xs.len() == 1 {
        assert(xs.drop_last() =~= Seq::<u32>::empty());
        assert(rest =~= Seq::<u32>::empty());
        assert(leb_u32(xs[0]) + Seq::<u8>::empty() =~= leb_u32(xs[0]));
    } else {
        let init = xs.drop_last();
        lemma_leb_list_front(init);
        assert(init.subrange(1, init.len() as int) =~= rest.drop_last());
        assert(rest.last() == xs.last());
        assert(leb_u32(xs[0]) + leb_list(rest.drop_last()) + leb_u32(xs.last()) =~= leb_u32(xs[0]) + (leb_list(
            rest.drop_last(),
        ) + leb_u32(xs.last())));
    }
}

// ---------------------------------------------------------------------------
// Instructions.

/// An instruction holding no others that the encoder writes and that the
/// decoder reads back: every one with an encoding but `end`, which would
/// close its expression.
pub open spec fn leaf_ok(x: Instruction) -> bool {
    leaf_bytes(x) is Some && !(x is End)
}

/// An instruction that reads back where it stands: an instruction with an
/// encoding, or a block, loop or if whose instructions read back.
pub open spec fn nested_ok(i: InstrView) -> bool
    decreases i,
{
    match i {
        InstrView::Leaf(x) => leaf_ok(x),
        InstrView::Block { block_type, body } => block_type_ok(block_type) && all_nested_ok(body),
        InstrView::Loop { block_type, body } => block_type_ok(block_type) && all_nested_ok(body),
        InstrView::If { block_type, then_branch, else_branch } => block_type_ok(block_type) && all_nested_ok(
            then_branch,
        ) && all_nested_ok(else_branch),
        InstrView::BrTable { labels, .. } => labels.len() <= u32::MAX,
        _ => false,
    }
}

/// Every instruction of a block body reads back.
pub open spec fn all_nested_ok(s: Seq<InstrView>) -> bool
    decreases s,
{
    if s.len() == 0 {
        true
    } else {
        nested_ok(s[0]) && all_nested_ok(s.subrange(1, s.len() as int))
    }
}

/// An instruction at the top of an expression that reads back.
pub open spec fn top_ok(i: InstrView) -> bool {
    nested_ok(i)
}

/// Every instruction of an expression reads back.
pub open spec fn all_top_ok(s: Seq<InstrView>) -> bool {
    forall|k: int| 0 <= k < s.len() ==> #[trigger] top_ok(s[k])
}

/// The first byte of bytes standing at a position is read there.
proof fn lemma_read_first(s: Seq<u8>, p: int, e: Seq<u8>)
    requires
        at(s, p, e),
        e.len() > 0,
    ensures
        sp_u8(s, p) == Ok::<(u8, int), WasmErrorView>((e[0], p + 1)),
{
    assert(s.subrange(p, p + e.len())[0] == s[p]);
}

proof fn lemma_read_leaf_control(s: Seq<u8>, p: int, x: Instruction)
    requires
        x is Unreachable || x is Nop || x is Return || x is Drop || x is Select || x is Br || x is BrIf || x is Call || x is CallIndirect,
        at(s, p, leaf_bytes(x)->0),
    ensures
        leaf_bytes(x)->0.len() >= 1,
        leaf_bytes(x)->0[0] != 0x0b,
        sp_u8(s, p) == Ok::<(u8, int), WasmErrorView>((leaf_bytes(x)->0[0], p + 1)),
        sp_instr(s, p + 1, leaf_bytes(x)->0[0]) == Ok::<(InstrView, int), WasmErrorView>(
            (InstrView::Leaf(x), p + leaf_bytes(x)->0.len()),
        ),
{
    let e = leaf_bytes(x)->0;
    lemma_read_first(s, p, e);
    match x {
        Instruction::Br { label_idx } => {
            lemma_at_split(s, p, seq![0x0cu8], leb_u32(label_idx));
            lemma_read_leb_u32(s, p + 1, label_idx);
        },
        Instruction::BrIf { label_idx } => {
            lemma_at_split(s, p, seq![0x0du8], leb_u32(label_idx));
            lemma_read_leb_u32(s, p + 1, label_idx);
        },
        Instruction::Call { function_idx } => {
            lemma_at_split(s, p, seq![0x10u8], leb_u32(function_idx));
            lemma_read_leb_u32(s, p + 1, function_idx);
        },
        Instruction::CallIndirect { type_idx, table_idx } => {
            lemma_at_split(s, p, seq![0x11u8] + leb_u32(type_idx), leb_u32(table_idx));
            lemma_at_split(s, p, seq![0x11u8], leb_u32(type_idx));
            lemma_read_leb_u32(s, p + 1, type_idx);
            lemma_read_leb_u32(s, p + 1 + leb_u32(type_idx).len(), table_idx);
        },
        _ => {},
    }
}

proof fn lemma_read_leaf_variable(s: Seq<u8>, p: int, x: Instruction)
    requires
        x is LocalGet || x is LocalSet || x is LocalTee || x is GlobalGet || x is GlobalSet,
        at(s, p, leaf_bytes(x)->0),
    ensures
        leaf_bytes(x)->0.len() >= 1,
        leaf_bytes(x)->0[0] != 0x0b,
        sp_u8(s, p) == Ok::<(u8, int), WasmErrorView>((leaf_bytes(x)->0[0], p + 1)),
        sp_instr(s, p + 1, leaf_bytes(x)->0[0]) == Ok::<(InstrView, int), WasmErrorView>(
            (InstrView::Leaf(x), p + leaf_bytes(x)->0.len()),
        ),
{
    let e = leaf_bytes(x)->0;
    lemma_read_first(s, p, e);
    match x {
        Instruction::LocalGet { local_idx } => {
            lemma_at_split(s, p, seq![0x20u8], leb_u32(local_idx));
            lemma_read_leb_u32(s, p + 1, local_idx);
        },
        Instruction::LocalSet { local_idx } => {
            lemma_at_split(s, p, seq![0x21u8], leb_u32(local_idx));
            lemma_read_leb_u32(s, p + 1, local_idx);
        },
        Instruction::LocalTee { local_idx } => {
            lemma_at_split(s, p, seq![0x22u8], leb_u32(local_idx));
            lemma_read_leb_u32(s, p + 1, local_idx);
        },
        Instruction::GlobalGet { global_idx } => {
            lemma_at_split(s, p, seq![0x23u8], leb_u32(global_idx));
            lemma_read_leb_u32(s, p + 1, global_idx);
        },
        Instruction::GlobalSet { global_idx } => {
            lemma_at_split(s, p, seq![0x24u8], leb_u32(global_idx));
            lemma_read_leb_u32(s, p + 1, global_idx);
        },
        _ => {},
    }
}

proof fn lemma_read_leaf_memory(s: Seq<u8>, p: int, x: Instruction)
    requires
        x is I32Load || x is I64Load || x is F32Load || x is F64Load,
        at(s, p, leaf_bytes(x)->0),
    ensures
        leaf_bytes(x)->0.len() >= 1,
        leaf_bytes(x)->0[0] != 0x0b,
        sp_u8(s, p) == Ok::<(u8, int), WasmErrorView>((leaf_bytes(x)->0[0], p + 1)),
        sp_instr(s, p + 1, leaf_bytes(x)->0[0]) == Ok::<(InstrView, int), WasmErrorView>(
            (InstrView::Leaf(x), p + leaf_bytes(x)->0.len()),
        ),
{
    let e = leaf_bytes(x)->0;
    lemma_read_first(s, p, e);
    match x {
        Instruction::I32Load { mem_arg } => {
            lemma_at_split(s, p, seq![0x28u8], enc_mem_arg(mem_arg));
            lemma_read_mem_arg(s, p + 1, mem_arg);
        },
        Instruction::I64Load { mem_arg } => {
            lemma_at_split(s, p, seq![0x29u8], enc_mem_arg(mem_arg));
            lemma_read_mem_arg(s, p + 1, mem_arg);
        },
        Instruction::F32Load { mem_arg } => {
            lemma_at_split(s, p, seq![0x2au8], enc_mem_arg(mem_arg));
            lemma_read_mem_arg(s, p + 1, mem_arg);
        },
        Instruction::F64Load { mem_arg } => {
            lemma_at_split(s, p, seq![0x2bu8], enc_mem_arg(mem_arg));
            lemma_read_mem_arg(s, p + 1, mem_arg);
        },
        _ => {},
    }
}

proof fn lemma_read_leaf_const(s: Seq<u8>, p: int, x: Instruction)
    requires
        x is I32Const || x is I64Const || x is F32Const || x is F64Const,
        at(s, p, leaf_bytes(x)->0),
    ensures
        leaf_bytes(x)->0.len() >= 1,
        leaf_bytes(x)->0[0] != 0x0b,
        sp_u8(s, p) == Ok::<(u8, int), WasmErrorView>((leaf_bytes(x)->0[0], p + 1)),
        sp_instr(s, p + 1, leaf_bytes(x)->0[0]) == Ok::<(InstrView, int), WasmErrorView>(
            (InstrView::Leaf(x), p + leaf_bytes(x)->0.len()),
        ),
{
    let e = leaf_bytes(x)->0;
    lemma_read_first(s, p, e);
    match x {
        Instruction::I32Const { value } => {
            lemma_at_split(s, p, seq![0x41u8], leb_i32(value));
            lemma_read_leb_i32(s, p + 1, value);
        },
        Instruction::I64Const { value } => {
            lemma_at_split(s, p, seq![0x42u8], leb_i64(value));
            lemma_read_leb_i64(s, p + 1, value);
        },
        Instruction::F32Const { bits } => {
            lemma_at_split(s, p, seq![0x43u8], le_bytes_u32(bits));
            lemma_read_u32_le(s, p + 1, bits);
        },
        Instruction::F64Const { bits } => {
            lemma_at_split(s, p, seq![0x44u8], le_bytes_u64(bits));
            lemma_read_u64_le(s, p + 1, bits);
        },
        _ => {},
    }
}

proof fn lemma_read_leaf_numeric(s: Seq<u8>, p: int, x: Instruction)
    requires
        x is I32Eqz || x is I32Eq || x is I32Ne || x is I32Add || x is I32Sub || x is I32Mul || x is I32DivS || x is I32DivU || x is I64Add || x is I64Sub || x is I64Mul || x is I32WrapI64 || x is I64ExtendI32S || x is I64ExtendI32U,
        at(s, p, leaf_bytes(x)->0),
    ensures
        leaf_bytes(x)->0.len() >= 1,
        leaf_bytes(x)->0[0] != 0x0b,
        sp_u8(s, p) == Ok::<(u8, int), WasmErrorView>((leaf_bytes(x)->0[0], p + 1)),
        sp_instr(s, p + 1, leaf_bytes(x)->0[0]) == Ok::<(InstrView, int), WasmErrorView>(
            (InstrView::Leaf(x), p + leaf_bytes(x)->0.len()),
        ),
{
    let e = leaf_bytes(x)->0;
    lemma_read_first(s, p, e);
}

proof fn lemma_read_leaf_reference(s: Seq<u8>, p: int, x: Instruction)
    requires
        x is RefNull || x is RefIsNull || x is RefFunc,
        at(s, p, leaf_bytes(x)->0),
    ensures
        leaf_bytes(x)->0.len() >= 1,
        leaf_bytes(x)->0[0] != 0x0b,
        sp_u8(s, p) == Ok::<(u8, int), WasmErrorView>((leaf_bytes(x)->0[0], p + 1)),
        sp_instr(s, p + 1, leaf_bytes(x)->0[0]) == Ok::<(InstrView, int), WasmErrorView>(
            (InstrView::Leaf(x), p + leaf_bytes(x)->0.len()),
        ),
{
    let e = leaf_bytes(x)->0;
    lemma_read_first(s, p, e);
    match x {
        Instruction::RefNull { ty } => {
            assert(seq![0xd0u8, value_type_byte(ty)] =~= seq![0xd0u8] + seq![value_type_byte(ty)]);
            lemma_at_split(s, p, seq![0xd0u8], seq![value_type_byte(ty)]);
            lemma_read_u8(s, p + 1, value_type_byte(ty));
            lemma_value_type_byte_roundtrip(ty);
        },
        Instruction::RefFunc { func_idx } => {
            lemma_at_split(s, p, seq![0xd2u8], leb_u32(func_idx));
            lemma_read_leb_u32(s, p + 1, func_idx);
        },
        _ => {},
    }
}

proof fn lemma_read_leaf(s: Seq<u8>, p: int, x: Instruction)
    requires
        leaf_ok(x),
        at(s, p, leaf_bytes(x)->0),
    ensures
        leaf_bytes(x)->0.len() >= 1,
        leaf_bytes(x)->0[0] != 0x0b,
        leaf_bytes(x)->0[0] != 0x05,
        sp_u8(s, p) == Ok::<(u8, int), WasmErrorView>((leaf_bytes(x)->0[0], p + 1)),
        sp_instr(s, p + 1, leaf_bytes(x)->0[0]) == Ok::<(InstrView, int), WasmErrorView>(
            (InstrView::Leaf(x), p + leaf_bytes(x)->0.len()),
        ),
        sp_single(s, p + 1, leaf_bytes(x)->0[0]) == Ok::<(InstrView, int), WasmErrorView>(
            (InstrView::Leaf(x), p + leaf_bytes(x)->0.len()),
        ),
{
    lemma_read_leaf_instr(s, p, x);
    let op = leaf_bytes(x)->0[0];
    assert(op != 0x02 && op != 0x03 && op != 0x04);
    assert(sp_instr(s, p + 1, op) == sp_leaf_instr(s, p + 1, op));
    assert(sp_single(s, p + 1, op) == sp_leaf_instr(s, p + 1, op));
}

proof fn lemma_read_leaf_instr(s: Seq<u8>, p: int, x: Instruction)
    requires
        leaf_ok(x),
        at(s, p, leaf_bytes(x)->0),
    ensures
        leaf_bytes(x)->0.len() >= 1,
        leaf_bytes(x)->0[0] != 0x0b,
        leaf_bytes(x)->0[0] != 0x05,
        sp_u8(s, p) == Ok::<(u8, int), WasmErrorView>((leaf_bytes(x)->0[0], p + 1)),
        sp_instr(s, p + 1, leaf_bytes(x)->0[0]) == Ok::<(InstrView, int), WasmErrorView>(
            (InstrView::Leaf(x), p + leaf_bytes(x)->0.len()),
        ),
{
    if x is Unreachable || x is Nop || x is Return || x is Drop || x is Select || x is Br || x is BrIf || x is Call || x is CallIndirect {
        lemma_read_leaf_control(s, p, x);
    } else if x is LocalGet || x is LocalSet || x is LocalTee || x is GlobalGet || x is GlobalSet {
        lemma_read_leaf_variable(s, p, x);
    } else if x is I32Load || x is I64Load || x is F32Load || x is F64Load {
        lemma_read_leaf_memory(s, p, x);
    } else if x is I32Const || x is I64Const || x is F32Const || x is F64Const {
        lemma_read_leaf_const(s, p, x);
    } else if x is I32Eqz || x is I32Eq || x is I32Ne || x is I32Add || x is I32Sub || x is I32Mul || x is I32DivS || x is I32DivU || x is I64Add || x is I64Sub || x is I64Mul || x is I32WrapI64 || x is I64ExtendI32S || x is I64ExtendI32U {
        lemma_read_leaf_numeric(s, p, x);
    } else if x is RefNull || x is RefIsNull || x is RefFunc {
        lemma_read_leaf_reference(s, p, x);
    }
}

proof fn lemma_leb_nonempty(v: u32, w: int)
    ensures
        leb_u32(v).len() >= 1,
        spec_encode_signed(w).len() >= 1,
{
    reveal_with_fuel(spec_encode_unsigned, 1);
    reveal_with_fuel(spec_encode_signed, 1);
}

#[verifier::spinoff_prover]
#[verifier::rlimit(40)]
proof fn lemma_read_single(s: Seq<u8>, p: int, i: InstrView)
    requires
        nested_ok(i),
        at(s, p, enc_instr(i).0),
    ensures
        enc_instr(i).1 is None,
        enc_instr(i).0.len() >= 1,
        enc_instr(i).0[0] != 0x0b,
        enc_instr(i).0[0] != 0x05,
        sp_u8(s, p) == Ok::<(u8, int), WasmErrorView>((enc_instr(i).0[0], p + 1)),
        sp_single(s, p + 1, enc_instr(i).0[0]) == Ok::<(InstrView, int), WasmErrorView>(
            (i, p + enc_instr(i).0.len()),
        ),
        sp_instr(s, p + 1, enc_instr(i).0[0]) == Ok::<(InstrView, int), WasmErrorView>(
            (i, p + enc_instr(i).0.len()),
        ),
    decreases i, 1int,
{
    let e = enc_instr(i).0;
    match i {
        InstrView::Leaf(x) => {
            lemma_read_leaf(s, p, x);
        },
        InstrView::Block { block_type, body } => {
            let head = seq![0x02u8] + enc_block_type(block_type);
            lemma_at_split(s, p, head, enc_instrs(body).0);
            lemma_at_split(s, p, seq![0x02u8], enc_block_type(block_type));
            lemma_read_first(s, p, e);
            lemma_leb_nonempty(0, block_value_int(block_type));
            lemma_read_block_type(s, p + 1, block_type);
            lemma_read_until_end(s, p + head.len(), body);
        },
        InstrView::Loop { block_type, body } => {
            let head = seq![0x03u8] + enc_block_type(block_type);
            lemma_at_split(s, p, head, enc_instrs(body).0);
            lemma_at_split(s, p, seq![0x03u8], enc_block_type(block_type));
            lemma_read_first(s, p, e);
            lemma_leb_nonempty(0, block_value_int(block_type));
            lemma_read_block_type(s, p + 1, block_type);
            lemma_read_until_end(s, p + head.len(), body);
        },
        InstrView::If { block_type, then_branch, else_branch } => {
            lemma_read_if_parts(s, p, i, block_type, then_branch, else_branch);
        },
        InstrView::BrTable { labels, default_label } => {
            let n = labels.len() as u32;
            let a = seq![0x0eu8] + leb_u32(n);
            lemma_at_split(s, p, a + leb_list(labels), leb_u32(default_label));
            lemma_at_split(s, p, a, leb_list(labels));
            lemma_at_split(s, p, seq![0x0eu8], leb_u32(n));
            lemma_read_first(s, p, e);
            lemma_read_leb_u32(s, p + 1, n);
            lemma_read_u32_list(s, p + a.len(), labels);
            lemma_read_leb_u32(s, p + a.len() + leb_list(labels).len(), default_label);
        },
        _ => {},
    }
}

/// The value that encodes a block type, cut to 32 bits, as an integer.
spec fn block_value_int(bt: BlockType) -> int {
    (block_type_value(bt) as i32) as int
}

proof fn lemma_read_until_end(s: Seq<u8>, p: int, is: Seq<InstrView>)
    requires
        all_nested_ok(is),
        at(s, p, enc_instrs(is).0),
    ensures
        enc_instrs(is).1 is None,
        sp_until_end(s, p) == Ok::<(Seq<InstrView>, int), WasmErrorView>((is, p + enc_instrs(is).0.len())),
    decreases is, 0int,
{
    if is.len() == 0 {
        lemma_read_u8(s, p, 0x0bu8);
        assert(is =~= Seq::<InstrView>::empty());
    } else {
        let rest = is.subrange(1, is.len() as int);
        let e0 = enc_instr(is[0]).0;
        lemma_all_nested_emits(is);
        lemma_at_split(s, p, e0, enc_instrs(rest).0);
        lemma_read_single(s, p, is[0]);
        lemma_read_until_end(s, p + e0.len(), rest);
        assert(advanced(s, p, p + e0.len()));
        assert(seq![is[0]] + rest =~= is);
    }
}

#[verifier::spinoff_prover]
#[verifier::rlimit(40)]
proof fn lemma_read_top(s: Seq<u8>, p: int, i: InstrView)
    requires
        top_ok(i),
        at(s, p, enc_instr(i).0),
    ensures
        enc_instr(i).1 is None,
        enc_instr(i).0.len() >= 1,
        enc_instr(i).0[0] != 0x0b,
        sp_u8(s, p) == Ok::<(u8, int), WasmErrorView>((enc_instr(i).0[0], p + 1)),
        sp_instr(s, p + 1, enc_instr(i).0[0]) == Ok::<(InstrView, int), WasmErrorView>(
            (i, p + enc_instr(i).0.len()),
        ),
{
    lemma_read_single(s, p, i);
}

/// The instructions of a branch of an `if`, written without their end
/// opcode, read back before what follows them.
#[verifier::spinoff_prover]
#[verifier::rlimit(60)]
proof fn lemma_read_branch(
    s: Seq<u8>,
    p: int,
    is: Seq<InstrView>,
    in_else: bool,
    t: Seq<InstrView>,
    e: Seq<InstrView>,
    r: int,
)
    requires
        all_nested_ok(is),
        at(s, p, open(enc_instrs(is))),
        sp_if_branches(s, p + open(enc_instrs(is)).len(), in_else) == Ok::<
            ((Seq<InstrView>, Seq<InstrView>), int),
            WasmErrorView,
        >(((t, e), r)),
    ensures
        sp_if_branches(s, p, in_else) == Ok::<((Seq<InstrView>, Seq<InstrView>), int), WasmErrorView>(
            (if in_else { (t, is + e) } else { (is + t, e) }, r),
        ),
    decreases is, 0int,
{
    lemma_all_nested_emits(is);
    if is.len() == 0 {
        assert(is =~= Seq::<InstrView>::empty());
        assert(open(enc_instrs(is)) =~= Seq::<u8>::empty());
        assert(is + e =~= e);
        assert(is + t =~= t);
    } else {
        let rest = is.subrange(1, is.len() as int);
        let e0 = enc_instr(is[0]).0;
        lemma_all_nested_emits(rest);
        lemma_enc_instrs_end(rest);
        assert(open(enc_instrs(is)) =~= e0 + open(enc_instrs(rest)));
        lemma_at_split(s, p, e0, open(enc_instrs(rest)));
        lemma_read_single(s, p, is[0]);
        lemma_read_branch(s, p + e0.len(), rest, in_else, t, e, r);
        assert(advanced(s, p, p + e0.len()));
        let tail = sp_if_branches(s, p + e0.len(), in_else);
        assert(sp_if_branches(s, p, in_else) == (match tail {
            Ok(((t2, e2), r2)) => if in_else {
                Ok::<((Seq<InstrView>, Seq<InstrView>), int), WasmErrorView>(((t2, seq![is[0]] + e2), r2))
            } else {
                Ok(((seq![is[0]] + t2, e2), r2))
            },
            Err(err) => Err(err),
        }));
        assert(seq![is[0]] + (rest + e) =~= is + e);
        assert(seq![is[0]] + (rest + t) =~= is + t);
    }
}

/// An `if` whose branches hold instructions the decoder reads inside a
/// block reads back.
#[verifier::spinoff_prover]
#[verifier::rlimit(40)]
proof fn lemma_read_if_parts(s: Seq<u8>, p: int, i: InstrView, bt: BlockType, tb: Seq<InstrView>, eb: Seq<InstrView>)
    requires
        i == (InstrView::If { block_type: bt, then_branch: tb, else_branch: eb }),
        block_type_ok(bt),
        all_nested_ok(tb),
        all_nested_ok(eb),
        at(s, p, enc_instr(i).0),
    ensures
        enc_instr(i).1 is None,
        enc_instr(i).0.len() >= 1,
        enc_instr(i).0[0] == 0x04,
        sp_u8(s, p) == Ok::<(u8, int), WasmErrorView>((0x04u8, p + 1)),
        sp_instr(s, p + 1, 0x04u8) == Ok::<(InstrView, int), WasmErrorView>((i, p + enc_instr(i).0.len())),
        sp_single(s, p + 1, 0x04u8) == Ok::<(InstrView, int), WasmErrorView>((i, p + enc_instr(i).0.len())),
    decreases i, 0int,
{
    lemma_leb_nonempty(0, block_value_int(bt));
    let e = enc_instr(i).0;
    let head = seq![0x04u8] + enc_block_type(bt);
    lemma_all_nested_emits(tb);
    lemma_all_nested_emits(eb);
    lemma_enc_instrs_end(tb);
    lemma_enc_instrs_end(eb);
    let topen = open(enc_instrs(tb));
    let empty = Seq::<InstrView>::empty();
    if eb.len() == 0 {
        assert(e =~= head + topen + seq![0x0bu8]);
        lemma_at_split(s, p, head + topen, seq![0x0bu8]);
        lemma_at_split(s, p, head, topen);
        lemma_at_split(s, p, seq![0x04u8], enc_block_type(bt));
        lemma_read_first(s, p, e);
        lemma_read_block_type(s, p + 1, bt);
        let q = p + head.len() + topen.len();
        lemma_read_u8(s, q, 0x0bu8);
        assert(sp_if_branches(s, q, false) == Ok::<((Seq<InstrView>, Seq<InstrView>), int), WasmErrorView>(
            ((empty, empty), q + 1),
        ));
        lemma_read_branch(s, p + head.len(), tb, false, empty, empty, q + 1);
        assert(tb + empty =~= tb);
        assert(eb =~= empty);
    } else {
        let eopen = open(enc_instrs(eb));
        assert(e =~= head + topen + seq![0x05u8] + eopen + seq![0x0bu8]);
        lemma_at_split(s, p, head + topen + seq![0x05u8] + eopen, seq![0x0bu8]);
        lemma_at_split(s, p, head + topen + seq![0x05u8], eopen);
        lemma_at_split(s, p, head + topen, seq![0x05u8]);
        lemma_at_split(s, p, head, topen);
        lemma_at_split(s, p, seq![0x04u8], enc_block_type(bt));
        lemma_read_first(s, p, e);
        lemma_read_block_type(s, p + 1, bt);
        let q1 = p + head.len() + topen.len();
        let q2 = q1 + 1 + eopen.len();
        lemma_read_u8(s, q2, 0x0bu8);
        assert(sp_if_branches(s, q2, true) == Ok::<((Seq<InstrView>, Seq<InstrView>), int), WasmErrorView>(
            ((empty, empty), q2 + 1),
        ));
        lemma_read_branch(s, q1 + 1, eb, true, empty, empty, q2 + 1);
        assert(eb + empty =~= eb);
        lemma_read_u8(s, q1, 0x05u8);
        assert(sp_if_branches(s, q1, false) == sp_if_branches(s, q1 + 1, true));
        lemma_read_branch(s, p + head.len(), tb, false, empty, eb, q2 + 1);
        assert(tb + empty =~= tb);
    }
}

/// An expression whose instructions all read back is read back, with the
/// position after its end opcode.
#[verifier::spinoff_prover]
pub proof fn lemma_read_instrs(s: Seq<u8>, p: int, is: Seq<InstrView>)
    requires
        all_top_ok(is),
        at(s, p, enc_instrs(is).0),
    ensures
        enc_instrs(is).1 is None,
        sp_instrs(s, p) == Ok::<(Seq<InstrView>, int), WasmErrorView>((is, p + enc_instrs(is).0.len())),
    decreases is.len(),
{
    if is.len() == 0 {
        lemma_read_u8(s, p, 0x0bu8);
        assert(is =~= Seq::<InstrView>::empty());
    } else {
        let rest = is.subrange(1, is.len() as int);
        let e0 = enc_instr(is[0]).0;
        assert(top_ok(is[0]));
        assert forall|k: int| 0 <= k < rest.len() implies #[trigger] top_ok(rest[k]) by {
            assert(rest[k] == is[k + 1]);
        }
        lemma_top_emits(is);
        lemma_at_split(s, p, e0, enc_instrs(rest).0);
        lemma_read_top(s, p, is[0]);
        lemma_read_instrs(s, p + e0.len(), rest);
        assert(advanced(s, p, p + e0.len()));
        assert(seq![is[0]] + rest =~= is);
    }
}

proof fn lemma_nested_emits(i: InstrView)
    requires
        nested_ok(i),
    ensures
        enc_instr(i).1 is None,
    decreases i,
{
    match i {
        InstrView::Block { body, .. } => lemma_all_nested_emits(body),
        InstrView::Loop { body, .. } => lemma_all_nested_emits(body),
        InstrView::If { then_branch, else_branch, .. } => {
            lemma_all_nested_emits(then_branch);
            lemma_all_nested_emits(else_branch);
        },
        _ => {},
    }
}

proof fn lemma_all_nested_emits(is: Seq<InstrView>)
    requires
        all_nested_ok(is),
    ensures
        enc_instrs(is).1 is None,
        is.len() > 0 ==> enc_instrs(is).0 == enc_instr(is[0]).0 + enc_instrs(is.subrange(1, is.len() as int)).0,
    decreases is,
{
    if is.len() > 0 {
        lemma_nested_emits(is[0]);
        lemma_all_nested_emits(is.subrange(1, is.len() as int));
    }
}

proof fn lemma_top_emits(is: Seq<InstrView>)
    requires
        all_top_ok(is),
    ensures
        enc_instrs(is).1 is None,
        is.len() > 0 ==> enc_instrs(is).0 == enc_instr(is[0]).0 + enc_instrs(is.subrange(1, is.len() as int)).0,
    decreases is.len(),
{
    if is.len() > 0 {
        let rest = is.subrange(1, is.len() as int);
        assert(top_ok(is[0]));
        assert forall|k: int| 0 <= k < rest.len() implies #[trigger] top_ok(rest[k]) by {
            assert(rest[k] == is[k + 1]);
        }
        match is[0] {
            InstrView::Block { body, .. } => lemma_all_nested_emits(body),
            InstrView::Loop { body, .. } => lemma_all_nested_emits(body),
            InstrView::If { then_branch, else_branch, .. } => {
                lemma_all_nested_emits(then_branch);
                lemma_all_nested_emits(else_branch);
            },
            InstrView::Leaf(x) => assert(leaf_bytes(x) is Some),
            _ => {},
        }
        assert(enc_instr(is[0]).1 is None);
        lemma_top_emits(rest);
    }
}

// ---------------------------------------------------------------------------
// Lists: the bytes of each are those of its first item, then of the rest.

proof fn lemma_value_types_front(xs: Seq<ValueType>)
    requires
        xs.len() > 0,
    ensures
        enc_value_types(xs) == seq![value_type_byte(xs[0])] + enc_value_types(xs.subrange(1, xs.len() as int)),
    decreases xs.len(),
{
    let rest = xs.subrange(1, xs.len() as int);
    if xs.len() == 1 {
        assert(xs.drop_last() =~= Seq::<ValueType>::empty());
        assert(rest =~= Seq::<ValueType>::empty());
        assert(Seq::<u8>::empty() + seq![value_type_byte(xs[0])] =~= seq![value_type_byte(xs[0])] + Seq::<u8>::empty());
    } else {
        let init = xs.drop_last();
        lemma_value_types_front(init);
        assert(init.subrange(1, init.len() as int) =~= rest.drop_last());
        assert(rest.last() == xs.last());
        assert(seq![value_type_byte(xs[0])] + enc_value_types(rest.drop_last()) + seq![value_type_byte(xs.last())] =~= seq![value_type_byte(xs[0])] + (enc_value_types(rest.drop_last()) + seq![value_type_byte(xs.last())]));
    }
}

proof fn lemma_func_types_front(xs: Seq<FuncTypeView>)
    requires
        xs.len() > 0,
    ensures
        enc_func_types(xs) == enc_func_type(xs[0]) + enc_func_types(xs.subrange(1, xs.len() as int)),
    decreases xs.len(),
{
    let rest = xs.subrange(1, xs.len() as int);
    if xs.len() == 1 {
        assert(xs.drop_last() =~= Seq::<FuncTypeView>::empty());
        assert(rest =~= Seq::<FuncTypeView>::empty());
        assert(Seq::<u8>::empty() + enc_func_type(xs[0]) =~= enc_func_type(xs[0]) + Seq::<u8>::empty());
    } else {
        let init = xs.drop_last();
        lemma_func_types_front(init);
        assert(init.subrange(1, init.len() as int) =~= rest.drop_last());
        assert(rest.last() == xs.last());
        assert(enc_func_type(xs[0]) + enc_func_types(rest.drop_last()) + enc_func_type(xs.last()) =~= enc_func_type(xs[0]) + (enc_func_types(rest.drop_last()) + enc_func_type(xs.last())));
    }
}

proof fn lemma_imports_front(xs: Seq<ImportView>)
    requires
        xs.len() > 0,
    ensures
        enc_imports(xs) == enc_import(xs[0]) + enc_imports(xs.subrange(1, xs.len() as int)),
    decreases xs.len(),
{
    let rest = xs.subrange(1, xs.len() as int);
    if xs.len() == 1 {
        assert(xs.drop_last() =~= Seq::<ImportView>::empty());
        assert(rest =~= Seq::<ImportView>::empty());
        assert(Seq::<u8>::empty() + enc_import(xs[0]) =~= enc_import(xs[0]) + Seq::<u8>::empty());
    } else {
        let init = xs.drop_last();
        lemma_imports_front(init);
        assert(init.subrange(1, init.len() as int) =~= rest.drop_last());
        assert(rest.last() == xs.last());
        assert(enc_import(xs[0]) + enc_imports(rest.drop_last()) + enc_import(xs.last()) =~= enc_import(xs[0]) + (enc_imports(rest.drop_last()) + enc_import(xs.last())));
    }
}

proof fn lemma_tables_front(xs: Seq<TableType>)
    requires
        xs.len() > 0,
    ensures
        enc_tables(xs) == enc_table(xs[0]) + enc_tables(xs.subrange(1, xs.len() as int)),
    decreases xs.len(),
{
    let rest = xs.subrange(1, xs.len() as int);
    if xs.len() == 1 {
        assert(xs.drop_last() =~= Seq::<TableType>::empty());
        assert(rest =~= Seq::<TableType>::empty());
        assert(Seq::<u8>::empty() + enc_table(xs[0]) =~= enc_table(xs[0]) + Seq::<u8>::empty());
    } else {
        let init = xs.drop_last();
        lemma_tables_front(init);
        assert(init.subrange(1, init.len() as int) =~= rest.drop_last());
        assert(rest.last() == xs.last());
        assert(enc_table(xs[0]) + enc_tables(rest.drop_last()) + enc_table(xs.last()) =~= enc_table(xs[0]) + (enc_tables(rest.drop_last()) + enc_table(xs.last())));
    }
}

proof fn lemma_memories_front(xs: Seq<MemType>)
    requires
        xs.len() > 0,
    ensures
        enc_memories(xs) == enc_limits(xs[0].limits) + enc_memories(xs.subrange(1, xs.len() as int)),
    decreases xs.len(),
{
    let rest = xs.subrange(1, xs.len() as int);
    if xs.len() == 1 {
        assert(xs.drop_last() =~= Seq::<MemType>::empty());
        assert(rest =~= Seq::<MemType>::empty());
        assert(Seq::<u8>::empty() + enc_limits(xs[0].limits) =~= enc_limits(xs[0].limits) + Seq::<u8>::empty());
    } else {
        let init = xs.drop_last();
        lemma_memories_front(init);
        assert(init.subrange(1, init.len() as int) =~= rest.drop_last());
        assert(rest.last() == xs.last());
        assert(enc_limits(xs[0].limits) + enc_memories(rest.drop_last()) + enc_limits(xs.last().limits) =~= enc_limits(xs[0].limits) + (enc_memories(rest.drop_last()) + enc_limits(xs.last().limits)));
    }
}

proof fn lemma_exports_front(xs: Seq<ExportView>)
    requires
        xs.len() > 0,
    ensures
        enc_exports(xs) == enc_export(xs[0]) + enc_exports(xs.subrange(1, xs.len() as int)),
    decreases xs.len(),
{
    let rest = xs.subrange(1, xs.len() as int);
    if xs.len() == 1 {
        assert(xs.drop_last() =~= Seq::<ExportView>::empty());
        assert(rest =~= Seq::<ExportView>::empty());
        assert(Seq::<u8>::empty() + enc_export(xs[0]) =~= enc_export(xs[0]) + Seq::<u8>::empty());
    } else {
        let init = xs.drop_last();
        lemma_exports_front(init);
        assert(init.subrange(1, init.len() as int) =~= rest.drop_last());
        assert(rest.last() == xs.last());
        assert(enc_export(xs[0]) + enc_exports(rest.drop_last()) + enc_export(xs.last()) =~= enc_export(xs[0]) + (enc_exports(rest.drop_last()) + enc_export(xs.last())));
    }
}

proof fn lemma_locals_front(xs: Seq<Local>)
    requires
        xs.len() > 0,
    ensures
        enc_locals(xs) == enc_local(xs[0]) + enc_locals(xs.subrange(1, xs.len() as int)),
    decreases xs.len(),
{
    let rest = xs.subrange(1, xs.len() as int);
    if xs.len() == 1 {
        assert(xs.drop_last() =~= Seq::<Local>::empty());
        assert(rest =~= Seq::<Local>::empty());
        assert(Seq::<u8>::empty() + enc_local(xs[0]) =~= enc_local(xs[0]) + Seq::<u8>::empty());
    } else {
        let init = xs.drop_last();
        lemma_locals_front(init);
        assert(init.subrange(1, init.len() as int) =~= rest.drop_last());
        assert(rest.last() == xs.last());
        assert(enc_local(xs[0]) + enc_locals(rest.drop_last()) + enc_local(xs.last()) =~= enc_local(xs[0]) + (enc_locals(rest.drop_last()) + enc_local(xs.last())));
    }
}

proof fn lemma_customs_front(xs: Seq<CustomSectionView>)
    requires
        xs.len() > 0,
    ensures
        enc_customs(xs) == enc_custom(xs[0]) + enc_customs(xs.subrange(1, xs.len() as int)),
    decreases xs.len(),
{
    let rest = xs.subrange(1, xs.len() as int);
    if xs.len() == 1 {
        assert(xs.drop_last() =~= Seq::<CustomSectionView>::empty());
        assert(rest =~= Seq::<CustomSectionView>::empty());
        assert(Seq::<u8>::empty() + enc_custom(xs[0]) =~= enc_custom(xs[0]) + Seq::<u8>::empty());
    } else {
        let init = xs.drop_last();
        lemma_customs_front(init);
        assert(init.subrange(1, init.len() as int) =~= rest.drop_last());
        assert(rest.last() == xs.last());
        assert(enc_custom(xs[0]) + enc_customs(rest.drop_last()) + enc_custom(xs.last()) =~= enc_custom(xs[0]) + (enc_customs(rest.drop_last()) + enc_custom(xs.last())));
    }
}

// ---------------------------------------------------------------------------
// Items of the sections.

/// A name whose UTF-8 bytes can be counted in 32 bits.
pub open spec fn name_fits(n: Seq<char>) -> bool {
    encode_utf8(n).len() <= u32::MAX
}

/// A function type whose lists can be counted in 32 bits.
pub open spec fn func_type_ok(f: FuncTypeView) -> bool {
    f.params.len() <= u32::MAX && f.results.len() <= u32::MAX
}

/// An import that reads back: names that fit, one of the four known kinds.
pub open spec fn import_ok(i: ImportView) -> bool {
    name_fits(i.module) && name_fits(i.name) && !(i.kind is Unknown)
}

/// An export that reads back: a name that fits, one of the four known kinds.
pub open spec fn export_ok(e: ExportView) -> bool {
    name_fits(e.name) && !(e.kind is Unknown)
}

/// A global that reads back: its initialization expression does.
pub open spec fn global_ok(g: GlobalView) -> bool {
    all_top_ok(g.init)
}

/// An element segment that reads back: of function references, with an
/// offset that reads back, and indices that can be counted in 32 bits.
pub open spec fn element_ok(e: ElementSegmentView) -> bool {
    &&& e.elem_type == ValueType::FuncRef
    &&& e.init.len() <= u32::MAX
    &&& (e.mode matches ElementModeView::Active { offset, .. } ==> all_top_ok(offset))
}

/// A function body that reads back: its locals can be counted in 32 bits,
/// its instructions read back, and its size fits in 32 bits.
pub open spec fn body_ok(b: FunctionBodyView) -> bool {
    &&& b.locals.len() <= u32::MAX
    &&& all_top_ok(b.instructions)
    &&& enc_body_content(b).0.len() <= u32::MAX
}

/// A data segment that reads back: an offset that reads back, and bytes
/// that can be counted in 32 bits.
pub open spec fn data_ok(d: DataSegmentView) -> bool {
    &&& d.data.len() <= u32::MAX
    &&& (d.mode matches DataModeView::Active { offset, .. } ==> all_top_ok(offset))
}

/// A custom section that reads back: its name fits, and so does its size.
pub open spec fn custom_ok(c: CustomSectionView) -> bool {
    &&& name_fits(c.name)
    &&& leb_u32(encode_utf8(c.name).len() as u32).len() + encode_utf8(c.name).len() + c.data.len() <= u32::MAX
}

#[verifier::spinoff_prover]
proof fn lemma_read_value_types(s: Seq<u8>, p: int, ts: Seq<ValueType>)
    requires
        at(s, p, enc_value_types(ts)),
    ensures
        sp_value_types(s, p, ts.len()) == Ok::<(Seq<ValueType>, int), WasmErrorView>(
            (ts, p + enc_value_types(ts).len()),
        ),
    decreases ts.len(),
{
    if ts.len() == 0 {
        assert(ts =~= Seq::<ValueType>::empty());
    } else {
        let rest = ts.subrange(1, ts.len() as int);
        lemma_value_types_front(ts);
        lemma_at_split(s, p, seq![value_type_byte(ts[0])], enc_value_types(rest));
        lemma_read_value_type(s, p, ts[0]);
        lemma_read_value_types(s, p + 1, rest);
        assert(seq![ts[0]] + rest =~= ts);
    }
}

proof fn lemma_read_func_type(s: Seq<u8>, p: int, f: FuncTypeView)
    requires
        at(s, p, enc_func_type(f)),
        func_type_ok(f),
    ensures
        sp_func_type(s, p) == Ok::<(FuncTypeView, int), WasmErrorView>((f, p + enc_func_type(f).len())),
{
    let a = seq![0x60u8];
    let b = count_bytes(f.params.len()) + enc_value_types(f.params);
    let c = count_bytes(f.results.len()) + enc_value_types(f.results);
    assert(enc_func_type(f) =~= a + b + c);
    lemma_at_split(s, p, a + b, c);
    lemma_at_split(s, p, a, b);
    lemma_read_u8(s, p, 0x60u8);
    lemma_at_split(s, p + 1, count_bytes(f.params.len()), enc_value_types(f.params));
    lemma_read_leb_u32(s, p + 1, f.params.len() as u32);
    lemma_read_value_types(s, p + 1 + count_bytes(f.params.len()).len(), f.params);
    lemma_at_split(s, p + 1 + b.len(), count_bytes(f.results.len()), enc_value_types(f.results));
    lemma_read_leb_u32(s, p + 1 + b.len(), f.results.len() as u32);
    lemma_read_value_types(s, p + 1 + b.len() + count_bytes(f.results.len()).len(), f.results);
}

proof fn lemma_read_external_kind(s: Seq<u8>, p: int, k: ExternalKind)
    requires
        at(s, p, seq![external_kind_byte(k)]),
        !(k is Unknown),
    ensures
        sp_external_kind(s, p) == Ok::<(ExternalKind, int), WasmErrorView>((k, p + 1)),
{
    lemma_read_u8(s, p, external_kind_byte(k));
    lemma_external_kind_roundtrip(k);
}

proof fn lemma_read_import(s: Seq<u8>, p: int, i: ImportView)
    requires
        at(s, p, enc_import(i)),
        import_ok(i),
    ensures
        sp_import(s, p) == Ok::<(ImportView, int), WasmErrorView>((i, p + enc_import(i).len())),
{
    let a = enc_name(i.module);
    let b = enc_name(i.name);
    let c = seq![external_kind_byte(i.kind)];
    let d = leb_u32(i.idx);
    lemma_at_split(s, p, a + b + c, d);
    lemma_at_split(s, p, a + b, c);
    lemma_at_split(s, p, a, b);
    lemma_read_name(s, p, i.module);
    lemma_read_name(s, p + a.len(), i.name);
    lemma_read_external_kind(s, p + a.len() + b.len(), i.kind);
    lemma_read_leb_u32(s, p + a.len() + b.len() + 1, i.idx);
}

proof fn lemma_read_export(s: Seq<u8>, p: int, e: ExportView)
    requires
        at(s, p, enc_export(e)),
        export_ok(e),
    ensures
        sp_export(s, p) == Ok::<(ExportView, int), WasmErrorView>((e, p + enc_export(e).len())),
{
    let a = enc_name(e.name);
    let c = seq![external_kind_byte(e.kind)];
    let d = leb_u32(e.idx);
    lemma_at_split(s, p, a + c, d);
    lemma_at_split(s, p, a, c);
    lemma_read_name(s, p, e.name);
    lemma_read_external_kind(s, p + a.len(), e.kind);
    lemma_read_leb_u32(s, p + a.len() + 1, e.idx);
}

proof fn lemma_read_table(s: Seq<u8>, p: int, t: TableType)
    requires
        at(s, p, enc_table(t)),
    ensures
        sp_table(s, p) == Ok::<(TableType, int), WasmErrorView>((t, p + enc_table(t).len())),
{
    lemma_at_split(s, p, seq![value_type_byte(t.elem_type)], enc_limits(t.limits));
    lemma_read_value_type(s, p, t.elem_type);
    lemma_read_limits(s, p + 1, t.limits);
}

proof fn lemma_read_memory(s: Seq<u8>, p: int, m: MemType)
    requires
        at(s, p, enc_limits(m.limits)),
    ensures
        sp_memory(s, p) == Ok::<(MemType, int), WasmErrorView>((m, p + enc_limits(m.limits).len())),
{
    lemma_read_limits(s, p, m.limits);
}

proof fn lemma_read_local(s: Seq<u8>, p: int, l: Local)
    requires
        at(s, p, enc_local(l)),
    ensures
        sp_local(s, p) == Ok::<(Local, int), WasmErrorView>((l, p + enc_local(l).len())),
{
    lemma_at_split(s, p, leb_u32(l.count), seq![value_type_byte(l.ty)]);
    lemma_read_leb_u32(s, p, l.count);
    lemma_read_value_type(s, p + leb_u32(l.count).len(), l.ty);
}

proof fn lemma_read_global(s: Seq<u8>, p: int, g: GlobalView)
    requires
        at(s, p, enc_global(g).0),
        global_ok(g),
    ensures
        enc_global(g).1 is None,
        sp_global(s, p) == Ok::<(GlobalView, int), WasmErrorView>((g, p + enc_global(g).0.len())),
{
    let m: u8 = if g.ty.mutable { 0x01u8 } else { 0x00u8 };
    let head = seq![value_type_byte(g.ty.value_type), m];
    lemma_top_emits(g.init);
    lemma_at_split(s, p, head, enc_instrs(g.init).0);
    assert(head =~= seq![value_type_byte(g.ty.value_type)] + seq![m]);
    lemma_at_split(s, p, seq![value_type_byte(g.ty.value_type)], seq![m]);
    lemma_read_value_type(s, p, g.ty.value_type);
    lemma_read_u8(s, p + 1, m);
    lemma_read_instrs(s, p + 2, g.init);
}

#[verifier::spinoff_prover]
proof fn lemma_read_locals(s: Seq<u8>, p: int, xs: Seq<Local>)
    requires
        at(s, p, enc_locals(xs)),
    ensures
        sp_locals(s, p, xs.len()) == Ok::<(Seq<Local>, int), WasmErrorView>((xs, p + enc_locals(xs).len())),
    decreases xs.len(),
{
    if xs.len() == 0 {
        assert(xs =~= Seq::<Local>::empty());
    } else {
        let rest = xs.subrange(1, xs.len() as int);
        lemma_locals_front(xs);
        lemma_at_split(s, p, enc_local(xs[0]), enc_locals(rest));
        lemma_read_local(s, p, xs[0]);
        lemma_read_locals(s, p + enc_local(xs[0]).len(), rest);
        assert(seq![xs[0]] + rest =~= xs);
    }
}

#[verifier::spinoff_prover]
#[verifier::rlimit(40)]
proof fn lemma_read_element(s: Seq<u8>, p: int, e: ElementSegmentView)
    requires
        at(s, p, enc_element(e).0),
        element_ok(e),
    ensures
        enc_element(e).1 is None,
        sp_element(s, p) == Ok::<(ElementSegmentView, int), WasmErrorView>((e, p + enc_element(e).0.len())),
{
    let tail = count_bytes(e.init.len()) + leb_list(e.init);
    match e.mode {
        ElementModeView::Passive => {
            lemma_at_split(s, p, leb_u32(1), tail);
            lemma_read_leb_u32(s, p, 1);
            let q = p + leb_u32(1).len();
            lemma_at_split(s, q, count_bytes(e.init.len()), leb_list(e.init));
            lemma_read_leb_u32(s, q, e.init.len() as u32);
            lemma_read_u32_list(s, q + count_bytes(e.init.len()).len(), e.init);
        },
        ElementModeView::Declared => {
            lemma_at_split(s, p, leb_u32(3), tail);
            lemma_read_leb_u32(s, p, 3);
            let q = p + leb_u32(3).len();
            lemma_at_split(s, q, count_bytes(e.init.len()), leb_list(e.init));
            lemma_read_leb_u32(s, q, e.init.len() as u32);
            lemma_read_u32_list(s, q + count_bytes(e.init.len()).len(), e.init);
        },
        ElementModeView::Active { table_idx, offset } => {
            let head = if table_idx == 0 {
                leb_u32(0)
            } else {
                leb_u32(2) + leb_u32(table_idx)
            };
            lemma_top_emits(offset);
            let mode_bytes = head + enc_instrs(offset).0;
            assert(enc_element(e).0 == mode_bytes + tail);
            lemma_at_split(s, p, mode_bytes, tail);
            lemma_at_split(s, p, head, enc_instrs(offset).0);
            if table_idx == 0 {
                lemma_read_leb_u32(s, p, 0);
            } else {
                lemma_at_split(s, p, leb_u32(2), leb_u32(table_idx));
                lemma_read_leb_u32(s, p, 2);
                lemma_read_leb_u32(s, p + leb_u32(2).len(), table_idx);
            }
            lemma_read_instrs(s, p + head.len(), offset);
            let q = p + mode_bytes.len();
            lemma_at_split(s, q, count_bytes(e.init.len()), leb_list(e.init));
            lemma_read_leb_u32(s, q, e.init.len() as u32);
            lemma_read_u32_list(s, q + count_bytes(e.init.len()).len(), e.init);
        },
    }
}

#[verifier::spinoff_prover]
#[verifier::rlimit(40)]
proof fn lemma_read_data_segment(s: Seq<u8>, p: int, d: DataSegmentView)
    requires
        at(s, p, enc_data_segment(d).0),
        data_ok(d),
    ensures
        enc_data_segment(d).1 is None,
        sp_data_segment(s, p) == Ok::<(DataSegmentView, int), WasmErrorView>((d, p + enc_data_segment(d).0.len())),
{
    let tail = count_bytes(d.data.len()) + d.data;
    match d.mode {
        DataModeView::Passive => {
            lemma_at_split(s, p, leb_u32(1), tail);
            lemma_read_leb_u32(s, p, 1);
            let q = p + leb_u32(1).len();
            lemma_at_split(s, q, count_bytes(d.data.len()), d.data);
            lemma_read_leb_u32(s, q, d.data.len() as u32);
            lemma_read_bytes(s, q + count_bytes(d.data.len()).len(), d.data);
        },
        DataModeView::Active { mem_idx, offset } => {
            let head = if mem_idx == 0 {
                leb_u32(0)
            } else {
                leb_u32(2) + leb_u32(mem_idx)
            };
            lemma_top_emits(offset);
            let mode_bytes = head + enc_instrs(offset).0;
            assert(enc_data_segment(d).0 == mode_bytes + tail);
            lemma_at_split(s, p, mode_bytes, tail);
            lemma_at_split(s, p, head, enc_instrs(offset).0);
            if mem_idx == 0 {
                lemma_read_leb_u32(s, p, 0);
            } else {
                lemma_at_split(s, p, leb_u32(2), leb_u32(mem_idx));
                lemma_read_leb_u32(s, p, 2);
                lemma_read_leb_u32(s, p + leb_u32(2).len(), mem_idx);
            }
            lemma_read_instrs(s, p + head.len(), offset);
            let q = p + mode_bytes.len();
            lemma_at_split(s, q, count_bytes(d.data.len()), d.data);
            lemma_read_leb_u32(s, q, d.data.len() as u32);
            lemma_read_bytes(s, q + count_bytes(d.data.len()).len(), d.data);
        },
    }
}

#[verifier::spinoff_prover]
#[verifier::rlimit(40)]
proof fn lemma_read_body(s: Seq<u8>, p: int, b: FunctionBodyView)
    requires
        at(s, p, enc_body(b).0),
        body_ok(b),
    ensures
        enc_body(b).1 is None,
        sp_body(s, p) == Ok::<(FunctionBodyView, int), WasmErrorView>((b, p + enc_body(b).0.len())),
{
    lemma_top_emits(b.instructions);
    let locals_bytes = count_bytes(b.locals.len()) + enc_locals(b.locals);
    let c = enc_body_content(b).0;
    assert(c == locals_bytes + enc_instrs(b.instructions).0);
    let size = c.len() as u32;
    lemma_at_split(s, p, leb_u32(size), c);
    lemma_read_leb_u32(s, p, size);
    let start = p + leb_u32(size).len();
    lemma_at_split(s, start, locals_bytes, enc_instrs(b.instructions).0);
    lemma_at_split(s, start, count_bytes(b.locals.len()), enc_locals(b.locals));
    lemma_read_leb_u32(s, start, b.locals.len() as u32);
    lemma_read_locals(s, start + count_bytes(b.locals.len()).len(), b.locals);
    lemma_read_instrs(s, start + locals_bytes.len(), b.instructions);
}

// ---------------------------------------------------------------------------
// Lists and sections.

#[verifier::spinoff_prover]
proof fn lemma_read_func_types(s: Seq<u8>, p: int, xs: Seq<FuncTypeView>)
    requires
        at(s, p, enc_func_types(xs)),
        forall|k: int| 0 <= k < xs.len() ==> #[trigger] func_type_ok(xs[k]),
    ensures
        sp_func_types(s, p, xs.len()) == Ok::<(Seq<FuncTypeView>, int), WasmErrorView>((xs, p + enc_func_types(xs).len())),
    decreases xs.len(),
{
    if xs.len() == 0 {
        assert(xs =~= Seq::<FuncTypeView>::empty());
    } else {
        let rest = xs.subrange(1, xs.len() as int);
        assert(func_type_ok(xs[0]));
        assert forall|k: int| 0 <= k < rest.len() implies #[trigger] func_type_ok(rest[k]) by {
            assert(rest[k] == xs[k + 1]);
        }
        lemma_func_types_front(xs);
        lemma_at_split(s, p, enc_func_type(xs[0]), enc_func_types(rest));
        lemma_read_func_type(s, p, xs[0]);
        lemma_read_func_types(s, p + enc_func_type(xs[0]).len(), rest);
        assert(seq![xs[0]] + rest =~= xs);
    }
}

#[verifier::spinoff_prover]
proof fn lemma_read_type_section(xs: Seq<FuncTypeView>)
    requires
        xs.len() <= u32::MAX,
        forall|k: int| 0 <= k < xs.len() ==> #[trigger] func_type_ok(xs[k]),
    ensures
        sp_type_section(count_bytes(xs.len()) + enc_func_types(xs)) == Ok::<Seq<FuncTypeView>, WasmErrorView>(xs),
{
    let d = count_bytes(xs.len()) + enc_func_types(xs);
    assert(d.subrange(0, d.len() as int) =~= d);
    lemma_at_split(d, 0, count_bytes(xs.len()), enc_func_types(xs));
    lemma_read_leb_u32(d, 0, xs.len() as u32);
    lemma_read_func_types(d, count_bytes(xs.len()).len() as int, xs);
}

#[verifier::spinoff_prover]
proof fn lemma_read_imports(s: Seq<u8>, p: int, xs: Seq<ImportView>)
    requires
        at(s, p, enc_imports(xs)),
        forall|k: int| 0 <= k < xs.len() ==> #[trigger] import_ok(xs[k]),
    ensures
        sp_imports(s, p, xs.len()) == Ok::<(Seq<ImportView>, int), WasmErrorView>((xs, p + enc_imports(xs).len())),
    decreases xs.len(),
{
    if xs.len() == 0 {
        assert(xs =~= Seq::<ImportView>::empty());
    } else {
        let rest = xs.subrange(1, xs.len() as int);
        assert(import_ok(xs[0]));
        assert forall|k: int| 0 <= k < rest.len() implies #[trigger] import_ok(rest[k]) by {
            assert(rest[k] == xs[k + 1]);
        }
        lemma_imports_front(xs);
        lemma_at_split(s, p, enc_import(xs[0]), enc_imports(rest));
        lemma_read_import(s, p, xs[0]);
        lemma_read_imports(s, p + enc_import(xs[0]).len(), rest);
        assert(seq![xs[0]] + rest =~= xs);
    }
}

#[verifier::spinoff_prover]
proof fn lemma_read_import_section(xs: Seq<ImportView>)
    requires
        xs.len() <= u32::MAX,
        forall|k: int| 0 <= k < xs.len() ==> #[trigger] import_ok(xs[k]),
    ensures
        sp_import_section(count_bytes(xs.len()) + enc_imports(xs)) == Ok::<Seq<ImportView>, WasmErrorView>(xs),
{
    let d = count_bytes(xs.len()) + enc_imports(xs);
    assert(d.subrange(0, d.len() as int) =~= d);
    lemma_at_split(d, 0, count_bytes(xs.len()), enc_imports(xs));
    lemma_read_leb_u32(d, 0, xs.len() as u32);
    lemma_read_imports(d, count_bytes(xs.len()).len() as int, xs);
}

#[verifier::spinoff_prover]
proof fn lemma_read_tables(s: Seq<u8>, p: int, xs: Seq<TableType>)
    requires
        at(s, p, enc_tables(xs)),
    ensures
        sp_tables(s, p, xs.len()) == Ok::<(Seq<TableType>, int), WasmErrorView>((xs, p + enc_tables(xs).len())),
    decreases xs.len(),
{
    if xs.len() == 0 {
        assert(xs =~= Seq::<TableType>::empty());
    } else {
        let rest = xs.subrange(1, xs.len() as int);
        lemma_tables_front(xs);
        lemma_at_split(s, p, enc_table(xs[0]), enc_tables(rest));
        lemma_read_table(s, p, xs[0]);
        lemma_read_tables(s, p + enc_table(xs[0]).len(), rest);
        assert(seq![xs[0]] + rest =~= xs);
    }
}

#[verifier::spinoff_prover]
proof fn lemma_read_table_section(xs: Seq<TableType>)
    requires
        xs.len() <= u32::MAX,
    ensures
        sp_table_section(count_bytes(xs.len()) + enc_tables(xs)) == Ok::<Seq<TableType>, WasmErrorView>(xs),
{
    let d = count_bytes(xs.len()) + enc_tables(xs);
    assert(d.subrange(0, d.len() as int) =~= d);
    lemma_at_split(d, 0, count_bytes(xs.len()), enc_tables(xs));
    lemma_read_leb_u32(d, 0, xs.len() as u32);
    lemma_read_tables(d, count_bytes(xs.len()).len() as int, xs);
}

#[verifier::spinoff_prover]
proof fn lemma_read_memories(s: Seq<u8>, p: int, xs: Seq<MemType>)
    requires
        at(s, p, enc_memories(xs)),
    ensures
        sp_memories(s, p, xs.len()) == Ok::<(Seq<MemType>, int), WasmErrorView>((xs, p + enc_memories(xs).len())),
    decreases xs.len(),
{
    if xs.len() == 0 {
        assert(xs =~= Seq::<MemType>::empty());
    } else {
        let rest = xs.subrange(1, xs.len() as int);
        lemma_memories_front(xs);
        lemma_at_split(s, p, enc_limits(xs[0].limits), enc_memories(rest));
        lemma_read_memory(s, p, xs[0]);
        lemma_read_memories(s, p + enc_limits(xs[0].limits).len(), rest);
        assert(seq![xs[0]] + rest =~= xs);
    }
}

#[verifier::spinoff_prover]
proof fn lemma_read_memory_section(xs: Seq<MemType>)
    requires
        xs.len() <= u32::MAX,
    ensures
        sp_memory_section(count_bytes(xs.len()) + enc_memories(xs)) == Ok::<Seq<MemType>, WasmErrorView>(xs),
{
    let d = count_bytes(xs.len()) + enc_memories(xs);
    assert(d.subrange(0, d.len() as int) =~= d);
    lemma_at_split(d, 0, count_bytes(xs.len()), enc_memories(xs));
    lemma_read_leb_u32(d, 0, xs.len() as u32);
    lemma_read_memories(d, count_bytes(xs.len()).len() as int, xs);
}

#[verifier::spinoff_prover]
proof fn lemma_read_exports(s: Seq<u8>, p: int, xs: Seq<ExportView>)
    requires
        at(s, p, enc_exports(xs)),
        forall|k: int| 0 <= k < xs.len() ==> #[trigger] export_ok(xs[k]),
    ensures
        sp_exports(s, p, xs.len()) == Ok::<(Seq<ExportView>, int), WasmErrorView>((xs, p + enc_exports(xs).len())),
    decreases xs.len(),
{
    if xs.len() == 0 {
        assert(xs =~= Seq::<ExportView>::empty());
    } else {
        let rest = xs.subrange(1, xs.len() as int);
        assert(export_ok(xs[0]));
        assert forall|k: int| 0 <= k < rest.len() implies #[trigger] export_ok(rest[k]) by {
            assert(rest[k] == xs[k + 1]);
        }
        lemma_exports_front(xs);
        lemma_at_split(s, p, enc_export(xs[0]), enc_exports(rest));
        lemma_read_export(s, p, xs[0]);
        lemma_read_exports(s, p + enc_export(xs[0]).len(), rest);
        assert(seq![xs[0]] + rest =~= xs);
    }
}

#[verifier::spinoff_prover]
proof fn lemma_read_export_section(xs: Seq<ExportView>)
    requires
        xs.len() <= u32::MAX,
        forall|k: int| 0 <= k < xs.len() ==> #[trigger] export_ok(xs[k]),
    ensures
        sp_export_section(count_bytes(xs.len()) + enc_exports(xs)) == Ok::<Seq<ExportView>, WasmErrorView>(xs),
{
    let d = count_bytes(xs.len()) + enc_exports(xs);
    assert(d.subrange(0, d.len() as int) =~= d);
    lemma_at_split(d, 0, count_bytes(xs.len()), enc_exports(xs));
    lemma_read_leb_u32(d, 0, xs.len() as u32);
    lemma_read_exports(d, count_bytes(xs.len()).len() as int, xs);
}

#[verifier::spinoff_prover]
proof fn lemma_read_globals(s: Seq<u8>, p: int, xs: Seq<GlobalView>)
    requires
        at(s, p, emit_globals(xs).0),
        forall|k: int| 0 <= k < xs.len() ==> #[trigger] global_ok(xs[k]),
    ensures
        emit_globals(xs).1 is None,
        sp_globals(s, p, xs.len()) == Ok::<(Seq<GlobalView>, int), WasmErrorView>((xs, p + emit_globals(xs).0.len())),
    decreases xs.len(),
{
    if xs.len() == 0 {
        assert(xs =~= Seq::<GlobalView>::empty());
    } else {
        let rest = xs.subrange(1, xs.len() as int);
        assert(global_ok(xs[0]));
        assert forall|k: int| 0 <= k < rest.len() implies #[trigger] global_ok(rest[k]) by {
            assert(rest[k] == xs[k + 1]);
        }
        lemma_global_emits(xs[0]);
        lemma_at_split(s, p, enc_global(xs[0]).0, emit_globals(rest).0);
        lemma_read_global(s, p, xs[0]);
        lemma_read_globals(s, p + enc_global(xs[0]).0.len(), rest);
        assert(seq![xs[0]] + rest =~= xs);
    }
}

#[verifier::spinoff_prover]
proof fn lemma_read_global_section(xs: Seq<GlobalView>)
    requires
        xs.len() <= u32::MAX,
        forall|k: int| 0 <= k < xs.len() ==> #[trigger] global_ok(xs[k]),
    ensures
        emit_globals(xs).1 is None,
        sp_global_section(count_bytes(xs.len()) + emit_globals(xs).0) == Ok::<Seq<GlobalView>, WasmErrorView>(xs),
{
    let d = count_bytes(xs.len()) + emit_globals(xs).0;
    assert(d.subrange(0, d.len() as int) =~= d);
    lemma_at_split(d, 0, count_bytes(xs.len()), emit_globals(xs).0);
    lemma_read_leb_u32(d, 0, xs.len() as u32);
    lemma_read_globals(d, count_bytes(xs.len()).len() as int, xs);
}

#[verifier::spinoff_prover]
proof fn lemma_read_elements(s: Seq<u8>, p: int, xs: Seq<ElementSegmentView>)
    requires
        at(s, p, emit_elements(xs).0),
        forall|k: int| 0 <= k < xs.len() ==> #[trigger] element_ok(xs[k]),
    ensures
        emit_elements(xs).1 is None,
        sp_elements(s, p, xs.len()) == Ok::<(Seq<ElementSegmentView>, int), WasmErrorView>((xs, p + emit_elements(xs).0.len())),
    decreases xs.len(),
{
    if xs.len() == 0 {
        assert(xs =~= Seq::<ElementSegmentView>::empty());
    } else {
        let rest = xs.subrange(1, xs.len() as int);
        assert(element_ok(xs[0]));
        assert forall|k: int| 0 <= k < rest.len() implies #[trigger] element_ok(rest[k]) by {
            assert(rest[k] == xs[k + 1]);
        }
        lemma_element_emits(xs[0]);
        lemma_at_split(s, p, enc_element(xs[0]).0, emit_elements(rest).0);
        lemma_read_element(s, p, xs[0]);
        lemma_read_elements(s, p + enc_element(xs[0]).0.len(), rest);
        assert(seq![xs[0]] + rest =~= xs);
    }
}

/// Reading back the content of an element section that the encoder writes
/// gives the same segments, for segments of function references whose
/// offsets read back and whose counts fit in 32 bits.
#[verifier::spinoff_prover]
pub proof fn lemma_read_element_section(xs: Seq<ElementSegmentView>)
    requires
        xs.len() <= u32::MAX,
        forall|k: int| 0 <= k < xs.len() ==> #[trigger] element_ok(xs[k]),
    ensures
        emit_elements(xs).1 is None,
        sp_element_section(count_bytes(xs.len()) + emit_elements(xs).0) == Ok::<Seq<ElementSegmentView>, WasmErrorView>(xs),
{
    let d = count_bytes(xs.len()) + emit_elements(xs).0;
    assert(d.subrange(0, d.len() as int) =~= d);
    lemma_at_split(d, 0, count_bytes(xs.len()), emit_elements(xs).0);
    lemma_read_leb_u32(d, 0, xs.len() as u32);
    lemma_read_elements(d, count_bytes(xs.len()).len() as int, xs);
}

#[verifier::spinoff_prover]
proof fn lemma_read_bodies(s: Seq<u8>, p: int, xs: Seq<FunctionBodyView>)
    requires
        at(s, p, emit_bodies(xs).0),
        forall|k: int| 0 <= k < xs.len() ==> #[trigger] body_ok(xs[k]),
    ensures
        emit_bodies(xs).1 is None,
        sp_bodies(s, p, xs.len()) == Ok::<(Seq<FunctionBodyView>, int), WasmErrorView>((xs, p + emit_bodies(xs).0.len())),
    decreases xs.len(),
{
    if xs.len() == 0 {
        assert(xs =~= Seq::<FunctionBodyView>::empty());
    } else {
        let rest = xs.subrange(1, xs.len() as int);
        assert(body_ok(xs[0]));
        assert forall|k: int| 0 <= k < rest.len() implies #[trigger] body_ok(rest[k]) by {
            assert(rest[k] == xs[k + 1]);
        }
        lemma_code_emits(xs[0]);
        lemma_at_split(s, p, enc_body(xs[0]).0, emit_bodies(rest).0);
        lemma_read_body(s, p, xs[0]);
        lemma_read_bodies(s, p + enc_body(xs[0]).0.len(), rest);
        assert(seq![xs[0]] + rest =~= xs);
    }
}

#[verifier::spinoff_prover]
proof fn lemma_read_code_section(xs: Seq<FunctionBodyView>)
    requires
        xs.len() <= u32::MAX,
        forall|k: int| 0 <= k < xs.len() ==> #[trigger] body_ok(xs[k]),
    ensures
        emit_bodies(xs).1 is None,
        sp_code_section(count_bytes(xs.len()) + emit_bodies(xs).0) == Ok::<Seq<FunctionBodyView>, WasmErrorView>(xs),
{
    let d = count_bytes(xs.len()) + emit_bodies(xs).0;
    assert(d.subrange(0, d.len() as int) =~= d);
    lemma_at_split(d, 0, count_bytes(xs.len()), emit_bodies(xs).0);
    lemma_read_leb_u32(d, 0, xs.len() as u32);
    lemma_read_bodies(d, count_bytes(xs.len()).len() as int, xs);
}

#[verifier::spinoff_prover]
proof fn lemma_read_data(s: Seq<u8>, p: int, xs: Seq<DataSegmentView>)
    requires
        at(s, p, emit_data(xs).0),
        forall|k: int| 0 <= k < xs.len() ==> #[trigger] data_ok(xs[k]),
    ensures
        emit_data(xs).1 is None,
        sp_data_segments(s, p, xs.len()) == Ok::<(Seq<DataSegmentView>, int), WasmErrorView>((xs, p + emit_data(xs).0.len())),
    decreases xs.len(),
{
    if xs.len() == 0 {
        assert(xs =~= Seq::<DataSegmentView>::empty());
    } else {
        let rest = xs.subrange(1, xs.len() as int);
        assert(data_ok(xs[0]));
        assert forall|k: int| 0 <= k < rest.len() implies #[trigger] data_ok(rest[k]) by {
            assert(rest[k] == xs[k + 1]);
        }
        lemma_data_emits(xs[0]);
        lemma_at_split(s, p, enc_data_segment(xs[0]).0, emit_data(rest).0);
        lemma_read_data_segment(s, p, xs[0]);
        lemma_read_data(s, p + enc_data_segment(xs[0]).0.len(), rest);
        assert(seq![xs[0]] + rest =~= xs);
    }
}

#[verifier::spinoff_prover]
proof fn lemma_read_data_section(xs: Seq<DataSegmentView>)
    requires
        xs.len() <= u32::MAX,
        forall|k: int| 0 <= k < xs.len() ==> #[trigger] data_ok(xs[k]),
    ensures
        emit_data(xs).1 is None,
        sp_data_section(count_bytes(xs.len()) + emit_data(xs).0) == Ok::<Seq<DataSegmentView>, WasmErrorView>(xs),
{
    let d = count_bytes(xs.len()) + emit_data(xs).0;
    assert(d.subrange(0, d.len() as int) =~= d);
    lemma_at_split(d, 0, count_bytes(xs.len()), emit_data(xs).0);
    lemma_read_leb_u32(d, 0, xs.len() as u32);
    lemma_read_data(d, count_bytes(xs.len()).len() as int, xs);
}

proof fn lemma_global_emits(g: GlobalView)
    requires
        global_ok(g),
    ensures
        enc_global(g).1 is None,
{
    lemma_top_emits(g.init);
}

proof fn lemma_element_emits(e: ElementSegmentView)
    requires
        element_ok(e),
    ensures
        enc_element(e).1 is None,
{
    if let ElementModeView::Active { offset, .. } = e.mode {
        lemma_top_emits(offset);
    }
}

proof fn lemma_code_emits(b: FunctionBodyView)
    requires
        body_ok(b),
    ensures
        enc_body(b).1 is None,
{
    lemma_top_emits(b.instructions);
}

proof fn lemma_data_emits(d: DataSegmentView)
    requires
        data_ok(d),
    ensures
        enc_data_segment(d).1 is None,
{
    if let DataModeView::Active { offset, .. } = d.mode {
        lemma_top_emits(offset);
    }
}

#[verifier::spinoff_prover]
proof fn lemma_read_func_section(xs: Seq<u32>)
    requires
        xs.len() <= u32::MAX,
    ensures
        sp_func_section(count_bytes(xs.len()) + leb_list(xs)) == Ok::<Seq<u32>, WasmErrorView>(xs),
{
    let d = count_bytes(xs.len()) + leb_list(xs);
    assert(d.subrange(0, d.len() as int) =~= d);
    lemma_at_split(d, 0, count_bytes(xs.len()), leb_list(xs));
    lemma_read_leb_u32(d, 0, xs.len() as u32);
    lemma_read_u32_list(d, count_bytes(xs.len()).len() as int, xs);
}

#[verifier::spinoff_prover]
proof fn lemma_read_index_section(v: u32)
    ensures
        sp_start_section(leb_u32(v)) == Ok::<u32, WasmErrorView>(v),
        sp_datacount_section(leb_u32(v)) == Ok::<u32, WasmErrorView>(v),
{
    let d = leb_u32(v);
    assert(d.subrange(0, d.len() as int) =~= d);
    lemma_read_leb_u32(d, 0, v);
}

#[verifier::spinoff_prover]
proof fn lemma_read_custom_section(c: CustomSectionView)
    requires
        name_fits(c.name),
    ensures
        sp_custom_section(enc_name(c.name) + c.data) == Ok::<CustomSectionView, WasmErrorView>(c),
{
    let d = enc_name(c.name) + c.data;
    assert(d.subrange(0, d.len() as int) =~= d);
    lemma_at_split(d, 0, enc_name(c.name), c.data);
    lemma_read_name(d, 0, c.name);
    assert(d.subrange(enc_name(c.name).len() as int, d.len() as int) =~= c.data);
}

// ---------------------------------------------------------------------------
// Modules.

/// The contents of the sections that a module's encoding holds.
pub open spec fn type_content(m: ModuleView) -> Seq<u8> {
    count_bytes(m.types.len()) + enc_func_types(m.types)
}

pub open spec fn import_content(m: ModuleView) -> Seq<u8> {
    count_bytes(m.imports.len()) + enc_imports(m.imports)
}

pub open spec fn func_content(m: ModuleView) -> Seq<u8> {
    count_bytes(m.funcs.len()) + leb_list(m.funcs)
}

pub open spec fn table_content(m: ModuleView) -> Seq<u8> {
    count_bytes(m.tables.len()) + enc_tables(m.tables)
}

pub open spec fn memory_content(m: ModuleView) -> Seq<u8> {
    count_bytes(m.memories.len()) + enc_memories(m.memories)
}

pub open spec fn global_content(m: ModuleView) -> Seq<u8> {
    count_bytes(m.globals.len()) + emit_globals(m.globals).0
}

pub open spec fn export_content(m: ModuleView) -> Seq<u8> {
    count_bytes(m.exports.len()) + enc_exports(m.exports)
}

pub open spec fn element_content(m: ModuleView) -> Seq<u8> {
    count_bytes(m.elements.len()) + emit_elements(m.elements).0
}

pub open spec fn code_content(m: ModuleView) -> Seq<u8> {
    count_bytes(m.code.len()) + emit_bodies(m.code).0
}

pub open spec fn data_content(m: ModuleView) -> Seq<u8> {
    count_bytes(m.data.len()) + emit_data(m.data).0
}

/// A module that reads back from its encoding: every instruction, at any
/// depth, has an encoding and is not `end`;
/// element segments hold function references; imports and exports have
/// one of the four known kinds; and every count, name, body and section
/// fits the 32-bit sizes of the format.
pub open spec fn encodable(m: ModuleView) -> bool {
    &&& m.types.len() <= u32::MAX
    &&& forall|k: int| 0 <= k < m.types.len() ==> #[trigger] func_type_ok(m.types[k])
    &&& m.imports.len() <= u32::MAX
    &&& forall|k: int| 0 <= k < m.imports.len() ==> #[trigger] import_ok(m.imports[k])
    &&& m.funcs.len() <= u32::MAX
    &&& m.tables.len() <= u32::MAX
    &&& m.memories.len() <= u32::MAX
    &&& m.globals.len() <= u32::MAX
    &&& forall|k: int| 0 <= k < m.globals.len() ==> #[trigger] global_ok(m.globals[k])
    &&& m.exports.len() <= u32::MAX
    &&& forall|k: int| 0 <= k < m.exports.len() ==> #[trigger] export_ok(m.exports[k])
    &&& m.elements.len() <= u32::MAX
    &&& forall|k: int| 0 <= k < m.elements.len() ==> #[trigger] element_ok(m.elements[k])
    &&& m.code.len() <= u32::MAX
    &&& forall|k: int| 0 <= k < m.code.len() ==> #[trigger] body_ok(m.code[k])
    &&& m.data.len() <= u32::MAX
    &&& forall|k: int| 0 <= k < m.data.len() ==> #[trigger] data_ok(m.data[k])
    &&& forall|k: int| 0 <= k < m.custom_sections.len() ==> #[trigger] custom_ok(m.custom_sections[k])
    &&& type_content(m).len() <= u32::MAX
    &&& import_content(m).len() <= u32::MAX
    &&& func_content(m).len() <= u32::MAX
    &&& table_content(m).len() <= u32::MAX
    &&& memory_content(m).len() <= u32::MAX
    &&& global_content(m).len() <= u32::MAX
    &&& export_content(m).len() <= u32::MAX
    &&& element_content(m).len() <= u32::MAX
    &&& code_content(m).len() <= u32::MAX
    &&& data_content(m).len() <= u32::MAX
}

/// The module as it stands once the first `k` sections in the order of the
/// encoding have been read: the type, import, function, table, memory,
/// global, export, start, element, data count, code and data sections.
pub open spec fn read_upto(m: ModuleView, k: nat) -> ModuleView {
    ModuleView {
        custom_sections: Seq::empty(),
        types: if k >= 1 { m.types } else { Seq::empty() },
        imports: if k >= 2 { m.imports } else { Seq::empty() },
        funcs: if k >= 3 { m.funcs } else { Seq::empty() },
        tables: if k >= 4 { m.tables } else { Seq::empty() },
        memories: if k >= 5 { m.memories } else { Seq::empty() },
        globals: if k >= 6 { m.globals } else { Seq::empty() },
        exports: if k >= 7 { m.exports } else { Seq::empty() },
        start: if k >= 8 { m.start } else { None },
        elements: if k >= 9 { m.elements } else { Seq::empty() },
        data_count: if k >= 10 { m.data_count } else { None },
        code: if k >= 11 { m.code } else { Seq::empty() },
        data: if k >= 12 { m.data } else { Seq::empty() },
    }
}

proof fn lemma_read_section(s: Seq<u8>, p: int, id: u8, d: Seq<u8>)
    requires
        at(s, p, section(id, d)),
        d.len() <= u32::MAX,
        section_id_of_byte(id) is Some,
    ensures
        sp_section(s, p) == Ok::<((SectionId, Seq<u8>), int), WasmErrorView>(
            ((section_id_of_byte(id)->0, d), p + section(id, d).len()),
        ),
        advanced(s, p, p + section(id, d).len()),
{
    let n = d.len() as u32;
    lemma_at_split(s, p, seq![id] + leb_u32(n), d);
    lemma_at_split(s, p, seq![id], leb_u32(n));
    lemma_read_u8(s, p, id);
    lemma_read_leb_u32(s, p + 1, n);
    lemma_read_bytes(s, p + 1 + leb_u32(n).len(), d);
}

/// Reading a section that is there, or skipping one that is not.
proof fn lemma_sections_step(
    s: Seq<u8>,
    p: int,
    present: bool,
    id: u8,
    d: Seq<u8>,
    before: ModuleView,
    after_read: ModuleView,
)
    requires
        0 <= p <= s.len(),
        present ==> at(s, p, section(id, d)),
        present ==> d.len() <= u32::MAX,
        present ==> section_id_of_byte(id) is Some,
        present ==> apply_section(section_id_of_byte(id)->0, d, before) == Ok::<ModuleView, WasmErrorView>(
            after_read,
        ),
        !present ==> before == after_read,
    ensures
        sp_sections(s, p, before) == sp_sections(s, p + optional_bytes(present, section(id, d)).len(), after_read),
{
    reveal(sp_sections);
    if present {
        lemma_read_section(s, p, id, d);
    }
}

proof fn lemma_custom_is_section(c: CustomSectionView)
    requires
        custom_ok(c),
    ensures
        enc_custom(c) == section(0u8, enc_name(c.name) + c.data),
        (enc_name(c.name) + c.data).len() <= u32::MAX,
{
    let nb = encode_utf8(c.name);
    let total = leb_u32(nb.len() as u32).len() + nb.len() + c.data.len();
    assert(total % 0x1_0000_0000 == total);
    assert((enc_name(c.name) + c.data).len() == total);
    assert(enc_custom(c) =~= section(0u8, enc_name(c.name) + c.data));
}

#[verifier::spinoff_prover]
proof fn lemma_read_customs(s: Seq<u8>, p: int, cs: Seq<CustomSectionView>, acc: ModuleView)
    requires
        at(s, p, enc_customs(cs)),
        p + enc_customs(cs).len() == s.len(),
        forall|k: int| 0 <= k < cs.len() ==> #[trigger] custom_ok(cs[k]),
    ensures
        sp_sections(s, p, acc) == Ok::<ModuleView, WasmErrorView>(
            ModuleView { custom_sections: acc.custom_sections + cs, ..acc },
        ),
    decreases cs.len(),
{
    if cs.len() == 0 {
        reveal(sp_sections);
        assert(acc.custom_sections + cs =~= acc.custom_sections);
    } else {
        let c = cs[0];
        let rest = cs.subrange(1, cs.len() as int);
        assert(custom_ok(c));
        assert forall|k: int| 0 <= k < rest.len() implies #[trigger] custom_ok(rest[k]) by {
            assert(rest[k] == cs[k + 1]);
        }
        lemma_customs_front(cs);
        let d = enc_name(c.name) + c.data;
        lemma_custom_is_section(c);
        lemma_at_split(s, p, enc_custom(c), enc_customs(rest));
        lemma_read_custom_section(c);
        let acc2 = ModuleView { custom_sections: acc.custom_sections.push(c), ..acc };
        assert(section_id_of_byte(0u8) == Some(SectionId::Custom));
        reveal(apply_section);
        assert(apply_section(SectionId::Custom, d, acc) == Ok::<ModuleView, WasmErrorView>(acc2));
        lemma_sections_step(s, p, true, 0u8, d, acc, acc2);
        lemma_read_customs(s, p + enc_custom(c).len(), rest, acc2);
        assert(acc.custom_sections.push(c) + rest =~= acc.custom_sections + cs);
    }
}

#[verifier::spinoff_prover]
proof fn lemma_step_types(s: Seq<u8>, p: int, m: ModuleView)
    requires
        encodable(m),
        0 <= p <= s.len(),
        at(s, p, optional_bytes(m.types.len() > 0, section(1u8, type_content(m)))),
    ensures
        sp_sections(s, p, read_upto(m, 0)) == sp_sections(
            s,
            p + optional_bytes(m.types.len() > 0, section(1u8, type_content(m))).len(),
            read_upto(m, 1),
        ),
{
    if m.types.len() > 0 {
        lemma_read_type_section(m.types);
        reveal(apply_section);
        assert(section_id_of_byte(1u8) == Some(SectionId::Type));
        assert(apply_section(SectionId::Type, type_content(m), read_upto(m, 0)) == Ok::<ModuleView, WasmErrorView>(
            read_upto(m, 1),
        ));
    } else {
        assert(m.types =~= Seq::empty());
        assert(read_upto(m, 0) == read_upto(m, 1));
    }
    lemma_sections_step(s, p, m.types.len() > 0, 1u8, type_content(m), read_upto(m, 0), read_upto(m, 1));
}

#[verifier::spinoff_prover]
proof fn lemma_step_imports(s: Seq<u8>, p: int, m: ModuleView)
    requires
        encodable(m),
        0 <= p <= s.len(),
        at(s, p, optional_bytes(m.imports.len() > 0, section(2u8, import_content(m)))),
    ensures
        sp_sections(s, p, read_upto(m, 1)) == sp_sections(
            s,
            p + optional_bytes(m.imports.len() > 0, section(2u8, import_content(m))).len(),
            read_upto(m, 2),
        ),
{
    if m.imports.len() > 0 {
        lemma_read_import_section(m.imports);
        reveal(apply_section);
        assert(section_id_of_byte(2u8) == Some(SectionId::Import));
        assert(apply_section(SectionId::Import, import_content(m), read_upto(m, 1)) == Ok::<ModuleView, WasmErrorView>(
            read_upto(m, 2),
        ));
    } else {
        assert(m.imports =~= Seq::empty());
        assert(read_upto(m, 1) == read_upto(m, 2));
    }
    lemma_sections_step(s, p, m.imports.len() > 0, 2u8, import_content(m), read_upto(m, 1), read_upto(m, 2));
}

#[verifier::spinoff_prover]
proof fn lemma_step_funcs(s: Seq<u8>, p: int, m: ModuleView)
    requires
        encodable(m),
        0 <= p <= s.len(),
        at(s, p, optional_bytes(m.funcs.len() > 0, section(3u8, func_content(m)))),
    ensures
        sp_sections(s, p, read_upto(m, 2)) == sp_sections(
            s,
            p + optional_bytes(m.funcs.len() > 0, section(3u8, func_content(m))).len(),
            read_upto(m, 3),
        ),
{
    if m.funcs.len() > 0 {
        lemma_read_func_section(m.funcs);
        reveal(apply_section);
        assert(section_id_of_byte(3u8) == Some(SectionId::Function));
        assert(apply_section(SectionId::Function, func_content(m), read_upto(m, 2)) == Ok::<ModuleView, WasmErrorView>(
            read_upto(m, 3),
        ));
    } else {
        assert(m.funcs =~= Seq::empty());
        assert(read_upto(m, 2) == read_upto(m, 3));
    }
    lemma_sections_step(s, p, m.funcs.len() > 0, 3u8, func_content(m), read_upto(m, 2), read_upto(m, 3));
}

#[verifier::spinoff_prover]
proof fn lemma_step_tables(s: Seq<u8>, p: int, m: ModuleView)
    requires
        encodable(m),
        0 <= p <= s.len(),
        at(s, p, optional_bytes(m.tables.len() > 0, section(4u8, table_content(m)))),
    ensures
        sp_sections(s, p, read_upto(m, 3)) == sp_sections(
            s,
            p + optional_bytes(m.tables.len() > 0, section(4u8, table_content(m))).len(),
            read_upto(m, 4),
        ),
{
    if m.tables.len() > 0 {
        lemma_read_table_section(m.tables);
        reveal(apply_section);
        assert(section_id_of_byte(4u8) == Some(SectionId::Table));
        assert(apply_section(SectionId::Table, table_content(m), read_upto(m, 3)) == Ok::<ModuleView, WasmErrorView>(
            read_upto(m, 4),
        ));
    } else {
        assert(m.tables =~= Seq::empty());
        assert(read_upto(m, 3) == read_upto(m, 4));
    }
    lemma_sections_step(s, p, m.tables.len() > 0, 4u8, table_content(m), read_upto(m, 3), read_upto(m, 4));
}

#[verifier::spinoff_prover]
proof fn lemma_step_memories(s: Seq<u8>, p: int, m: ModuleView)
    requires
        encodable(m),
        0 <= p <= s.len(),
        at(s, p, optional_bytes(m.memories.len() > 0, section(5u8, memory_content(m)))),
    ensures
        sp_sections(s, p, read_upto(m, 4)) == sp_sections(
            s,
            p + optional_bytes(m.memories.len() > 0, section(5u8, memory_content(m))).len(),
            read_upto(m, 5),
        ),
{
    if m.memories.len() > 0 {
        lemma_read_memory_section(m.memories);
        reveal(apply_section);
        assert(section_id_of_byte(5u8) == Some(SectionId::Memory));
        assert(apply_section(SectionId::Memory, memory_content(m), read_upto(m, 4)) == Ok::<ModuleView, WasmErrorView>(
            read_upto(m, 5),
        ));
    } else {
        assert(m.memories =~= Seq::empty());
        assert(read_upto(m, 4) == read_upto(m, 5));
    }
    lemma_sections_step(s, p, m.memories.len() > 0, 5u8, memory_content(m), read_upto(m, 4), read_upto(m, 5));
}

#[verifier::spinoff_prover]
proof fn lemma_step_globals(s: Seq<u8>, p: int, m: ModuleView)
    requires
        encodable(m),
        0 <= p <= s.len(),
        at(s, p, optional_bytes(m.globals.len() > 0, section(6u8, global_content(m)))),
    ensures
        sp_sections(s, p, read_upto(m, 5)) == sp_sections(
            s,
            p + optional_bytes(m.globals.len() > 0, section(6u8, global_content(m))).len(),
            read_upto(m, 6),
        ),
{
    if m.globals.len() > 0 {
        lemma_read_global_section(m.globals);
        reveal(apply_section);
        assert(section_id_of_byte(6u8) == Some(SectionId::Global));
        assert(apply_section(SectionId::Global, global_content(m), read_upto(m, 5)) == Ok::<ModuleView, WasmErrorView>(
            read_upto(m, 6),
        ));
    } else {
        assert(m.globals =~= Seq::empty());
        assert(read_upto(m, 5) == read_upto(m, 6));
    }
    lemma_sections_step(s, p, m.globals.len() > 0, 6u8, global_content(m), read_upto(m, 5), read_upto(m, 6));
}

#[verifier::spinoff_prover]
proof fn lemma_step_exports(s: Seq<u8>, p: int, m: ModuleView)
    requires
        encodable(m),
        0 <= p <= s.len(),
        at(s, p, optional_bytes(m.exports.len() > 0, section(7u8, export_content(m)))),
    ensures
        sp_sections(s, p, read_upto(m, 6)) == sp_sections(
            s,
            p + optional_bytes(m.exports.len() > 0, section(7u8, export_content(m))).len(),
            read_upto(m, 7),
        ),
{
    if m.exports.len() > 0 {
        lemma_read_export_section(m.exports);
        reveal(apply_section);
        assert(section_id_of_byte(7u8) == Some(SectionId::Export));
        assert(apply_section(SectionId::Export, export_content(m), read_upto(m, 6)) == Ok::<ModuleView, WasmErrorView>(
            read_upto(m, 7),
        ));
    } else {
        assert(m.exports =~= Seq::empty());
        assert(read_upto(m, 6) == read_upto(m, 7));
    }
    lemma_sections_step(s, p, m.exports.len() > 0, 7u8, export_content(m), read_upto(m, 6), read_upto(m, 7));
}

#[verifier::spinoff_prover]
proof fn lemma_step_start(s: Seq<u8>, p: int, m: ModuleView)
    requires
        encodable(m),
        0 <= p <= s.len(),
        at(s, p, optional_bytes(m.start is Some, section(8u8, leb_u32(m.start->0)))),
    ensures
        sp_sections(s, p, read_upto(m, 7)) == sp_sections(
            s,
            p + optional_bytes(m.start is Some, section(8u8, leb_u32(m.start->0))).len(),
            read_upto(m, 8),
        ),
{
    if m.start is Some {
        lemma_read_index_section(m.start->0);
        lemma_u32_encoding_len(m.start->0);
        reveal(apply_section);
        assert(section_id_of_byte(8u8) == Some(SectionId::Start));
        assert(apply_section(SectionId::Start, leb_u32(m.start->0), read_upto(m, 7)) == Ok::<ModuleView, WasmErrorView>(
            read_upto(m, 8),
        ));
    } else {
        assert(m.start is None);
        assert(read_upto(m, 7) == read_upto(m, 8));
    }
    lemma_sections_step(s, p, m.start is Some, 8u8, leb_u32(m.start->0), read_upto(m, 7), read_upto(m, 8));
}

#[verifier::spinoff_prover]
proof fn lemma_step_elements(s: Seq<u8>, p: int, m: ModuleView)
    requires
        encodable(m),
        0 <= p <= s.len(),
        at(s, p, optional_bytes(m.elements.len() > 0, section(9u8, element_content(m)))),
    ensures
        sp_sections(s, p, read_upto(m, 8)) == sp_sections(
            s,
            p + optional_bytes(m.elements.len() > 0, section(9u8, element_content(m))).len(),
            read_upto(m, 9),
        ),
{
    if m.elements.len() > 0 {
        lemma_read_element_section(m.elements);
        reveal(apply_section);
        assert(section_id_of_byte(9u8) == Some(SectionId::Element));
        assert(apply_section(SectionId::Element, element_content(m), read_upto(m, 8)) == Ok::<ModuleView, WasmErrorView>(
            read_upto(m, 9),
        ));
    } else {
        assert(m.elements =~= Seq::empty());
        assert(read_upto(m, 8) == read_upto(m, 9));
    }
    lemma_sections_step(s, p, m.elements.len() > 0, 9u8, element_content(m), read_upto(m, 8), read_upto(m, 9));
}

#[verifier::spinoff_prover]
proof fn lemma_step_data_count(s: Seq<u8>, p: int, m: ModuleView)
    requires
        encodable(m),
        0 <= p <= s.len(),
        at(s, p, optional_bytes(m.data_count is Some, section(12u8, leb_u32(m.data_count->0)))),
    ensures
        sp_sections(s, p, read_upto(m, 9)) == sp_sections(
            s,
            p + optional_bytes(m.data_count is Some, section(12u8, leb_u32(m.data_count->0))).len(),
            read_upto(m, 10),
        ),
{
    if m.data_count is Some {
        lemma_read_index_section(m.data_count->0);
        lemma_u32_encoding_len(m.data_count->0);
        reveal(apply_section);
        assert(section_id_of_byte(12u8) == Some(SectionId::DataCount));
        assert(apply_section(SectionId::DataCount, leb_u32(m.data_count->0), read_upto(m, 9)) == Ok::<ModuleView, WasmErrorView>(
            read_upto(m, 10),
        ));
    } else {
        assert(m.data_count is None);
        assert(read_upto(m, 9) == read_upto(m, 10));
    }
    lemma_sections_step(s, p, m.data_count is Some, 12u8, leb_u32(m.data_count->0), read_upto(m, 9), read_upto(m, 10));
}

#[verifier::spinoff_prover]
proof fn lemma_step_code(s: Seq<u8>, p: int, m: ModuleView)
    requires
        encodable(m),
        0 <= p <= s.len(),
        at(s, p, optional_bytes(m.code.len() > 0, section(10u8, code_content(m)))),
    ensures
        sp_sections(s, p, read_upto(m, 10)) == sp_sections(
            s,
            p + optional_bytes(m.code.len() > 0, section(10u8, code_content(m))).len(),
            read_upto(m, 11),
        ),
{
    if m.code.len() > 0 {
        lemma_read_code_section(m.code);
        reveal(apply_section);
        assert(section_id_of_byte(10u8) == Some(SectionId::Code));
        assert(apply_section(SectionId::Code, code_content(m), read_upto(m, 10)) == Ok::<ModuleView, WasmErrorView>(
            read_upto(m, 11),
        ));
    } else {
        assert(m.code =~= Seq::empty());
        assert(read_upto(m, 10) == read_upto(m, 11));
    }
    lemma_sections_step(s, p, m.code.len() > 0, 10u8, code_content(m), read_upto(m, 10), read_upto(m, 11));
}

#[verifier::spinoff_prover]
proof fn lemma_step_data(s: Seq<u8>, p: int, m: ModuleView)
    requires
        encodable(m),
        0 <= p <= s.len(),
        at(s, p, optional_bytes(m.data.len() > 0, section(11u8, data_content(m)))),
    ensures
        sp_sections(s, p, read_upto(m, 11)) == sp_sections(
            s,
            p + optional_bytes(m.data.len() > 0, section(11u8, data_content(m))).len(),
            read_upto(m, 12),
        ),
{
    if m.data.len() > 0 {
        lemma_read_data_section(m.data);
        reveal(apply_section);
        assert(section_id_of_byte(11u8) == Some(SectionId::Data));
        assert(apply_section(SectionId::Data, data_content(m), read_upto(m, 11)) == Ok::<ModuleView, WasmErrorView>(
            read_upto(m, 12),
        ));
    } else {
        assert(m.data =~= Seq::empty());
        assert(read_upto(m, 11) == read_upto(m, 12));
    }
    lemma_sections_step(s, p, m.data.len() > 0, 11u8, data_content(m), read_upto(m, 11), read_upto(m, 12));
}

#[verifier::spinoff_prover]
#[verifier::rlimit(100)]
proof fn lemma_leading_sections(s: Seq<u8>, p: int, m: ModuleView)
    requires
        encodable(m),
        0 <= p <= s.len(),
        at(s, p, enc_leading(m)),
    ensures
        sp_sections(s, p, read_upto(m, 0)) == sp_sections(s, p + enc_leading(m).len(), read_upto(m, 5)),
{
    let types = optional_bytes(m.types.len() > 0, section(1u8, type_content(m)));
    let imports = optional_bytes(m.imports.len() > 0, section(2u8, import_content(m)));
    let funcs = optional_bytes(m.funcs.len() > 0, section(3u8, func_content(m)));
    let tables = optional_bytes(m.tables.len() > 0, section(4u8, table_content(m)));
    let memories = optional_bytes(m.memories.len() > 0, section(5u8, memory_content(m)));
    lemma_at_split(s, p, types + imports + funcs + tables, memories);
    lemma_at_split(s, p, types + imports + funcs, tables);
    lemma_at_split(s, p, types + imports, funcs);
    lemma_at_split(s, p, types, imports);
    lemma_step_types(s, p, m);
    lemma_step_imports(s, p + types.len(), m);
    lemma_step_funcs(s, p + types.len() + imports.len(), m);
    lemma_step_tables(s, p + types.len() + imports.len() + funcs.len(), m);
    lemma_step_memories(s, p + types.len() + imports.len() + funcs.len() + tables.len(), m);
}

#[verifier::spinoff_prover]
#[verifier::rlimit(100)]
proof fn lemma_middle_sections(s: Seq<u8>, p: int, m: ModuleView)
    requires
        encodable(m),
        0 <= p <= s.len(),
        at(s, p, enc_middle(m).0),
    ensures
        enc_middle(m).1 is None,
        sp_sections(s, p, read_upto(m, 5)) == sp_sections(s, p + enc_middle(m).0.len(), read_upto(m, 10)),
{
    lemma_middle_shape(m);
    let globals = optional_bytes(m.globals.len() > 0, section(6u8, global_content(m)));
    let exports = optional_bytes(m.exports.len() > 0, section(7u8, export_content(m)));
    let start = optional_bytes(m.start is Some, section(8u8, leb_u32(m.start->0)));
    let elements = optional_bytes(m.elements.len() > 0, section(9u8, element_content(m)));
    let data_count = optional_bytes(m.data_count is Some, section(12u8, leb_u32(m.data_count->0)));
    lemma_at_split(s, p, globals + exports + start + elements, data_count);
    lemma_at_split(s, p, globals + exports + start, elements);
    lemma_at_split(s, p, globals + exports, start);
    lemma_at_split(s, p, globals, exports);
    lemma_step_globals(s, p, m);
    lemma_step_exports(s, p + globals.len(), m);
    lemma_step_start(s, p + globals.len() + exports.len(), m);
    lemma_step_elements(s, p + globals.len() + exports.len() + start.len(), m);
    lemma_step_data_count(s, p + globals.len() + exports.len() + start.len() + elements.len(), m);
}

#[verifier::spinoff_prover]
proof fn lemma_trailing_sections(s: Seq<u8>, p: int, m: ModuleView)
    requires
        encodable(m),
        0 <= p <= s.len(),
        at(s, p, enc_trailing(m).0),
    ensures
        enc_trailing(m).1 is None,
        sp_sections(s, p, read_upto(m, 10)) == sp_sections(s, p + enc_trailing(m).0.len(), read_upto(m, 12)),
{
    lemma_read_code_section(m.code);
    lemma_read_data_section(m.data);
    assert(enc_trailing(m).1 is None);
    assert(enc_trailing(m).0 =~= optional_bytes(m.code.len() > 0, section(10u8, code_content(m))) + optional_bytes(m.data.len() > 0, section(11u8, data_content(m))));
    let code = optional_bytes(m.code.len() > 0, section(10u8, code_content(m)));
    let data = optional_bytes(m.data.len() > 0, section(11u8, data_content(m)));
    lemma_at_split(s, p, code, data);
    lemma_step_code(s, p, m);
    lemma_step_data(s, p + code.len(), m);
}

/// Parsing the encoding of a module gives the module back, for every module
/// whose instructions both the encoder and the decoder handle where they
/// stand and whose counts, names and sizes fit the 32-bit format.
#[verifier::spinoff_prover]
pub proof fn lemma_encode_then_parse(m: ModuleView)
    requires
        encodable(m),
    ensures
        enc_module(m).1 is None,
        sp_parse(enc_module(m).0) == Ok::<ModuleView, WasmErrorView>(m),
{
    let h = wasm_magic() + wasm_version();
    let l = enc_leading(m);
    let c = enc_customs(m.custom_sections);
    let s = enc_module(m).0;
    assert(s.subrange(0, s.len() as int) =~= s);
    assert(at(s, 0, s));
    assert(s.len() >= 0);
    lemma_read_global_section(m.globals);
    lemma_read_element_section(m.elements);
    lemma_read_code_section(m.code);
    lemma_read_data_section(m.data);
    lemma_middle_emits(m);
    let mid = enc_middle(m).0;
    let tr = enc_trailing(m).0;
    assert(s == h + l + mid + tr + c);
    lemma_at_split(s, 0, h + l + mid + tr, c);
    lemma_at_split(s, 0, h + l + mid, tr);
    lemma_at_split(s, 0, h + l, mid);
    lemma_at_split(s, 0, h, l);
    lemma_at_split(s, 0, wasm_magic(), wasm_version());
    lemma_read_bytes(s, 0, wasm_magic());
    lemma_read_bytes(s, 4, wasm_version());
    assert(empty_module_view() == read_upto(m, 0));
    lemma_leading_sections(s, 8, m);
    lemma_middle_sections(s, 8 + l.len() as int, m);
    lemma_trailing_sections(s, 8 + l.len() + mid.len() as int, m);
    lemma_read_customs(s, 8 + l.len() + mid.len() + tr.len() as int, m.custom_sections, read_upto(m, 12));
    assert(Seq::<CustomSectionView>::empty() + m.custom_sections =~= m.custom_sections);
}

proof fn lemma_middle_emits(m: ModuleView)
    requires
        encodable(m),
    ensures
        enc_middle(m).1 is None,
        enc_trailing(m).1 is None,
        enc_module(m).1 is None,
        enc_module(m).0 == wasm_magic() + wasm_version() + enc_leading(m) + enc_middle(m).0 + enc_trailing(m).0
            + enc_customs(m.custom_sections),
{
    lemma_read_global_section(m.globals);
    lemma_read_element_section(m.elements);
    lemma_read_code_section(m.code);
    lemma_read_data_section(m.data);
}

#[verifier::spinoff_prover]
proof fn lemma_middle_shape(m: ModuleView)
    requires
        encodable(m),
    ensures
        enc_middle(m).1 is None,
        enc_middle(m).0 == optional_bytes(m.globals.len() > 0, section(6u8, global_content(m))) + optional_bytes(m.exports.len() > 0, section(7u8, export_content(m))) + optional_bytes(m.start is Some, section(8u8, leb_u32(m.start->0))) + optional_bytes(m.elements.len() > 0, section(9u8, element_content(m))) + optional_bytes(m.data_count is Some, section(12u8, leb_u32(m.data_count->0))),
{
    lemma_read_global_section(m.globals);
    lemma_read_element_section(m.elements);
    assert(enc_middle(m).0 =~= optional_bytes(m.globals.len() > 0, section(6u8, global_content(m))) + optional_bytes(m.exports.len() > 0, section(7u8, export_content(m))) + optional_bytes(m.start is Some, section(8u8, leb_u32(m.start->0))) + optional_bytes(m.elements.len() > 0, section(9u8, element_content(m))) + optional_bytes(m.data_count is Some, section(12u8, leb_u32(m.data_count->0))));
}

/// The instruction decoder that keeps a stack of open blocks reads back the
/// bytes the encoder writes for every instruction holding no others that
/// has an encoding, as the module decoder does.
#[verifier::spinoff_prover]
#[verifier::rlimit(100)]
pub proof fn lemma_stack_decoder_reads_leaf(s: Seq<u8>, p: int, x: Instruction)
    requires
        leaf_ok(x),
        at(s, p, leaf_bytes(x)->0),
    ensures
        sp_nonblock(s, p + 1, leaf_bytes(x)->0[0]) == Ok::<(InstrView, int), WasmErrorView>(
            (InstrView::Leaf(x), p + leaf_bytes(x)->0.len()),
        ),
{
    lemma_read_leaf_instr(s, p, x);
    match x {
        Instruction::Unreachable => {},
        Instruction::Nop => {},
        Instruction::End => {},
        Instruction::Br { .. } => {},
        Instruction::BrIf { .. } => {},
        Instruction::Return => {},
        Instruction::Call { .. } => {},
        Instruction::CallIndirect { .. } => {},
        Instruction::Drop => {},
        Instruction::Select => {},
        Instruction::LocalGet { .. } => {},
        Instruction::LocalSet { .. } => {},
        Instruction::LocalTee { .. } => {},
        Instruction::GlobalGet { .. } => {},
        Instruction::GlobalSet { .. } => {},
        Instruction::I32Load { .. } => {},
        Instruction::I64Load { .. } => {},
        Instruction::F32Load { .. } => {},
        Instruction::F64Load { .. } => {},
        Instruction::I32Const { .. } => {},
        Instruction::I64Const { .. } => {},
        Instruction::F32Const { .. } => {},
        Instruction::F64Const { .. } => {},
        Instruction::I32Eqz => {},
        Instruction::I32Eq => {},
        Instruction::I32Ne => {},
        Instruction::I32Add => {},
        Instruction::I32Sub => {},
        Instruction::I32Mul => {},
        Instruction::I32DivS => {},
        Instruction::I32DivU => {},
        Instruction::I64Add => {},
        Instruction::I64Sub => {},
        Instruction::I64Mul => {},
        Instruction::I32WrapI64 => {},
        Instruction::I64ExtendI32S => {},
        Instruction::I64ExtendI32U => {},
        Instruction::RefNull { .. } => {},
        Instruction::RefIsNull => {},
        Instruction::RefFunc { .. } => {},
        _ => {},
    }
}

/// The module decoder reads every opcode as the instruction that the
/// opcode table gives that byte.
#[verifier::spinoff_prover]
#[verifier::rlimit(100)]
pub proof fn lemma_module_decoder_follows_opcodes(s: Seq<u8>, p: int, op: u8)
    ensures
        sp_leaf_instr(s, p, op) matches Ok((InstrView::Leaf(x), _)) ==> (op_of(x) matches Some(o) && opcode_byte(o)
            == op),
{
    lemma_numeric_instr_matches_opcodes(op);
    if let Ok((m, q)) = sp_mem_arg(s, p) {
        lemma_memory_instr_matches_opcodes(op, m);
    }
}

/// The instruction decoder that keeps a stack of open blocks reads every
/// opcode that is neither a prefix nor reserved as the instruction that
/// the opcode table gives that byte, where the table has it.
#[verifier::spinoff_prover]
#[verifier::rlimit(100)]
pub proof fn lemma_stack_decoder_follows_opcodes(s: Seq<u8>, p: int, op: u8)
    requires
        op < 0xfc,
        !reserved_nop(op),
    ensures
        sp_nonblock(s, p, op) matches Ok((InstrView::Leaf(x), _)) ==> (op_of(x) matches Some(o) ==> opcode_byte(o)
            == op),
{
    lemma_numeric_instr_matches_opcodes(op);
    if let Ok((m, q)) = sp_mem_arg(s, p) {
        lemma_memory_instr_matches_opcodes(op, m);
    }
}

} // verus!
