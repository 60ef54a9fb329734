//! WebAssembly binary encoder.

use vstd::prelude::*;
use vstd::utf8::encode_utf8;
use crate::leb128;
use crate::leb128::{spec_encode_signed, spec_encode_unsigned};
use crate::types::{
    BlockType, FuncType, FuncTypeView, Limits, MemType, TableType, ValueType, block_type_value,
    external_kind_byte, value_type_byte,
};
use crate::ast::{
    CustomSection, CustomSectionView, DataMode, DataModeView, DataSegment, DataSegmentView, ElementMode,
    ElementModeView, ElementSegment, ElementSegmentView, Export, ExportView, FunctionBody, FunctionBodyView,
    Global, GlobalView, Import, ImportView, Local, Module, ModuleView, views,
};
use crate::decode::{wasm_magic, wasm_version};
use crate::error::{WasmError, WasmErrorView};
use crate::text::{unencoded_instruction_text, unencoded_text};
use crate::instruction::{Instruction, InstrView, MemArg, op_of, opcode_byte, instrs_view, lemma_instrs_view_index};

verus! {

/// The unsigned LEB128 bytes of a 32-bit number.
pub open spec fn leb_u32(v: u32) -> Seq<u8> {
    spec_encode_unsigned(v as nat)
}

/// The signed LEB128 bytes of a 32-bit number.
pub open spec fn leb_i32(v: i32) -> Seq<u8> {
    spec_encode_signed(v as int)
}

/// The signed LEB128 bytes of a 64-bit number.
pub open spec fn leb_i64(v: i64) -> Seq<u8> {
    spec_encode_signed(v as int)
}

/// The four little-endian bytes of a 32-bit number.
pub open spec fn le_bytes_u32(v: u32) -> Seq<u8> {
    seq![(v % 0x100) as u8, (v / 0x100 % 0x100) as u8, (v / 0x1_0000 % 0x100) as u8, (v / 0x100_0000) as u8]
}

/// The eight little-endian bytes of a 64-bit number.
pub open spec fn le_bytes_u64(v: u64) -> Seq<u8> {
    le_bytes_u32((v % 0x1_0000_0000) as u32) + le_bytes_u32((v / 0x1_0000_0000) as u32)
}

/// A name: the number of its UTF-8 bytes as LEB128 (cut to 32 bits), then
/// the bytes.
pub open spec fn enc_name(name: Seq<char>) -> Seq<u8> {
    leb_u32(encode_utf8(name).len() as u32) + encode_utf8(name)
}

/// The flags byte of limits: 0x01 where a maximum follows, 0x02 where the
/// memory is shared, 0x04 where it has 64-bit indices.
pub open spec fn limits_flags(l: Limits) -> u8 {
    (if l.max is Some { 0x01u8 } else { 0u8 }) | (if l.shared { 0x02u8 } else { 0u8 }) | (if l.memory64 {
        0x04u8
    } else {
        0u8
    })
}

/// Limits: the flags byte, the minimum, then the maximum where there is one.
pub open spec fn enc_limits(l: Limits) -> Seq<u8> {
    seq![limits_flags(l)] + leb_u32(l.min) + match l.max {
        Some(max) => leb_u32(max),
        None => Seq::empty(),
    }
}

/// A memory argument: alignment, then offset.
pub open spec fn enc_mem_arg(m: MemArg) -> Seq<u8> {
    leb_u32(m.align) + leb_u32(m.offset)
}

/// Binary encoder for WASM: the bytes written so far.
pub struct Encoder {
    bytes: Vec<u8>,
}

impl View for Encoder {
    type V = Seq<u8>;

    closed spec fn view(&self) -> Seq<u8> {
        self.bytes@
    }
}

impl Encoder {
    pub fn new() -> (r: Encoder)
        ensures
            r@ == Seq::<u8>::empty(),
    {
        Encoder { bytes: Vec::new() }
    }

    /// The bytes written.
    pub fn into_bytes(self) -> (r: Vec<u8>)
        ensures
            r@ == self@,
    {
        self.bytes
    }

    fn write_u8(&mut self, value: u8)
        ensures
            final(self)@ == old(self)@.push(value),
    {
        self.bytes.push(value);
    }

    fn write_slice(&mut self, slice: &[u8])
        ensures
            final(self)@ == old(self)@ + slice@,
    {
        self.bytes.extend_from_slice(slice);
        assert(self.bytes@ =~= old(self).bytes@ + slice@);
    }

    fn write_u32_le(&mut self, value: u32)
        ensures
            final(self)@ == old(self)@ + le_bytes_u32(value),
    {
        self.write_u8((value % 0x100) as u8);
        self.write_u8((value / 0x100 % 0x100) as u8);
        self.write_u8((value / 0x1_0000 % 0x100) as u8);
        self.write_u8((value / 0x100_0000) as u8);
        assert(self@ =~= old(self)@ + le_bytes_u32(value));
    }

    fn write_u64_le(&mut self, value: u64)
        ensures
            final(self)@ == old(self)@ + le_bytes_u64(value),
    {
        self.write_u32_le((value % 0x1_0000_0000) as u32);
        self.write_u32_le((value / 0x1_0000_0000) as u32);
        assert(self@ =~= old(self)@ + le_bytes_u64(value));
    }

    fn write_u32_leb128(&mut self, value: u32)
        ensures
            final(self)@ == old(self)@ + leb_u32(value),
    {
        let bytes = leb128::encode_u32(value);
        self.write_slice(bytes.as_slice());
    }

    fn write_i32_leb128(&mut self, value: i32)
        ensures
            final(self)@ == old(self)@ + leb_i32(value),
    {
        let bytes = leb128::encode_i32(value);
        self.write_slice(bytes.as_slice());
    }

    fn write_i64_leb128(&mut self, value: i64)
        ensures
            final(self)@ == old(self)@ + leb_i64(value),
    {
        let bytes = leb128::encode_i64(value);
        self.write_slice(bytes.as_slice());
    }

    fn write_name(&mut self, name: &str)
        ensures
            final(self)@ == old(self)@ + enc_name(name@),
    {
        let bytes = name.as_bytes();
        self.write_u32_leb128(bytes.len() as u32);
        self.write_slice(bytes);
        assert(self@ =~= old(self)@ + enc_name(name@));
    }
}

fn encode_limits(encoder: &mut Encoder, limits: &Limits)
    ensures
        final(encoder)@ == old(encoder)@ + enc_limits(*limits),
{
    let mut flags: u8 = 0;
    if limits.max.is_some() {
        flags |= 0x01;
    }
    if limits.shared {
        flags |= 0x02;
    }
    if limits.memory64 {
        flags |= 0x04;
    }
    proof {
        let a: u8 = if limits.max is Some { 0x01u8 } else { 0u8 };
        let b: u8 = if limits.shared { 0x02u8 } else { 0u8 };
        let c: u8 = if limits.memory64 { 0x04u8 } else { 0u8 };
        assert(((0u8 | a) | b) | c == (a | b) | c) by (bit_vector);
        assert(0u8 | 0u8 == 0u8) by (bit_vector);
        assert(forall|x: u8| #[trigger] (x | 0u8) == x) by (bit_vector);
    }
    encoder.write_u8(flags);
    encoder.write_u32_leb128(limits.min);
    if let Some(max) = limits.max {
        encoder.write_u32_leb128(max);
    }
    assert(encoder@ =~= old(encoder)@ + enc_limits(*limits));
}

fn encode_mem_arg(encoder: &mut Encoder, mem_arg: &MemArg)
    ensures
        final(encoder)@ == old(encoder)@ + enc_mem_arg(*mem_arg),
{
    encoder.write_u32_leb128(mem_arg.align);
    encoder.write_u32_leb128(mem_arg.offset);
    assert(encoder@ =~= old(encoder)@ + enc_mem_arg(*mem_arg));
}

/// The bytes of an instruction that holds no other instructions, `None`
/// for those the encoder has no encoding for.
pub open spec fn leaf_bytes(i: Instruction) -> Option<Seq<u8>> {
    match i {
        Instruction::Unreachable => Some(seq![0x00u8]),
        Instruction::Nop => Some(seq![0x01u8]),
        Instruction::End => Some(seq![0x0bu8]),
        Instruction::Br { label_idx } => Some(seq![0x0cu8] + leb_u32(label_idx)),
        Instruction::BrIf { label_idx } => Some(seq![0x0du8] + leb_u32(label_idx)),
        Instruction::Return => Some(seq![0x0fu8]),
        Instruction::Call { function_idx } => Some(seq![0x10u8] + leb_u32(function_idx)),
        Instruction::CallIndirect { type_idx, table_idx } => Some(seq![0x11u8] + leb_u32(type_idx) + leb_u32(table_idx)),
        Instruction::Drop => Some(seq![0x1au8]),
        Instruction::Select => Some(seq![0x1bu8]),
        Instruction::LocalGet { local_idx } => Some(seq![0x20u8] + leb_u32(local_idx)),
        Instruction::LocalSet { local_idx } => Some(seq![0x21u8] + leb_u32(local_idx)),
        Instruction::LocalTee { local_idx } => Some(seq![0x22u8] + leb_u32(local_idx)),
        Instruction::GlobalGet { global_idx } => Some(seq![0x23u8] + leb_u32(global_idx)),
        Instruction::GlobalSet { global_idx } => Some(seq![0x24u8] + leb_u32(global_idx)),
        Instruction::I32Load { mem_arg } => Some(seq![0x28u8] + enc_mem_arg(mem_arg)),
        Instruction::I64Load { mem_arg } => Some(seq![0x29u8] + enc_mem_arg(mem_arg)),
        Instruction::F32Load { mem_arg } => Some(seq![0x2au8] + enc_mem_arg(mem_arg)),
        Instruction::F64Load { mem_arg } => Some(seq![0x2bu8] + enc_mem_arg(mem_arg)),
        Instruction::I32Const { value } => Some(seq![0x41u8] + leb_i32(value)),
        Instruction::I64Const { value } => Some(seq![0x42u8] + leb_i64(value)),
        Instruction::F32Const { bits } => Some(seq![0x43u8] + le_bytes_u32(bits)),
        Instruction::F64Const { bits } => Some(seq![0x44u8] + le_bytes_u64(bits)),
        Instruction::I32Eqz => Some(seq![0x45u8]),
        Instruction::I32Eq => Some(seq![0x46u8]),
        Instruction::I32Ne => Some(seq![0x47u8]),
        Instruction::I32Add => Some(seq![0x6au8]),
        Instruction::I32Sub => Some(seq![0x6bu8]),
        Instruction::I32Mul => Some(seq![0x6cu8]),
        Instruction::I32DivS => Some(seq![0x6du8]),
        Instruction::I32DivU => Some(seq![0x6eu8]),
        Instruction::I64Add => Some(seq![0x7cu8]),
        Instruction::I64Sub => Some(seq![0x7du8]),
        Instruction::I64Mul => Some(seq![0x7eu8]),
        Instruction::I32WrapI64 => Some(seq![0xa7u8]),
        Instruction::I64ExtendI32S => Some(seq![0xacu8]),
        Instruction::I64ExtendI32U => Some(seq![0xadu8]),
        Instruction::RefNull { ty } => Some(seq![0xd0u8, value_type_byte(ty)]),
        Instruction::RefIsNull => Some(seq![0xd1u8]),
        Instruction::RefFunc { func_idx } => Some(seq![0xd2u8] + leb_u32(func_idx)),
        _ => None,
    }
}

/// The bytes of every instruction holding no others that has an encoding
/// begin with the byte that the opcode table gives its opcode.
#[verifier::spinoff_prover]
#[verifier::rlimit(100)]
pub proof fn lemma_leaf_bytes_begin_with_opcode(x: Instruction)
    ensures
        leaf_bytes(x) matches Some(b) ==> (b.len() >= 1 && (op_of(x) matches Some(o) && b[0] == opcode_byte(o))),
{
}

/// What an encoder wrote, and the instruction it stopped at, if it met one
/// that it has no encoding for.
pub type Emitted = (Seq<u8>, Option<InstrView>);

/// `pre`, then what `e` wrote.
pub open spec fn after(pre: Seq<u8>, e: Emitted) -> Emitted {
    (pre + e.0, e.1)
}

/// What `a` wrote, then, where `a` did not stop, what `b` wrote.
pub open spec fn chain(a: Emitted, b: Emitted) -> Emitted {
    if a.1 is Some {
        a
    } else {
        after(a.0, b)
    }
}

/// A block type, as the signed LEB128 bytes of its value cut to 32 bits.
pub open spec fn enc_block_type(bt: BlockType) -> Seq<u8> {
    leb_i32(block_type_value(bt) as i32)
}

/// The unsigned LEB128 bytes of each number, one after another.
pub open spec fn leb_list(xs: Seq<u32>) -> Seq<u8>
    decreases xs.len(),
{
    if xs.len() == 0 {
        Seq::empty()
    } else {
        leb_list(xs.drop_last()) + leb_u32(xs.last())
    }
}

/// An instruction. An `if` writes its then branch, then where the else
/// branch is not empty the else opcode and the else branch, then one end.
pub open spec fn enc_instr(i: InstrView) -> Emitted
    decreases i,
{
    match i {
        InstrView::Leaf(x) => match leaf_bytes(x) {
            Some(b) => (b, None),
            None => (Seq::empty(), Some(i)),
        },
        InstrView::Block { block_type, body } => after(
            seq![0x02u8] + enc_block_type(block_type),
            enc_instrs(body),
        ),
        InstrView::Loop { block_type, body } => after(
            seq![0x03u8] + enc_block_type(block_type),
            enc_instrs(body),
        ),
        InstrView::If { block_type, then_branch, else_branch } => {
            let head = seq![0x04u8] + enc_block_type(block_type);
            let t = enc_instrs(then_branch);
            if t.1 is Some || else_branch.len() == 0 {
                after(head, t)
            } else {
                after(head + open(t) + seq![0x05u8], enc_instrs(else_branch))
            }
        },
        InstrView::BrTable { labels, default_label } => (
            seq![0x0eu8] + leb_u32(labels.len() as u32) + leb_list(labels) + leb_u32(default_label),
            None,
        ),
        InstrView::SelectTyped { .. } => (Seq::empty(), Some(i)),
    }
}

/// What was written of an expression before its end opcode: all of it
/// where it stopped at an instruction, which writes no end.
pub open spec fn open(e: Emitted) -> Seq<u8> {
    if e.1 is None {
        e.0.drop_last()
    } else {
        e.0
    }
}

/// An expression: its instructions, then the end opcode 0x0b.
pub open spec fn enc_instrs(s: Seq<InstrView>) -> Emitted
    decreases s,
{
    if s.len() == 0 {
        (seq![0x0bu8], None)
    } else {
        chain(enc_instr(s[0]), enc_instrs(s.subrange(1, s.len() as int)))
    }
}

/// Where an encoder stopped, it stopped at an instruction with no encoding:
/// one holding no others without bytes of its own, or a typed select.
pub open spec fn stops_at_unencoded(e: Emitted) -> bool {
    e.1 matches Some(j) ==> (j matches InstrView::Leaf(x) && leaf_bytes(x) is None) || j is SelectTyped
}

/// The encoder of an instruction stops only at an instruction with no
/// encoding.
pub proof fn lemma_instr_stops_at_unencoded(i: InstrView)
    ensures
        stops_at_unencoded(enc_instr(i)),
    decreases i, 1int,
{
    match i {
        InstrView::Block { body, .. } => lemma_instrs_stop_at_unencoded(body),
        InstrView::Loop { body, .. } => lemma_instrs_stop_at_unencoded(body),
        InstrView::If { then_branch, else_branch, .. } => {
            lemma_instrs_stop_at_unencoded(then_branch);
            lemma_instrs_stop_at_unencoded(else_branch);
        },
        _ => {},
    }
}

/// The encoder of an expression stops only at an instruction with no
/// encoding.
pub proof fn lemma_instrs_stop_at_unencoded(m: Seq<InstrView>)
    ensures
        stops_at_unencoded(enc_instrs(m)),
    decreases m, 0int,
{
    if m.len() > 0 {
        lemma_instr_stops_at_unencoded(m[0]);
        lemma_instrs_stop_at_unencoded(m.subrange(1, m.len() as int));
    }
}

/// The message of the error for an instruction that has no encoding.
pub open spec fn unimplemented_message(instr: InstrView) -> Seq<char> {
    "Unimplemented instruction: "@ + unencoded_text(instr)
}

/// The message of the error for an instruction with no encoding.
fn unimplemented_instruction(instr: &Instruction) -> (r: String)
    ensures
        r@ == unimplemented_message(instr@),
{
    let mut r = String::from_str("Unimplemented instruction: ");
    let text = unencoded_instruction_text(instr);
    r.append(text.as_str());
    r
}

/// The result of an encoder that wrote `e`: success where it did not stop,
/// else the error for the instruction it stopped at.
pub open spec fn emit_result(r: Result<(), WasmError>, e: Emitted) -> bool {
    match r {
        Ok(_) => e.1 is None,
        Err(err) => e.1 is Some && err@ == WasmErrorView::Custom(unimplemented_message(e.1->0)),
    }
}

proof fn lemma_enc_instrs_step(m: Seq<InstrView>, i: int)
    requires
        0 <= i < m.len(),
    ensures
        enc_instrs(m.subrange(i, m.len() as int)) == chain(
            enc_instr(m[i]),
            enc_instrs(m.subrange(i + 1, m.len() as int)),
        ),
{
    let t = m.subrange(i, m.len() as int);
    assert(t.subrange(1, t.len() as int) =~= m.subrange(i + 1, m.len() as int));
    assert(t[0] == m[i]);
}

proof fn lemma_chain_after(pre: Seq<u8>, a: Emitted, b: Emitted)
    ensures
        after(pre, chain(a, b)) == chain(after(pre, a), b),
{
    assert(pre + (a.0 + b.0) =~= (pre + a.0) + b.0);
}

/// An expression that ends with the end opcode 0x0b, and only where it
/// did not stop.
pub proof fn lemma_enc_instrs_end(m: Seq<InstrView>)
    ensures
        enc_instrs(m).1 is None ==> enc_instrs(m).0.len() >= 1 && enc_instrs(m).0.last() == 0x0bu8
            && enc_instrs(m).0 == open(enc_instrs(m)).push(0x0bu8),
    decreases m.len(),
{
    if m.len() > 0 {
        lemma_enc_instrs_end(m.subrange(1, m.len() as int));
    }
    if enc_instrs(m).1 is None {
        assert(enc_instrs(m).0 =~= enc_instrs(m).0.drop_last().push(0x0bu8));
    }
}

/// Encode an expression, then its end opcode.
fn encode_instructions(encoder: &mut Encoder, instructions: &[Instruction]) -> (r: Result<(), WasmError>)
    ensures
        final(encoder)@ == old(encoder)@ + enc_instrs(instrs_view(instructions@)).0,
        emit_result(r, enc_instrs(instrs_view(instructions@))),
{
    let res = encode_instruction_seq(encoder, instructions);
    proof {
        lemma_enc_instrs_end(instrs_view(instructions@));
    }
    if res.is_err() {
        return res;
    }
    encoder.write_u8(0x0b);
    proof {
        let e = enc_instrs(instrs_view(instructions@));
        assert(encoder@ =~= old(encoder)@ + e.0);
    }
    Ok(())
}

/// Encode the instructions of an expression, without its end opcode.
fn encode_instruction_seq(encoder: &mut Encoder, instructions: &[Instruction]) -> (r: Result<(), WasmError>)
    ensures
        final(encoder)@ == old(encoder)@ + open(enc_instrs(instrs_view(instructions@))),
        emit_result(r, enc_instrs(instrs_view(instructions@))),
    decreases instructions@,
{
    let ghost m = instrs_view(instructions@);
    proof {
        lemma_instrs_view_index(instructions@);
        assert(m.subrange(0, m.len() as int) =~= m);
    }
    let mut i: usize = 0;
    while i < instructions.len()
        invariant
            i <= instructions@.len(),
            m == instrs_view(instructions@),
            m.len() == instructions@.len(),
            forall|j: int| 0 <= j < instructions@.len() ==> #[trigger] m[j] == instructions@[j]@,
            after(old(encoder)@, enc_instrs(m)) == after(encoder@, enc_instrs(m.subrange(i as int, m.len() as int))),
        decreases instructions@.len() - i,
    {
        let ghost before = encoder@;
        proof {
            lemma_enc_instrs_step(m, i as int);
            lemma_chain_after(before, enc_instr(m[i as int]), enc_instrs(m.subrange(i + 1, m.len() as int)));
        }
        let res = encode_instruction(encoder, &instructions[i]);
        if res.is_err() {
            assert(m.subrange(i as int, m.len() as int)[0] == m[i as int]);
            return res;
        }
        i += 1;
    }
    proof {
        assert(m.subrange(i as int, m.len() as int) =~= Seq::<InstrView>::empty());
        let e = enc_instrs(m);
        let x = encoder@;
        let o = old(encoder)@;
        assert(o + e.0 == x + seq![0x0bu8]);
        assert(e.1 is None);
        lemma_enc_instrs_end(m);
        assert((o + e.0).len() == (x + seq![0x0bu8]).len());
        assert forall|k: int| 0 <= k < x.len() implies #[trigger] x[k] == (o + open(e))[k] by {
            assert(x[k] == (x + seq![0x0bu8])[k]);
            assert(x[k] == (o + e.0)[k]);
            if k >= o.len() {
                assert((o + e.0)[k] == e.0[k - o.len()]);
                assert((o + open(e))[k] == open(e)[k - o.len()]);
            }
        }
        assert(x =~= o + open(e));
    }
    Ok(())
}

#[verifier::spinoff_prover]
#[verifier::rlimit(40)]
fn encode_instruction(encoder: &mut Encoder, instr: &Instruction) -> (r: Result<(), WasmError>)
    ensures
        final(encoder)@ == old(encoder)@ + enc_instr(instr@).0,
        emit_result(r, enc_instr(instr@)),
    decreases instr,
{
    match instr {
        Instruction::Unreachable => {
            encoder.write_u8(0x00u8);
        }
        Instruction::Nop => {
            encoder.write_u8(0x01u8);
        }
        Instruction::End => {
            encoder.write_u8(0x0bu8);
        }
        Instruction::Br { label_idx } => {
            encoder.write_u8(0x0cu8);
            encoder.write_u32_leb128(*label_idx);
        }
        Instruction::BrIf { label_idx } => {
            encoder.write_u8(0x0du8);
            encoder.write_u32_leb128(*label_idx);
        }
        Instruction::Return => {
            encoder.write_u8(0x0fu8);
        }
        Instruction::Call { function_idx } => {
            encoder.write_u8(0x10u8);
            encoder.write_u32_leb128(*function_idx);
        }
        Instruction::CallIndirect { type_idx, table_idx } => {
            encoder.write_u8(0x11u8);
            encoder.write_u32_leb128(*type_idx);
            encoder.write_u32_leb128(*table_idx);
        }
        Instruction::Drop => {
            encoder.write_u8(0x1au8);
        }
        Instruction::Select => {
            encoder.write_u8(0x1bu8);
        }
        Instruction::LocalGet { local_idx } => {
            encoder.write_u8(0x20u8);
            encoder.write_u32_leb128(*local_idx);
        }
        Instruction::LocalSet { local_idx } => {
            encoder.write_u8(0x21u8);
            encoder.write_u32_leb128(*local_idx);
        }
        Instruction::LocalTee { local_idx } => {
            encoder.write_u8(0x22u8);
            encoder.write_u32_leb128(*local_idx);
        }
        Instruction::GlobalGet { global_idx } => {
            encoder.write_u8(0x23u8);
            encoder.write_u32_leb128(*global_idx);
        }
        Instruction::GlobalSet { global_idx } => {
            encoder.write_u8(0x24u8);
            encoder.write_u32_leb128(*global_idx);
        }
        Instruction::I32Load { mem_arg } => {
            encoder.write_u8(0x28u8);
            encode_mem_arg(encoder, mem_arg);
        }
        Instruction::I64Load { mem_arg } => {
            encoder.write_u8(0x29u8);
            encode_mem_arg(encoder, mem_arg);
        }
        Instruction::F32Load { mem_arg } => {
            encoder.write_u8(0x2au8);
            encode_mem_arg(encoder, mem_arg);
        }
        Instruction::F64Load { mem_arg } => {
            encoder.write_u8(0x2bu8);
            encode_mem_arg(encoder, mem_arg);
        }
        Instruction::I32Const { value } => {
            encoder.write_u8(0x41u8);
            encoder.write_i32_leb128(*value);
        }
        Instruction::I64Const { value } => {
            encoder.write_u8(0x42u8);
            encoder.write_i64_leb128(*value);
        }
        Instruction::F32Const { bits } => {
            encoder.write_u8(0x43u8);
            encoder.write_u32_le(*bits);
        }
        Instruction::F64Const { bits } => {
            encoder.write_u8(0x44u8);
            encoder.write_u64_le(*bits);
        }
        Instruction::I32Eqz => {
            encoder.write_u8(0x45u8);
        }
        Instruction::I32Eq => {
            encoder.write_u8(0x46u8);
        }
        Instruction::I32Ne => {
            encoder.write_u8(0x47u8);
        }
        Instruction::I32Add => {
            encoder.write_u8(0x6au8);
        }
        Instruction::I32Sub => {
            encoder.write_u8(0x6bu8);
        }
        Instruction::I32Mul => {
            encoder.write_u8(0x6cu8);
        }
        Instruction::I32DivS => {
            encoder.write_u8(0x6du8);
        }
        Instruction::I32DivU => {
            encoder.write_u8(0x6eu8);
        }
        Instruction::I64Add => {
            encoder.write_u8(0x7cu8);
        }
        Instruction::I64Sub => {
            encoder.write_u8(0x7du8);
        }
        Instruction::I64Mul => {
            encoder.write_u8(0x7eu8);
        }
        Instruction::I32WrapI64 => {
            encoder.write_u8(0xa7u8);
        }
        Instruction::I64ExtendI32S => {
            encoder.write_u8(0xacu8);
        }
        Instruction::I64ExtendI32U => {
            encoder.write_u8(0xadu8);
        }
        Instruction::RefNull { ty } => {
            encoder.write_u8(0xd0u8);
            encoder.write_u8(ty.to_byte());
        }
        Instruction::RefIsNull => {
            encoder.write_u8(0xd1u8);
        }
        Instruction::RefFunc { func_idx } => {
            encoder.write_u8(0xd2u8);
            encoder.write_u32_leb128(*func_idx);
        }

        Instruction::Block { block_type, body } => {
            encoder.write_u8(0x02);
            encoder.write_i32_leb128(block_type.to_i64() as i32);
            let res = encode_instruction_seq(encoder, body.as_slice());
            proof {
                lemma_enc_instrs_end(instrs_view(body@));
            }
            if res.is_err() {
                return res;
            }
            encoder.write_u8(0x0b);
        },
        Instruction::Loop { block_type, body } => {
            encoder.write_u8(0x03);
            encoder.write_i32_leb128(block_type.to_i64() as i32);
            let res = encode_instruction_seq(encoder, body.as_slice());
            proof {
                lemma_enc_instrs_end(instrs_view(body@));
            }
            if res.is_err() {
                return res;
            }
            encoder.write_u8(0x0b);
        },
        Instruction::If { block_type, then_branch, else_branch } => {
            encoder.write_u8(0x04);
            encoder.write_i32_leb128(block_type.to_i64() as i32);
            let res = encode_instruction_seq(encoder, then_branch.as_slice());
            proof {
                lemma_enc_instrs_end(instrs_view(then_branch@));
                lemma_enc_instrs_end(instrs_view(else_branch@));
            }
            if res.is_err() {
                return res;
            }
            if !else_branch.is_empty() {
                encoder.write_u8(0x05);
                let res = encode_instruction_seq(encoder, else_branch.as_slice());
                if res.is_err() {
                    return res;
                }
            }
            encoder.write_u8(0x0b);
            return Ok(());
        },
        Instruction::BrTable { labels, default_label } => {
            encoder.write_u8(0x0e);
            encoder.write_u32_leb128(labels.len() as u32);
            let mut k: usize = 0;
            while k < labels.len()
                invariant
                    k <= labels@.len(),
                    encoder@ == old(encoder)@ + seq![0x0eu8] + leb_u32(labels@.len() as u32) + leb_list(labels@.subrange(0, k as int)),
                decreases labels@.len() - k,
            {
                encoder.write_u32_leb128(labels[k]);
                proof {
                    let t = labels@.subrange(0, k as int + 1);
                    assert(t.drop_last() =~= labels@.subrange(0, k as int));
                }
                k += 1;
            }
            assert(labels@.subrange(0, k as int) =~= labels@);
            encoder.write_u32_leb128(*default_label);
        },
        _ => return Err(WasmError::Custom(unimplemented_instruction(instr))),
    }
    Ok(())
}

// ---------------------------------------------------------------------------
// Sections.

/// A section: its id, the size of its contents as LEB128 (cut to 32 bits),
/// then the contents.
pub open spec fn section(id: u8, content: Seq<u8>) -> Seq<u8> {
    seq![id] + leb_u32(content.len() as u32) + content
}

/// A section whose contents were written by `e`; nothing where `e` stopped.
pub open spec fn section_emitted(id: u8, e: Emitted) -> Emitted {
    if e.1 is Some {
        (Seq::empty(), e.1)
    } else {
        (section(id, e.0), None)
    }
}

/// The count of a list, as LEB128 cut to 32 bits.
pub open spec fn count_bytes(n: nat) -> Seq<u8> {
    leb_u32(n as u32)
}

/// The byte of each value type, one after another.
pub open spec fn enc_value_types(ts: Seq<ValueType>) -> Seq<u8>
    decreases ts.len(),
{
    if ts.len() == 0 {
        Seq::empty()
    } else {
        enc_value_types(ts.drop_last()) + seq![value_type_byte(ts.last())]
    }
}

/// A function type: the form byte 0x60, then the parameter types and the
/// result types, each list with its count first.
pub open spec fn enc_func_type(f: FuncTypeView) -> Seq<u8> {
    seq![0x60u8] + count_bytes(f.params.len()) + enc_value_types(f.params) + count_bytes(f.results.len())
        + enc_value_types(f.results)
}

/// Function types, one after another.
pub open spec fn enc_func_types(xs: Seq<FuncTypeView>) -> Seq<u8>
    decreases xs.len(),
{
    if xs.len() == 0 {
        Seq::empty()
    } else {
        enc_func_types(xs.drop_last()) + enc_func_type(xs.last())
    }
}

/// An import: module name, field name, kind byte, index.
pub open spec fn enc_import(i: ImportView) -> Seq<u8> {
    enc_name(i.module) + enc_name(i.name) + seq![external_kind_byte(i.kind)] + leb_u32(i.idx)
}

/// Imports, one after another.
pub open spec fn enc_imports(xs: Seq<ImportView>) -> Seq<u8>
    decreases xs.len(),
{
    if xs.len() == 0 {
        Seq::empty()
    } else {
        enc_imports(xs.drop_last()) + enc_import(xs.last())
    }
}

/// A table: element type byte, then limits.
pub open spec fn enc_table(t: TableType) -> Seq<u8> {
    seq![value_type_byte(t.elem_type)] + enc_limits(t.limits)
}

/// Tables, one after another.
pub open spec fn enc_tables(xs: Seq<TableType>) -> Seq<u8>
    decreases xs.len(),
{
    if xs.len() == 0 {
        Seq::empty()
    } else {
        enc_tables(xs.drop_last()) + enc_table(xs.last())
    }
}

/// Memories, one after another, each as its limits.
pub open spec fn enc_memories(xs: Seq<MemType>) -> Seq<u8>
    decreases xs.len(),
{
    if xs.len() == 0 {
        Seq::empty()
    } else {
        enc_memories(xs.drop_last()) + enc_limits(xs.last().limits)
    }
}

/// An export: name, kind byte, index.
pub open spec fn enc_export(e: ExportView) -> Seq<u8> {
    enc_name(e.name) + seq![external_kind_byte(e.kind)] + leb_u32(e.idx)
}

/// Exports, one after another.
pub open spec fn enc_exports(xs: Seq<ExportView>) -> Seq<u8>
    decreases xs.len(),
{
    if xs.len() == 0 {
        Seq::empty()
    } else {
        enc_exports(xs.drop_last()) + enc_export(xs.last())
    }
}

/// A global: value type byte, mutability byte (0x01 mutable, 0x00 not),
/// then the initialization expression.
pub open spec fn enc_global(g: GlobalView) -> Emitted {
    after(seq![value_type_byte(g.ty.value_type), if g.ty.mutable { 0x01u8 } else { 0x00u8 }], enc_instrs(g.init))
}

/// Globals, one after another, up to the first that stops.
pub open spec fn emit_globals(xs: Seq<GlobalView>) -> Emitted
    decreases xs.len(),
{
    if xs.len() == 0 {
        (Seq::empty(), None)
    } else {
        chain(enc_global(xs[0]), emit_globals(xs.subrange(1, xs.len() as int)))
    }
}

/// An element segment: its mode (flags 1 passive; 0 active on table 0 or
/// 2 and the table index, then the offset; 3 declared), then the function
/// indices with their count first.
pub open spec fn enc_element(e: ElementSegmentView) -> Emitted {
    let mode: Emitted = match e.mode {
        ElementModeView::Passive => (leb_u32(1), None),
        ElementModeView::Active { table_idx, offset } => after(
            if table_idx == 0 {
                leb_u32(0)
            } else {
                leb_u32(2) + leb_u32(table_idx)
            },
            enc_instrs(offset),
        ),
        ElementModeView::Declared => (leb_u32(3), None),
    };
    chain(mode, (count_bytes(e.init.len()) + leb_list(e.init), None))
}

/// Element segments, one after another, up to the first that stops.
pub open spec fn emit_elements(xs: Seq<ElementSegmentView>) -> Emitted
    decreases xs.len(),
{
    if xs.len() == 0 {
        (Seq::empty(), None)
    } else {
        chain(enc_element(xs[0]), emit_elements(xs.subrange(1, xs.len() as int)))
    }
}

/// A local declaration: count, then value type byte.
pub open spec fn enc_local(l: Local) -> Seq<u8> {
    leb_u32(l.count) + seq![value_type_byte(l.ty)]
}

/// Local declarations, one after another.
pub open spec fn enc_locals(xs: Seq<Local>) -> Seq<u8>
    decreases xs.len(),
{
    if xs.len() == 0 {
        Seq::empty()
    } else {
        enc_locals(xs.drop_last()) + enc_local(xs.last())
    }
}

/// The contents of a function body: the local declarations with their
/// count first, then the instructions.
pub open spec fn enc_body_content(b: FunctionBodyView) -> Emitted {
    after(count_bytes(b.locals.len()) + enc_locals(b.locals), enc_instrs(b.instructions))
}

/// A function body: its size, then its contents; nothing where the
/// contents stopped.
pub open spec fn enc_body(b: FunctionBodyView) -> Emitted {
    let c = enc_body_content(b);
    if c.1 is Some {
        (Seq::empty(), c.1)
    } else {
        (count_bytes(c.0.len()) + c.0, None)
    }
}

/// Function bodies, one after another, up to the first that stops.
pub open spec fn emit_bodies(xs: Seq<FunctionBodyView>) -> Emitted
    decreases xs.len(),
{
    if xs.len() == 0 {
        (Seq::empty(), None)
    } else {
        chain(enc_body(xs[0]), emit_bodies(xs.subrange(1, xs.len() as int)))
    }
}

/// A data segment: its mode (flags 1 passive; 0 active on memory 0 or 2
/// and the memory index, then the offset), then the bytes with their count
/// first.
pub open spec fn enc_data_segment(d: DataSegmentView) -> Emitted {
    let mode: Emitted = match d.mode {
        DataModeView::Passive => (leb_u32(1), None),
        DataModeView::Active { mem_idx, offset } => after(
            if mem_idx == 0 {
                leb_u32(0)
            } else {
                leb_u32(2) + leb_u32(mem_idx)
            },
            enc_instrs(offset),
        ),
    };
    chain(mode, (count_bytes(d.data.len()) + d.data, None))
}

/// Data segments, one after another, up to the first that stops.
pub open spec fn emit_data(xs: Seq<DataSegmentView>) -> Emitted
    decreases xs.len(),
{
    if xs.len() == 0 {
        (Seq::empty(), None)
    } else {
        chain(enc_data_segment(xs[0]), emit_data(xs.subrange(1, xs.len() as int)))
    }
}

/// A custom section: id 0, the size of what follows (the name's length
/// bytes, the name and the data, cut to 32 bits), the name, the data.
pub open spec fn enc_custom(c: CustomSectionView) -> Seq<u8> {
    let nb = encode_utf8(c.name);
    seq![0u8] + leb_u32(((leb_u32(nb.len() as u32).len() + nb.len() + c.data.len()) % 0x1_0000_0000) as u32)
        + enc_name(c.name) + c.data
}

/// Custom sections, one after another.
pub open spec fn enc_customs(xs: Seq<CustomSectionView>) -> Seq<u8>
    decreases xs.len(),
{
    if xs.len() == 0 {
        Seq::empty()
    } else {
        enc_customs(xs.drop_last()) + enc_custom(xs.last())
    }
}

/// `e` where `present`, else nothing.
pub open spec fn optional(present: bool, e: Emitted) -> Emitted {
    if present {
        e
    } else {
        (Seq::empty(), None)
    }
}

/// Bytes where `present`, else nothing.
pub open spec fn optional_bytes(present: bool, b: Seq<u8>) -> Seq<u8> {
    if present {
        b
    } else {
        Seq::empty()
    }
}

/// The type, import, function, table and memory sections, each only where
/// it has something.
pub open spec fn enc_leading(m: ModuleView) -> Seq<u8> {
    optional_bytes(m.types.len() > 0, section(1, count_bytes(m.types.len()) + enc_func_types(m.types)))
        + optional_bytes(m.imports.len() > 0, section(2, count_bytes(m.imports.len()) + enc_imports(m.imports)))
        + optional_bytes(m.funcs.len() > 0, section(3, count_bytes(m.funcs.len()) + leb_list(m.funcs)))
        + optional_bytes(m.tables.len() > 0, section(4, count_bytes(m.tables.len()) + enc_tables(m.tables)))
        + optional_bytes(m.memories.len() > 0, section(5, count_bytes(m.memories.len()) + enc_memories(m.memories)))
}

/// The global, export, start, element and data count sections, each only
/// where it has something.
pub open spec fn enc_middle(m: ModuleView) -> Emitted {
    let globals = optional(
        m.globals.len() > 0,
        section_emitted(6, after(count_bytes(m.globals.len()), emit_globals(m.globals))),
    );
    let exports_start = optional_bytes(m.exports.len() > 0, section(7, count_bytes(m.exports.len()) + enc_exports(m.exports)))
        + optional_bytes(m.start is Some, section(8, leb_u32(m.start->0)));
    let elements = optional(
        m.elements.len() > 0,
        section_emitted(9, after(count_bytes(m.elements.len()), emit_elements(m.elements))),
    );
    let data_count = optional_bytes(m.data_count is Some, section(12, leb_u32(m.data_count->0)));
    chain(chain(chain(globals, (exports_start, None)), elements), (data_count, None))
}

/// The code and data sections, each only where it has something.
pub open spec fn enc_trailing(m: ModuleView) -> Emitted {
    chain(
        optional(m.code.len() > 0, section_emitted(10, after(count_bytes(m.code.len()), emit_bodies(m.code)))),
        optional(m.data.len() > 0, section_emitted(11, after(count_bytes(m.data.len()), emit_data(m.data)))),
    )
}

/// A module: magic number and version, then the type, import, function,
/// table, memory, global, export, start, element, data count, code and data
/// sections, each only where it has something, then the custom sections;
/// up to the first instruction the encoder has no encoding for.
pub open spec fn enc_module(m: ModuleView) -> Emitted {
    chain(
        chain(chain((wasm_magic() + wasm_version() + enc_leading(m), None), enc_middle(m)), enc_trailing(m)),
        (enc_customs(m.custom_sections), None),
    )
}

impl Encoder {
    fn write_value_types(&mut self, types: &Vec<ValueType>)
        ensures
            final(self)@ == old(self)@ + count_bytes(types@.len()) + enc_value_types(types@),
    {
        self.write_u32_leb128(types.len() as u32);
        let ghost base = self@;
        let mut i: usize = 0;
        while i < types.len()
            invariant
                i <= types@.len(),
                base == old(self)@ + count_bytes(types@.len()),
                self@ == base + enc_value_types(types@.subrange(0, i as int)),
            decreases types@.len() - i,
        {
            self.write_u8(types[i].to_byte());
            proof {
                assert(types@.subrange(0, i as int + 1).drop_last() =~= types@.subrange(0, i as int));
                assert(self@ =~= base + enc_value_types(types@.subrange(0, i as int + 1)));
            }
            i += 1;
        }
        assert(types@.subrange(0, i as int) =~= types@);
    }

    fn write_u32_list(&mut self, values: &[u32])
        ensures
            final(self)@ == old(self)@ + leb_list(values@),
    {
        let mut i: usize = 0;
        while i < values.len()
            invariant
                i <= values@.len(),
                self@ == old(self)@ + leb_list(values@.subrange(0, i as int)),
            decreases values@.len() - i,
        {
            self.write_u32_leb128(values[i]);
            proof {
                assert(values@.subrange(0, i as int + 1).drop_last() =~= values@.subrange(0, i as int));
                assert(self@ =~= old(self)@ + leb_list(values@.subrange(0, i as int + 1)));
            }
            i += 1;
        }
        assert(values@.subrange(0, i as int) =~= values@);
    }

    /// Write a section with the given contents.
    fn write_section(&mut self, section_id: u8, content: Encoder)
        ensures
            final(self)@ == old(self)@ + section(section_id, content@),
    {
        self.write_u8(section_id);
        let content_bytes = content.into_bytes();
        self.write_u32_leb128(content_bytes.len() as u32);
        self.write_slice(content_bytes.as_slice());
        assert(self@ =~= old(self)@ + section(section_id, content@));
    }

    fn encode_type_section(&mut self, types: &[FuncType]) -> (r: Result<(), WasmError>)
        ensures
            r is Ok,
            final(self)@ == old(self)@ + section(1, count_bytes(types@.len()) + enc_func_types(views(types@))),
    {
        let mut content = Encoder::new();
        content.write_u32_leb128(types.len() as u32);
        let ghost v = views(types@);
        let ghost base = content@;
        let mut i: usize = 0;
        while i < types.len()
            invariant
                i <= types@.len(),
                v == views(types@),
                base == count_bytes(types@.len()),
                content@ == base + enc_func_types(v.subrange(0, i as int)),
            decreases types@.len() - i,
        {
            let func_type = &types[i];
            let ghost before = content@;
            content.write_u8(0x60);
            content.write_value_types(&func_type.params);
            content.write_value_types(&func_type.results);
            proof {
                assert(v.subrange(0, i as int + 1).drop_last() =~= v.subrange(0, i as int));
                assert(v[i as int] == func_type@);
                assert(content@ =~= before + enc_func_type(func_type@));
                assert(content@ =~= base + enc_func_types(v.subrange(0, i as int + 1)));
            }
            i += 1;
        }
        assert(v.subrange(0, i as int) =~= v);
        self.write_section(1, content);
        Ok(())
    }

    fn encode_import_section(&mut self, imports: &[Import]) -> (r: Result<(), WasmError>)
        ensures
            r is Ok,
            final(self)@ == old(self)@ + section(2, count_bytes(imports@.len()) + enc_imports(views(imports@))),
    {
        let mut content = Encoder::new();
        content.write_u32_leb128(imports.len() as u32);
        let ghost v = views(imports@);
        let ghost base = content@;
        let mut i: usize = 0;
        while i < imports.len()
            invariant
                i <= imports@.len(),
                v == views(imports@),
                base == count_bytes(imports@.len()),
                content@ == base + enc_imports(v.subrange(0, i as int)),
            decreases imports@.len() - i,
        {
            let import = &imports[i];
            let ghost before = content@;
            content.write_name(import.module.as_str());
            content.write_name(import.name.as_str());
            content.write_u8(import.kind.to_byte());
            content.write_u32_leb128(import.idx);
            proof {
                assert(v.subrange(0, i as int + 1).drop_last() =~= v.subrange(0, i as int));
                assert(v[i as int] == import@);
                assert(content@ =~= before + enc_import(import@));
                assert(content@ =~= base + enc_imports(v.subrange(0, i as int + 1)));
            }
            i += 1;
        }
        assert(v.subrange(0, i as int) =~= v);
        self.write_section(2, content);
        Ok(())
    }

    fn encode_func_section(&mut self, funcs: &[u32]) -> (r: Result<(), WasmError>)
        ensures
            r is Ok,
            final(self)@ == old(self)@ + section(3, count_bytes(funcs@.len()) + leb_list(funcs@)),
    {
        let mut content = Encoder::new();
        content.write_u32_leb128(funcs.len() as u32);
        content.write_u32_list(funcs);
        self.write_section(3, content);
        Ok(())
    }

    fn encode_table_section(&mut self, tables: &[TableType]) -> (r: Result<(), WasmError>)
        ensures
            r is Ok,
            final(self)@ == old(self)@ + section(4, count_bytes(tables@.len()) + enc_tables(tables@)),
    {
        let mut content = Encoder::new();
        content.write_u32_leb128(tables.len() as u32);
        let ghost base = content@;
        let mut i: usize = 0;
        while i < tables.len()
            invariant
                i <= tables@.len(),
                base == count_bytes(tables@.len()),
                content@ == base + enc_tables(tables@.subrange(0, i as int)),
            decreases tables@.len() - i,
        {
            let table = &tables[i];
            let ghost before = content@;
            content.write_u8(table.elem_type.to_byte());
            encode_limits(&mut content, &table.limits);
            proof {
                assert(tables@.subrange(0, i as int + 1).drop_last() =~= tables@.subrange(0, i as int));
                assert(content@ =~= before + enc_table(*table));
                assert(content@ =~= base + enc_tables(tables@.subrange(0, i as int + 1)));
            }
            i += 1;
        }
        assert(tables@.subrange(0, i as int) =~= tables@);
        self.write_section(4, content);
        Ok(())
    }

    fn encode_memory_section(&mut self, memories: &[MemType]) -> (r: Result<(), WasmError>)
        ensures
            r is Ok,
            final(self)@ == old(self)@ + section(5, count_bytes(memories@.len()) + enc_memories(memories@)),
    {
        let mut content = Encoder::new();
        content.write_u32_leb128(memories.len() as u32);
        let ghost base = content@;
        let mut i: usize = 0;
        while i < memories.len()
            invariant
                i <= memories@.len(),
                base == count_bytes(memories@.len()),
                content@ == base + enc_memories(memories@.subrange(0, i as int)),
            decreases memories@.len() - i,
        {
            let ghost before = content@;
            encode_limits(&mut content, &memories[i].limits);
            proof {
                assert(memories@.subrange(0, i as int + 1).drop_last() =~= memories@.subrange(0, i as int));
                assert(content@ =~= base + enc_memories(memories@.subrange(0, i as int + 1)));
            }
            i += 1;
        }
        assert(memories@.subrange(0, i as int) =~= memories@);
        self.write_section(5, content);
        Ok(())
    }

    fn encode_export_section(&mut self, exports: &[Export]) -> (r: Result<(), WasmError>)
        ensures
            r is Ok,
            final(self)@ == old(self)@ + section(7, count_bytes(exports@.len()) + enc_exports(views(exports@))),
    {
        let mut content = Encoder::new();
        content.write_u32_leb128(exports.len() as u32);
        let ghost v = views(exports@);
        let ghost base = content@;
        let mut i: usize = 0;
        while i < exports.len()
            invariant
                i <= exports@.len(),
                v == views(exports@),
                base == count_bytes(exports@.len()),
                content@ == base + enc_exports(v.subrange(0, i as int)),
            decreases exports@.len() - i,
        {
            let export = &exports[i];
            let ghost before = content@;
            content.write_name(export.name.as_str());
            content.write_u8(export.kind.to_byte());
            content.write_u32_leb128(export.idx);
            proof {
                assert(v.subrange(0, i as int + 1).drop_last() =~= v.subrange(0, i as int));
                assert(v[i as int] == export@);
                assert(content@ =~= before + enc_export(export@));
                assert(content@ =~= base + enc_exports(v.subrange(0, i as int + 1)));
            }
            i += 1;
        }
        assert(v.subrange(0, i as int) =~= v);
        self.write_section(7, content);
        Ok(())
    }

    fn encode_start_section(&mut self, start_idx: u32) -> (r: Result<(), WasmError>)
        ensures
            r is Ok,
            final(self)@ == old(self)@ + section(8, leb_u32(start_idx)),
    {
        let mut content = Encoder::new();
        content.write_u32_leb128(start_idx);
        self.write_section(8, content);
        Ok(())
    }

    fn encode_datacount_section(&mut self, data_count: u32) -> (r: Result<(), WasmError>)
        ensures
            r is Ok,
            final(self)@ == old(self)@ + section(12, leb_u32(data_count)),
    {
        let mut content = Encoder::new();
        content.write_u32_leb128(data_count);
        self.write_section(12, content);
        Ok(())
    }

    fn encode_custom_section(&mut self, custom: &CustomSection) -> (r: Result<(), WasmError>)
        ensures
            r is Ok,
            final(self)@ == old(self)@ + enc_custom(custom@),
    {
        self.write_u8(0);
        let name_bytes = custom.name.as_str().as_bytes();
        let leb_len = leb128::encode_u32(name_bytes.len() as u32).len();
        let a = (leb_len as u64 % 0x1_0000_0000) as u32;
        let b = (name_bytes.len() as u64 % 0x1_0000_0000) as u32;
        let c = (custom.data.len() as u64 % 0x1_0000_0000) as u32;
        let total_len = a.wrapping_add(b).wrapping_add(c);
        proof {
            let m: int = 0x1_0000_0000;
            let x = leb_len as int;
            let y = name_bytes@.len() as int;
            let z = custom.data@.len() as int;
            vstd::arithmetic::div_mod::lemma_add_mod_noop(x, y, m);
            vstd::arithmetic::div_mod::lemma_add_mod_noop(x + y, z, m);
            vstd::arithmetic::div_mod::lemma_mod_twice(x + y, m);
            assert(total_len == (x + y + z) % m);
        }
        self.write_u32_leb128(total_len);
        self.write_name(custom.name.as_str());
        self.write_slice(custom.data.as_slice());
        assert(self@ =~= old(self)@ + enc_custom(custom@));
        Ok(())
    }
}

impl Encoder {
    fn encode_global_section(&mut self, globals: &[Global]) -> (r: Result<(), WasmError>)
        ensures
            final(self)@ == old(self)@ + section_emitted(6, after(count_bytes(globals@.len()), emit_globals(views(globals@)))).0,
            emit_result(r, section_emitted(6, after(count_bytes(globals@.len()), emit_globals(views(globals@))))),
    {
        let mut content = Encoder::new();
        content.write_u32_leb128(globals.len() as u32);
        let ghost v = views(globals@);
        let ghost base = content@;
        let mut i: usize = 0;
        proof {
            assert(v.subrange(0, v.len() as int) =~= v);
        }
        while i < globals.len()
            invariant
                i <= globals@.len(),
                v == views(globals@),
                v.len() == globals@.len(),
                base == count_bytes(globals@.len()),
                after(base, emit_globals(v)) == after(content@, emit_globals(v.subrange(i as int, v.len() as int))),
            decreases globals@.len() - i,
        {
            let global = &globals[i];
            let ghost before = content@;
            proof {
                let t = v.subrange(i as int, v.len() as int);
                assert(t.subrange(1, t.len() as int) =~= v.subrange(i + 1, v.len() as int));
                assert(t[0] == global@);
                lemma_chain_after(before, enc_global(global@), emit_globals(v.subrange(i + 1, v.len() as int)));
            }
            content.write_u8(global.ty.value_type.to_byte());
            content.write_u8(if global.ty.mutable { 0x01 } else { 0x00 });
            let res = encode_instructions(&mut content, global.init.as_slice());
            proof {
                assert(content@ =~= before + enc_global(global@).0);
            }
            if res.is_err() {
                return res;
            }
            i += 1;
        }
        assert(v.subrange(i as int, v.len() as int) =~= Seq::<GlobalView>::empty());
        self.write_section(6, content);
        Ok(())
    }

    fn encode_element_section(&mut self, elements: &[ElementSegment]) -> (r: Result<(), WasmError>)
        ensures
            final(self)@ == old(self)@ + section_emitted(9, after(count_bytes(elements@.len()), emit_elements(views(elements@)))).0,
            emit_result(r, section_emitted(9, after(count_bytes(elements@.len()), emit_elements(views(elements@))))),
    {
        let mut content = Encoder::new();
        content.write_u32_leb128(elements.len() as u32);
        let ghost v = views(elements@);
        let ghost base = content@;
        let mut i: usize = 0;
        proof {
            assert(v.subrange(0, v.len() as int) =~= v);
        }
        while i < elements.len()
            invariant
                i <= elements@.len(),
                v == views(elements@),
                v.len() == elements@.len(),
                base == count_bytes(elements@.len()),
                after(base, emit_elements(v)) == after(content@, emit_elements(v.subrange(i as int, v.len() as int))),
            decreases elements@.len() - i,
        {
            let elem = &elements[i];
            let ghost before = content@;
            proof {
                let t = v.subrange(i as int, v.len() as int);
                assert(t.subrange(1, t.len() as int) =~= v.subrange(i + 1, v.len() as int));
                assert(t[0] == elem@);
                lemma_chain_after(before, enc_element(elem@), emit_elements(v.subrange(i + 1, v.len() as int)));
            }
            match &elem.mode {
                ElementMode::Passive => {
                    content.write_u32_leb128(1);
                },
                ElementMode::Active { table_idx, offset } => {
                    if *table_idx == 0 {
                        content.write_u32_leb128(0);
                    } else {
                        content.write_u32_leb128(2);
                        content.write_u32_leb128(*table_idx);
                    }
                    let res = encode_instructions(&mut content, offset.as_slice());
                    if res.is_err() {
                        proof {
                            assert(content@ =~= before + enc_element(elem@).0);
                        }
                        return res;
                    }
                },
                ElementMode::Declared => {
                    content.write_u32_leb128(3);
                },
            }
            content.write_u32_leb128(elem.init.len() as u32);
            content.write_u32_list(elem.init.as_slice());
            proof {
                assert(content@ =~= before + enc_element(elem@).0);
            }
            i += 1;
        }
        assert(v.subrange(i as int, v.len() as int) =~= Seq::<ElementSegmentView>::empty());
        self.write_section(9, content);
        Ok(())
    }

    fn encode_code_section(&mut self, bodies: &[FunctionBody]) -> (r: Result<(), WasmError>)
        ensures
            final(self)@ == old(self)@ + section_emitted(10, after(count_bytes(bodies@.len()), emit_bodies(views(bodies@)))).0,
            emit_result(r, section_emitted(10, after(count_bytes(bodies@.len()), emit_bodies(views(bodies@))))),
    {
        let mut content = Encoder::new();
        content.write_u32_leb128(bodies.len() as u32);
        let ghost v = views(bodies@);
        let ghost base = content@;
        let mut i: usize = 0;
        proof {
            assert(v.subrange(0, v.len() as int) =~= v);
        }
        while i < bodies.len()
            invariant
                i <= bodies@.len(),
                v == views(bodies@),
                v.len() == bodies@.len(),
                base == count_bytes(bodies@.len()),
                after(base, emit_bodies(v)) == after(content@, emit_bodies(v.subrange(i as int, v.len() as int))),
            decreases bodies@.len() - i,
        {
            let body = &bodies[i];
            let ghost before = content@;
            proof {
                let t = v.subrange(i as int, v.len() as int);
                assert(t.subrange(1, t.len() as int) =~= v.subrange(i + 1, v.len() as int));
                assert(t[0] == body@);
                lemma_chain_after(before, enc_body(body@), emit_bodies(v.subrange(i + 1, v.len() as int)));
            }
            let mut func_content = Encoder::new();
            func_content.write_u32_leb128(body.locals.len() as u32);
            let ghost lbase = func_content@;
            let mut k: usize = 0;
            while k < body.locals.len()
                invariant
                    k <= body.locals@.len(),
                    lbase == count_bytes(body.locals@.len()),
                    func_content@ == lbase + enc_locals(body.locals@.subrange(0, k as int)),
                decreases body.locals@.len() - k,
            {
                let local = &body.locals[k];
                func_content.write_u32_leb128(local.count);
                func_content.write_u8(local.ty.to_byte());
                proof {
                    assert(body.locals@.subrange(0, k as int + 1).drop_last() =~= body.locals@.subrange(0, k as int));
                    assert(func_content@ =~= lbase + enc_locals(body.locals@.subrange(0, k as int + 1)));
                }
                k += 1;
            }
            assert(body.locals@.subrange(0, k as int) =~= body.locals@);
            let res = encode_instructions(&mut func_content, body.instructions.as_slice());
            if res.is_err() {
                return res;
            }
            let func_bytes = func_content.into_bytes();
            content.write_u32_leb128(func_bytes.len() as u32);
            content.write_slice(func_bytes.as_slice());
            proof {
                assert(func_bytes@ =~= enc_body_content(body@).0);
                assert(content@ =~= before + enc_body(body@).0);
            }
            i += 1;
        }
        assert(v.subrange(i as int, v.len() as int) =~= Seq::<FunctionBodyView>::empty());
        self.write_section(10, content);
        Ok(())
    }

    fn encode_data_section(&mut self, data: &[DataSegment]) -> (r: Result<(), WasmError>)
        ensures
            final(self)@ == old(self)@ + section_emitted(11, after(count_bytes(data@.len()), emit_data(views(data@)))).0,
            emit_result(r, section_emitted(11, after(count_bytes(data@.len()), emit_data(views(data@))))),
    {
        let mut content = Encoder::new();
        content.write_u32_leb128(data.len() as u32);
        let ghost v = views(data@);
        let ghost base = content@;
        let mut i: usize = 0;
        proof {
            assert(v.subrange(0, v.len() as int) =~= v);
        }
        while i < data.len()
            invariant
                i <= data@.len(),
                v == views(data@),
                v.len() == data@.len(),
                base == count_bytes(data@.len()),
                after(base, emit_data(v)) == after(content@, emit_data(v.subrange(i as int, v.len() as int))),
            decreases data@.len() - i,
        {
            let segment = &data[i];
            let ghost before = content@;
            proof {
                let t = v.subrange(i as int, v.len() as int);
                assert(t.subrange(1, t.len() as int) =~= v.subrange(i + 1, v.len() as int));
                assert(t[0] == segment@);
                lemma_chain_after(before, enc_data_segment(segment@), emit_data(v.subrange(i + 1, v.len() as int)));
            }
            match &segment.mode {
                DataMode::Passive => {
                    content.write_u32_leb128(1);
                },
                DataMode::Active { mem_idx, offset } => {
                    if *mem_idx == 0 {
                        content.write_u32_leb128(0);
                    } else {
                        content.write_u32_leb128(2);
                        content.write_u32_leb128(*mem_idx);
                    }
                    let res = encode_instructions(&mut content, offset.as_slice());
                    if res.is_err() {
                        proof {
                            assert(content@ =~= before + enc_data_segment(segment@).0);
                        }
                        return res;
                    }
                },
            }
            content.write_u32_leb128(segment.data.len() as u32);
            content.write_slice(segment.data.as_slice());
            proof {
                assert(content@ =~= before + enc_data_segment(segment@).0);
            }
            i += 1;
        }
        assert(v.subrange(i as int, v.len() as int) =~= Seq::<DataSegmentView>::empty());
        self.write_section(11, content);
        Ok(())
    }
}

proof fn lemma_append_assoc(a: Seq<u8>, b: Seq<u8>, c: Seq<u8>)
    ensures
        (a + b) + c == a + (b + c),
{
    assert((a + b) + c =~= a + (b + c));
}

proof fn lemma_optional_bytes(before: Seq<u8>, now: Seq<u8>, present: bool, b: Seq<u8>)
    requires
        present ==> now == before + b,
        !present ==> now == before,
    ensures
        now == before + optional_bytes(present, b),
{
    if !present {
        assert(before + Seq::<u8>::empty() =~= before);
    }
}

proof fn lemma_optional(before: Seq<u8>, now: Seq<u8>, present: bool, e: Emitted)
    requires
        present ==> now == before + e.0,
        !present ==> now == before,
    ensures
        now == before + optional(present, e).0,
{
    if !present {
        assert(before + Seq::<u8>::empty() =~= before);
    }
}

impl Encoder {
    fn encode_leading(&mut self, module: &Module) -> (r: Result<(), WasmError>)
        ensures
            r is Ok,
            final(self)@ == old(self)@ + enc_leading(module@),
    {
        let ghost m = module@;
        let ghost w0 = self@;
        if !module.types.is_empty() {
            self.encode_type_section(module.types.as_slice())?;
        }
        let ghost p1 = optional_bytes(m.types.len() > 0, section(1, count_bytes(m.types.len()) + enc_func_types(m.types)));
        proof {
            lemma_optional_bytes(w0, self@, m.types.len() > 0, section(1, count_bytes(m.types.len()) + enc_func_types(m.types)));
        }
        let ghost w1 = self@;
        if !module.imports.is_empty() {
            self.encode_import_section(module.imports.as_slice())?;
        }
        let ghost p2 = optional_bytes(m.imports.len() > 0, section(2, count_bytes(m.imports.len()) + enc_imports(m.imports)));
        proof {
            lemma_optional_bytes(w1, self@, m.imports.len() > 0, section(2, count_bytes(m.imports.len()) + enc_imports(m.imports)));
        }
        let ghost w2 = self@;
        if !module.funcs.is_empty() {
            self.encode_func_section(module.funcs.as_slice())?;
        }
        let ghost p3 = optional_bytes(m.funcs.len() > 0, section(3, count_bytes(m.funcs.len()) + leb_list(m.funcs)));
        proof {
            lemma_optional_bytes(w2, self@, m.funcs.len() > 0, section(3, count_bytes(m.funcs.len()) + leb_list(m.funcs)));
        }
        let ghost w3 = self@;
        if !module.tables.is_empty() {
            self.encode_table_section(module.tables.as_slice())?;
        }
        let ghost p4 = optional_bytes(m.tables.len() > 0, section(4, count_bytes(m.tables.len()) + enc_tables(m.tables)));
        proof {
            lemma_optional_bytes(w3, self@, m.tables.len() > 0, section(4, count_bytes(m.tables.len()) + enc_tables(m.tables)));
        }
        let ghost w4 = self@;
        if !module.memories.is_empty() {
            self.encode_memory_section(module.memories.as_slice())?;
        }
        let ghost p5 = optional_bytes(m.memories.len() > 0, section(5, count_bytes(m.memories.len()) + enc_memories(m.memories)));
        proof {
            lemma_optional_bytes(w4, self@, m.memories.len() > 0, section(5, count_bytes(m.memories.len()) + enc_memories(m.memories)));
            assert(enc_leading(m) == p1 + p2 + p3 + p4 + p5);
            lemma_append_assoc(w0, p1, p2);
            lemma_append_assoc(w0, p1 + p2, p3);
            lemma_append_assoc(w0, p1 + p2 + p3, p4);
            lemma_append_assoc(w0, p1 + p2 + p3 + p4, p5);
        }
        Ok(())
    }

    fn encode_middle(&mut self, module: &Module) -> (r: Result<(), WasmError>)
        ensures
            final(self)@ == old(self)@ + enc_middle(module@).0,
            emit_result(r, enc_middle(module@)),
    {
        let ghost m = module@;
        let ghost w0 = self@;
        let ghost g = optional(m.globals.len() > 0, section_emitted(6, after(count_bytes(m.globals.len()), emit_globals(m.globals))));
        if !module.globals.is_empty() {
            let res = self.encode_global_section(module.globals.as_slice());
            if res.is_err() {
                return res;
            }
        }
        proof {
            lemma_optional(w0, self@, m.globals.len() > 0, section_emitted(6, after(count_bytes(m.globals.len()), emit_globals(m.globals))));
        }
        let ghost w1 = self@;
        if !module.exports.is_empty() {
            self.encode_export_section(module.exports.as_slice())?;
        }
        let ghost pe = optional_bytes(m.exports.len() > 0, section(7, count_bytes(m.exports.len()) + enc_exports(m.exports)));
        proof {
            lemma_optional_bytes(w1, self@, m.exports.len() > 0, section(7, count_bytes(m.exports.len()) + enc_exports(m.exports)));
        }
        let ghost w2 = self@;
        if let Some(start_idx) = module.start {
            self.encode_start_section(start_idx)?;
        }
        let ghost ps = optional_bytes(m.start is Some, section(8, leb_u32(m.start->0)));
        proof {
            lemma_optional_bytes(w2, self@, m.start is Some, section(8, leb_u32(m.start->0)));
            lemma_append_assoc(w1, pe, ps);
            lemma_append_assoc(w0, g.0, pe + ps);
        }
        let ghost w3 = self@;
        let ghost el = optional(m.elements.len() > 0, section_emitted(9, after(count_bytes(m.elements.len()), emit_elements(m.elements))));
        if !module.elements.is_empty() {
            let res = self.encode_element_section(module.elements.as_slice());
            if res.is_err() {
                proof {
                    lemma_append_assoc(w0, g.0 + (pe + ps), el.0);
                }
                return res;
            }
        }
        proof {
            lemma_optional(w3, self@, m.elements.len() > 0, section_emitted(9, after(count_bytes(m.elements.len()), emit_elements(m.elements))));
            lemma_append_assoc(w0, g.0 + (pe + ps), el.0);
        }
        let ghost w4 = self@;
        if let Some(data_count) = module.data_count {
            self.encode_datacount_section(data_count)?;
        }
        let ghost pd = optional_bytes(m.data_count is Some, section(12, leb_u32(m.data_count->0)));
        proof {
            lemma_optional_bytes(w4, self@, m.data_count is Some, section(12, leb_u32(m.data_count->0)));
            lemma_append_assoc(w0, g.0 + (pe + ps) + el.0, pd);
        }
        Ok(())
    }

    fn encode_trailing(&mut self, module: &Module) -> (r: Result<(), WasmError>)
        ensures
            final(self)@ == old(self)@ + enc_trailing(module@).0,
            emit_result(r, enc_trailing(module@)),
    {
        let ghost m = module@;
        let ghost w0 = self@;
        let ghost c = optional(m.code.len() > 0, section_emitted(10, after(count_bytes(m.code.len()), emit_bodies(m.code))));
        if !module.code.is_empty() {
            let res = self.encode_code_section(module.code.as_slice());
            if res.is_err() {
                return res;
            }
        }
        proof {
            lemma_optional(w0, self@, m.code.len() > 0, section_emitted(10, after(count_bytes(m.code.len()), emit_bodies(m.code))));
        }
        let ghost w1 = self@;
        let ghost d = optional(m.data.len() > 0, section_emitted(11, after(count_bytes(m.data.len()), emit_data(m.data))));
        if !module.data.is_empty() {
            let res = self.encode_data_section(module.data.as_slice());
            if res.is_err() {
                proof {
                    lemma_append_assoc(w0, c.0, d.0);
                }
                return res;
            }
        }
        proof {
            lemma_optional(w1, self@, m.data.len() > 0, section_emitted(11, after(count_bytes(m.data.len()), emit_data(m.data))));
            lemma_append_assoc(w0, c.0, d.0);
        }
        Ok(())
    }

    /// Encode a module after what was written: magic number, version, the
    /// sections that have something, then the custom sections. Where an
    /// instruction has no encoding, the error names it and the sections
    /// before it stay written.
    pub fn encode(&mut self, module: &Module) -> (r: Result<(), WasmError>)
        ensures
            final(self)@ == old(self)@ + enc_module(module@).0,
            emit_result(r, enc_module(module@)),
    {
        let ghost m = module@;
        let ghost w0 = self@;
        self.write_u8(0x00);
        self.write_u8(0x61);
        self.write_u8(0x73);
        self.write_u8(0x6d);
        self.write_u8(0x01);
        self.write_u8(0x00);
        self.write_u8(0x00);
        self.write_u8(0x00);
        let ghost hv = wasm_magic() + wasm_version();
        assert(self@ =~= w0 + hv);
        let ghost wh = self@;
        self.encode_leading(module)?;
        let ghost lead = hv + enc_leading(m);
        proof {
            lemma_append_assoc(w0, hv, enc_leading(m));
        }
        let ghost w1 = self@;
        let ghost mid = enc_middle(m);
        let res = self.encode_middle(module);
        proof {
            lemma_append_assoc(w0, lead, mid.0);
        }
        if res.is_err() {
            return res;
        }
        let ghost w2 = self@;
        let ghost tr = enc_trailing(m);
        let res = self.encode_trailing(module);
        proof {
            lemma_append_assoc(w0, lead + mid.0, tr.0);
        }
        if res.is_err() {
            return res;
        }
        let ghost w3 = self@;
        let ghost cs = m.custom_sections;
        let mut i: usize = 0;
        while i < module.custom_sections.len()
            invariant
                i <= module.custom_sections@.len(),
                cs == views(module.custom_sections@),
                cs.len() == module.custom_sections@.len(),
                self@ == w3 + enc_customs(cs.subrange(0, i as int)),
            decreases module.custom_sections@.len() - i,
        {
            self.encode_custom_section(&module.custom_sections[i])?;
            proof {
                assert(cs.subrange(0, i as int + 1).drop_last() =~= cs.subrange(0, i as int));
                assert(cs[i as int] == module.custom_sections@[i as int]@);
                lemma_append_assoc(w3, enc_customs(cs.subrange(0, i as int)), enc_custom(cs[i as int]));
            }
            i += 1;
        }
        proof {
            assert(cs.subrange(0, i as int) =~= cs);
            lemma_append_assoc(w0, lead + mid.0 + tr.0, enc_customs(cs));
        }
        Ok(())
    }
}

/// Encode a Module into WASM binary bytes.
pub fn encode_module(module: &Module) -> (r: Result<Vec<u8>, WasmError>)
    ensures
        match r {
            Ok(bytes) => enc_module(module@).1 is None && bytes@ == enc_module(module@).0,
            Err(e) => enc_module(module@).1 is Some && e@ == WasmErrorView::Custom(
                unimplemented_message(enc_module(module@).1->0),
            ),
        },
{
    let mut encoder = Encoder::new();
    encoder.encode(module)?;
    Ok(encoder.into_bytes())
}

/// A section whose contents are written first and which is written to the
/// encoder, with its id and size, when finished.
struct SectionBuilder<'a> {
    encoder: &'a mut Encoder,
    section_id: u8,
    content: Encoder,
}

impl<'a> SectionBuilder<'a> {
    fn new(encoder: &'a mut Encoder, section_id: u8) -> (r: Self)
        ensures
            r.section_id == section_id,
            r.content@ == Seq::<u8>::empty(),
            *r.encoder == *old(encoder),
            *final(r.encoder) == *final(encoder),
    {
        Self { encoder, section_id, content: Encoder::new() }
    }

    fn finish(self)
        ensures
            final(self.encoder)@ == old(self.encoder)@ + section(self.section_id, self.content@),
    {
        let content_bytes = self.content.into_bytes();
        self.encoder.write_u8(self.section_id);
        self.encoder.write_u32_leb128(content_bytes.len() as u32);
        self.encoder.write_slice(content_bytes.as_slice());
    }
}

impl Encoder {
    fn begin_section(&mut self, section_id: u8) -> (r: SectionBuilder<'_>)
        ensures
            r.section_id == section_id,
            r.content@ == Seq::<u8>::empty(),
            *r.encoder == *old(self),
            *final(r.encoder) == *final(self),
    {
        SectionBuilder::new(self, section_id)
    }
}

} // verus!
