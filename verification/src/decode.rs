//! WebAssembly binary decoder.

use vstd::prelude::*;
use crate::text::{append_decimal, decimal};
use vstd::utf8::{decode_utf8, valid_utf8};
use crate::ast::{
    CustomSection, CustomSectionView, DataMode, DataModeView, DataSegment, DataSegmentView, ElementMode,
    ElementModeView, ElementSegment, ElementSegmentView, Export, ExportView, FunctionBody,
    FunctionBodyView, Global, GlobalView, Import, ImportView, Local, Module, ModuleView, views,
    empty_module_view,
};
use crate::error::{WasmError, WasmErrorView};
use crate::instruction::{
    Instruction, InstrView, MemArg, instrs_view, instr_view, lemma_instrs_view_push, memory_from_opcode,
    memory_instr, numeric_from_opcode, numeric_instr,
};
use crate::types::{
    BlockType, ExternalKind, FuncType, FuncTypeView, Limits, MemType, TableType, ValueType,
    GlobalType, block_type_of_i64, external_kind_of_byte, value_type_of_byte,
};
use crate::leb128;
use crate::{SectionId, section_id_of_byte};
use crate::leb128::{spec_decode_i32, spec_decode_i64, spec_decode_u32, lemma_leb_decode_advances};

verus! {

/// The outcome of reading from position `p` of a byte sequence: the value
/// read and the position after it, or the error.
pub type SpecResult<T> = Result<(T, int), WasmErrorView>;

/// What a decoder's result stands for, given where it left the decoder.
pub open spec fn outcome<T>(r: Result<T, WasmError>, q: int) -> SpecResult<T> {
    match r {
        Ok(v) => Ok((v, q)),
        Err(e) => Err(e@),
    }
}

/// What a decoder's result stands for, the value taken by its model.
pub open spec fn outcome_view<T: View>(r: Result<T, WasmError>, q: int) -> SpecResult<T::V> {
    match r {
        Ok(v) => Ok((v@, q)),
        Err(e) => Err(e@),
    }
}

/// One byte.
pub open spec fn sp_u8(s: Seq<u8>, p: int) -> SpecResult<u8> {
    if 0 <= p < s.len() {
        Ok((s[p], p + 1))
    } else {
        Err(WasmErrorView::UnexpectedEof)
    }
}

/// The next `n` bytes.
pub open spec fn sp_bytes(s: Seq<u8>, p: int, n: int) -> SpecResult<Seq<u8>> {
    if 0 <= p && 0 <= n && p + n <= s.len() {
        Ok((s.subrange(p, p + n), p + n))
    } else {
        Err(WasmErrorView::UnexpectedEof)
    }
}

/// The number that four bytes denote, least significant first.
pub open spec fn le_u32(b: Seq<u8>) -> int {
    b[0] + 0x100 * b[1] + 0x1_0000 * b[2] + 0x100_0000 * b[3]
}

/// The number that eight bytes denote, least significant first.
pub open spec fn le_u64(b: Seq<u8>) -> int {
    le_u32(b) + 0x1_0000_0000 * le_u32(b.subrange(4, 8))
}

/// A 32-bit little-endian number.
pub open spec fn sp_u32_le(s: Seq<u8>, p: int) -> SpecResult<u32> {
    match sp_bytes(s, p, 4) {
        Ok((b, q)) => Ok((le_u32(b) as u32, q)),
        Err(e) => Err(e),
    }
}

/// A 64-bit little-endian number.
pub open spec fn sp_u64_le(s: Seq<u8>, p: int) -> SpecResult<u64> {
    match sp_bytes(s, p, 8) {
        Ok((b, q)) => Ok((le_u64(b) as u64, q)),
        Err(e) => Err(e),
    }
}

/// An unsigned 32-bit LEB128 number.
pub open spec fn sp_leb_u32(s: Seq<u8>, p: int) -> SpecResult<u32> {
    if 0 <= p <= s.len() {
        match spec_decode_u32(s.subrange(p, s.len() as int)) {
            Ok((v, n)) => Ok((v as u32, p + n)),
            Err(e) => Err(e),
        }
    } else {
        Err(WasmErrorView::UnexpectedEof)
    }
}

/// A signed 32-bit LEB128 number.
pub open spec fn sp_leb_i32(s: Seq<u8>, p: int) -> SpecResult<i32> {
    if 0 <= p <= s.len() {
        match spec_decode_i32(s.subrange(p, s.len() as int)) {
            Ok((v, n)) => Ok((v as i32, p + n)),
            Err(e) => Err(e),
        }
    } else {
        Err(WasmErrorView::UnexpectedEof)
    }
}

/// A signed 64-bit LEB128 number.
pub open spec fn sp_leb_i64(s: Seq<u8>, p: int) -> SpecResult<i64> {
    if 0 <= p <= s.len() {
        match spec_decode_i64(s.subrange(p, s.len() as int)) {
            Ok((v, n)) => Ok((v as i64, p + n)),
            Err(e) => Err(e),
        }
    } else {
        Err(WasmErrorView::UnexpectedEof)
    }
}

/// What `String::from_utf8_lossy` gives for bytes that are not valid UTF-8.
pub uninterp spec fn lossy_utf8(bytes: Seq<u8>) -> Seq<char>;

/// The text that bytes read as, replacing what is not valid UTF-8.
pub open spec fn text_of(bytes: Seq<u8>) -> Seq<char> {
    if valid_utf8(bytes) {
        decode_utf8(bytes)
    } else {
        lossy_utf8(bytes)
    }
}

/// `String::from_utf8_lossy`, owned. Claimed of it: on valid UTF-8 it gives
/// the decoded text; on other bytes it gives `lossy_utf8` of them, a
/// function of the bytes alone (invalid sequences become U+FFFD).
#[verifier::external_body]
fn string_from_utf8_lossy(bytes: &[u8]) -> (r: String)
    ensures
        r@ == (if valid_utf8(bytes@) {
            decode_utf8(bytes@)
        } else {
            lossy_utf8(bytes@)
        }),
{
    String::from_utf8_lossy(bytes).into_owned()
}

/// A name: its length in bytes as LEB128, then its bytes.
pub open spec fn sp_name(s: Seq<u8>, p: int) -> SpecResult<Seq<char>> {
    match sp_leb_u32(s, p) {
        Ok((len, q)) => match sp_bytes(s, q, len as int) {
            Ok((b, r)) => Ok((text_of(b), r)),
            Err(e) => Err(e),
        },
        Err(e) => Err(e),
    }
}

/// Binary decoder for WASM.
pub struct Decoder<'a> {
    bytes: &'a [u8],
    pos: usize,
}

impl<'a> Decoder<'a> {
    /// The bytes being decoded.
    pub closed spec fn data(&self) -> Seq<u8> {
        self.bytes@
    }

    /// The position of the next byte to read.
    pub closed spec fn pos(&self) -> int {
        self.pos as int
    }

    /// The position lies within the bytes.
    pub open spec fn wf(&self) -> bool {
        0 <= self.pos() <= self.data().len()
    }

    pub fn new(bytes: &'a [u8]) -> (r: Decoder<'a>)
        ensures
            r.data() == bytes@,
            r.pos() == 0,
            r.wf(),
    {
        Decoder { bytes, pos: 0 }
    }

    /// The position of the next byte to read.
    pub fn position(&self) -> (r: usize)
        ensures
            r == self.pos(),
    {
        self.pos
    }

    /// The next byte, without reading it.
    pub fn peek(&self) -> (r: Option<u8>)
        requires
            self.wf(),
        ensures
            r == (if self.pos() < self.data().len() {
                Some(self.data()[self.pos()])
            } else {
                None
            }),
    {
        if self.pos < self.bytes.len() {
            Some(self.bytes[self.pos])
        } else {
            None
        }
    }

    /// Step back one byte.
    pub fn unread(&mut self)
        requires
            0 < old(self).pos() <= old(self).data().len(),
        ensures
            final(self).data() == old(self).data(),
            final(self).pos() == old(self).pos() - 1,
            final(self).wf(),
    {
        self.pos -= 1;
    }

    /// Read the next `n` bytes.
    pub fn consume(&mut self, n: usize) -> (r: Result<&'a [u8], WasmError>)
        requires
            old(self).wf(),
        ensures
            final(self).data() == old(self).data(),
            final(self).wf(),
            outcome_view(r, final(self).pos()) == sp_bytes(old(self).data(), old(self).pos(), n as int),
            r is Err ==> final(self).pos() == old(self).pos(),
    {
        if n > self.bytes.len() - self.pos {
            return Err(WasmError::UnexpectedEof);
        }
        let result = &self.bytes[self.pos..self.pos + n];
        self.pos += n;
        Ok(result)
    }

    /// Read one byte.
    pub fn read_u8(&mut self) -> (r: Result<u8, WasmError>)
        requires
            old(self).wf(),
        ensures
            final(self).data() == old(self).data(),
            final(self).wf(),
            outcome(r, final(self).pos()) == sp_u8(old(self).data(), old(self).pos()),
            r is Err ==> final(self).pos() == old(self).pos(),
    {
        if self.pos >= self.bytes.len() {
            return Err(WasmError::UnexpectedEof);
        }
        let byte = self.bytes[self.pos];
        self.pos += 1;
        Ok(byte)
    }

    /// Read a 32-bit little-endian number.
    pub fn read_u32_le(&mut self) -> (r: Result<u32, WasmError>)
        requires
            old(self).wf(),
        ensures
            final(self).data() == old(self).data(),
            final(self).wf(),
            outcome(r, final(self).pos()) == sp_u32_le(old(self).data(), old(self).pos()),
            old(self).pos() <= final(self).pos(),
    {
        let bytes = match self.consume(4) {
            Ok(b) => b,
            Err(e) => return Err(e),
        };
        Ok(bytes[0] as u32 + (bytes[1] as u32) * 0x100 + (bytes[2] as u32) * 0x1_0000 + (bytes[3] as u32)
            * 0x100_0000)
    }

    /// Read a 64-bit little-endian number.
    pub fn read_u64_le(&mut self) -> (r: Result<u64, WasmError>)
        requires
            old(self).wf(),
        ensures
            final(self).data() == old(self).data(),
            final(self).wf(),
            outcome(r, final(self).pos()) == sp_u64_le(old(self).data(), old(self).pos()),
            old(self).pos() <= final(self).pos(),
    {
        let bytes = match self.consume(8) {
            Ok(b) => b,
            Err(e) => return Err(e),
        };
        let low = bytes[0] as u64 + (bytes[1] as u64) * 0x100 + (bytes[2] as u64) * 0x1_0000 + (
        bytes[3] as u64) * 0x100_0000;
        let high = bytes[4] as u64 + (bytes[5] as u64) * 0x100 + (bytes[6] as u64) * 0x1_0000 + (
        bytes[7] as u64) * 0x100_0000;
        proof {
            let b = bytes@;
            assert(b.subrange(4, 8)[0] == b[4] && b.subrange(4, 8)[1] == b[5] && b.subrange(4, 8)[2]
                == b[6] && b.subrange(4, 8)[3] == b[7]);
        }
        Ok(low + high * 0x1_0000_0000)
    }

    /// Read an unsigned 32-bit LEB128 number.
    pub fn read_u32_leb128(&mut self) -> (r: Result<u32, WasmError>)
        requires
            old(self).wf(),
        ensures
            final(self).data() == old(self).data(),
            final(self).wf(),
            outcome(r, final(self).pos()) == sp_leb_u32(old(self).data(), old(self).pos()),
            r is Ok ==> old(self).pos() < final(self).pos(),
            r is Err ==> final(self).pos() == old(self).pos(),
    {
        let (value, size) = match leb128::decode_u32(&self.bytes[self.pos..self.bytes.len()]) {
            Ok(x) => x,
            Err(e) => return Err(e),
        };
        proof {
            lemma_leb_decode_advances(self.bytes@.subrange(self.pos as int, self.bytes@.len() as int));
        }
        self.pos += size;
        Ok(value)
    }

    /// Read a signed 32-bit LEB128 number.
    pub fn read_i32_leb128(&mut self) -> (r: Result<i32, WasmError>)
        requires
            old(self).wf(),
        ensures
            final(self).data() == old(self).data(),
            final(self).wf(),
            outcome(r, final(self).pos()) == sp_leb_i32(old(self).data(), old(self).pos()),
            r is Ok ==> old(self).pos() < final(self).pos(),
            r is Err ==> final(self).pos() == old(self).pos(),
    {
        let (value, size) = match leb128::decode_i32(&self.bytes[self.pos..self.bytes.len()]) {
            Ok(x) => x,
            Err(e) => return Err(e),
        };
        proof {
            lemma_leb_decode_advances(self.bytes@.subrange(self.pos as int, self.bytes@.len() as int));
        }
        self.pos += size;
        Ok(value)
    }

    /// Read a signed 64-bit LEB128 number.
    pub fn read_i64_leb128(&mut self) -> (r: Result<i64, WasmError>)
        requires
            old(self).wf(),
        ensures
            final(self).data() == old(self).data(),
            final(self).wf(),
            outcome(r, final(self).pos()) == sp_leb_i64(old(self).data(), old(self).pos()),
            r is Ok ==> old(self).pos() < final(self).pos(),
            r is Err ==> final(self).pos() == old(self).pos(),
    {
        let (value, size) = match leb128::decode_i64(&self.bytes[self.pos..self.bytes.len()]) {
            Ok(x) => x,
            Err(e) => return Err(e),
        };
        proof {
            lemma_leb_decode_advances(self.bytes@.subrange(self.pos as int, self.bytes@.len() as int));
        }
        self.pos += size;
        Ok(value)
    }

    /// Read a name: its length as LEB128, then its bytes as UTF-8; bytes that
    /// are not valid UTF-8 are replaced.
    pub fn read_name(&mut self) -> (r: Result<String, WasmError>)
        requires
            old(self).wf(),
        ensures
            final(self).data() == old(self).data(),
            final(self).wf(),
            outcome_view(r, final(self).pos()) == sp_name(old(self).data(), old(self).pos()),
            r is Ok ==> old(self).pos() < final(self).pos(),
    {
        let len = self.read_u32_leb128()? as usize;
        let bytes = self.consume(len)?;
        Ok(string_from_utf8_lossy(bytes))
    }
}


// ---------------------------------------------------------------------------
// Instructions.

/// A read from `p` ended at `q`, past `p` and within the bytes.
pub open spec fn advanced(s: Seq<u8>, p: int, q: int) -> bool {
    p < q <= s.len()
}

/// The items of `pre`, then those of a successful read.
pub open spec fn prepend<T>(pre: Seq<T>, r: SpecResult<Seq<T>>) -> SpecResult<Seq<T>> {
    match r {
        Ok((xs, q)) => Ok((pre + xs, q)),
        Err(e) => Err(e),
    }
}

/// What a decoder's result that holds instructions stands for.
pub open spec fn outcome_instrs(r: Result<Vec<Instruction>, WasmError>, q: int) -> SpecResult<
    Seq<InstrView>,
> {
    match r {
        Ok(v) => Ok((instrs_view(v@), q)),
        Err(e) => Err(e@),
    }
}

/// What a decoder's result that holds an instruction stands for.
pub open spec fn outcome_instr(r: Result<Instruction, WasmError>, q: int) -> SpecResult<InstrView> {
    match r {
        Ok(v) => Ok((instr_view(v), q)),
        Err(e) => Err(e@),
    }
}

pub proof fn lemma_prepend_twice<T>(a: Seq<T>, b: Seq<T>, r: SpecResult<Seq<T>>)
    ensures
        prepend(a, prepend(b, r)) == prepend(a + b, r),
{
    if let Ok((xs, q)) = r {
        assert(a + (b + xs) =~= (a + b) + xs);
    }
}

/// Pushing an instruction onto a decoded prefix.
proof fn lemma_prepend_push(acc: Seq<Instruction>, i: Instruction, r: SpecResult<Seq<InstrView>>)
    ensures
        prepend(instrs_view(acc), prepend(seq![instr_view(i)], r)) == prepend(instrs_view(acc.push(i)), r),
{
    lemma_prepend_twice(instrs_view(acc), seq![instr_view(i)], r);
    lemma_instrs_view_push(acc, i);
    assert(instrs_view(acc) + seq![instr_view(i)] =~= instrs_view(acc).push(instr_view(i)));
}

/// A block type, as a signed 32-bit LEB128 number.
pub open spec fn sp_block_type(s: Seq<u8>, p: int) -> SpecResult<BlockType> {
    match sp_leb_i32(s, p) {
        Ok((v, q)) => match block_type_of_i64(v as i64) {
            Some(bt) => Ok((bt, q)),
            None => Err(WasmErrorView::InvalidBlockType(v as i64)),
        },
        Err(e) => Err(e),
    }
}

/// A memory argument: alignment, then offset.
pub open spec fn sp_mem_arg(s: Seq<u8>, p: int) -> SpecResult<MemArg> {
    match sp_leb_u32(s, p) {
        Ok((align, q)) => match sp_leb_u32(s, q) {
            Ok((offset, r)) => Ok((MemArg { align, offset }, r)),
            Err(e) => Err(e),
        },
        Err(e) => Err(e),
    }
}

/// `count` unsigned 32-bit LEB128 numbers.
pub open spec fn sp_u32_list(s: Seq<u8>, p: int, count: nat) -> SpecResult<Seq<u32>>
    decreases count,
{
    if count == 0 {
        Ok((Seq::empty(), p))
    } else {
        match sp_leb_u32(s, p) {
            Ok((v, q)) => prepend(seq![v], sp_u32_list(s, q, (count - 1) as nat)),
            Err(e) => Err(e),
        }
    }
}

/// An instruction whose operand is one unsigned 32-bit LEB128 number.
pub open spec fn sp_with_u32(s: Seq<u8>, p: int, f: spec_fn(u32) -> Instruction) -> SpecResult<
    InstrView,
> {
    match sp_leb_u32(s, p) {
        Ok((v, q)) => Ok((InstrView::Leaf(f(v)), q)),
        Err(e) => Err(e),
    }
}

/// An instruction nested in a block, whose opcode has been read: read as
/// at the level of an expression.
pub open spec fn sp_single(s: Seq<u8>, p: int, op: u8) -> SpecResult<InstrView>
    decreases s.len() - p,
{
    if op == 0x02 || op == 0x03 {
        match sp_block_type(s, p) {
            Ok((bt, q)) => if advanced(s, p, q) {
                match sp_until_end(s, q) {
                    Ok((body, r)) => Ok(
                        (
                            if op == 0x02 {
                                InstrView::Block { block_type: bt, body }
                            } else {
                                InstrView::Loop { block_type: bt, body }
                            },
                            r,
                        ),
                    ),
                    Err(e) => Err(e),
                }
            } else {
                Err(WasmErrorView::UnexpectedEof)
            },
            Err(e) => Err(e),
        }
    } else if op == 0x04 {
        match sp_block_type(s, p) {
            Ok((bt, q)) => if advanced(s, p, q) {
                match sp_if_branches(s, q, false) {
                    Ok(((t, e), r)) => Ok(
                        (InstrView::If { block_type: bt, then_branch: t, else_branch: e }, r),
                    ),
                    Err(e) => Err(e),
                }
            } else {
                Err(WasmErrorView::UnexpectedEof)
            },
            Err(e) => Err(e),
        }
    } else {
        sp_leaf_instr(s, p, op)
    }
}

/// Nested instructions up to the end opcode 0x0b, which is read.
pub open spec fn sp_until_end(s: Seq<u8>, p: int) -> SpecResult<Seq<InstrView>>
    decreases s.len() - p,
{
    match sp_u8(s, p) {
        Ok((op, q)) => if op == 0x0b {
            Ok((Seq::empty(), q))
        } else {
            match sp_single(s, q, op) {
                Ok((i, r)) => if advanced(s, p, r) {
                    prepend(seq![i], sp_until_end(s, r))
                } else {
                    Err(WasmErrorView::UnexpectedEof)
                },
                Err(e) => Err(e),
            }
        },
        Err(e) => Err(e),
    }
}

/// The two branches of an `if`, up to the end opcode 0x0b: instructions go
/// to the else branch once an else opcode 0x05 has been read.
pub open spec fn sp_if_branches(s: Seq<u8>, p: int, in_else: bool) -> SpecResult<
    (Seq<InstrView>, Seq<InstrView>),
>
    decreases s.len() - p,
{
    match sp_u8(s, p) {
        Ok((op, q)) => if op == 0x0b {
            Ok(((Seq::empty(), Seq::empty()), q))
        } else if op == 0x05 {
            sp_if_branches(s, q, true)
        } else {
            match sp_single(s, q, op) {
                Ok((i, r)) => if advanced(s, p, r) {
                    match sp_if_branches(s, r, in_else) {
                        Ok(((t, e), r2)) => if in_else {
                            Ok(((t, seq![i] + e), r2))
                        } else {
                            Ok(((seq![i] + t, e), r2))
                        },
                        Err(err) => Err(err),
                    }
                } else {
                    Err(WasmErrorView::UnexpectedEof)
                },
                Err(e) => Err(e),
            }
        },
        Err(e) => Err(e),
    }
}

/// The branches decoded so far, then those of the rest.
pub open spec fn join_branches(
    t: Seq<InstrView>,
    e: Seq<InstrView>,
    r: SpecResult<(Seq<InstrView>, Seq<InstrView>)>,
) -> SpecResult<(Seq<InstrView>, Seq<InstrView>)> {
    match r {
        Ok(((t2, e2), q)) => Ok(((t + t2, e + e2), q)),
        Err(err) => Err(err),
    }
}

fn decode_mem_arg(decoder: &mut Decoder) -> (r: Result<MemArg, WasmError>)
    requires
        old(decoder).wf(),
    ensures
        final(decoder).data() == old(decoder).data(),
        final(decoder).wf(),
        outcome(r, final(decoder).pos()) == sp_mem_arg(old(decoder).data(), old(decoder).pos()),
        r is Ok ==> old(decoder).pos() < final(decoder).pos(),
        old(decoder).pos() <= final(decoder).pos(),
{
    let align = decoder.read_u32_leb128()?;
    let offset = decoder.read_u32_leb128()?;
    Ok(MemArg { align, offset })
}

fn decode_single_instruction(decoder: &mut Decoder, opcode_byte: u8) -> (r: Result<Instruction, WasmError>)
    requires
        old(decoder).wf(),
    ensures
        final(decoder).data() == old(decoder).data(),
        final(decoder).wf(),
        outcome_instr(r, final(decoder).pos()) == sp_single(old(decoder).data(), old(decoder).pos(), opcode_byte),
        r is Ok ==> old(decoder).pos() <= final(decoder).pos(),
    decreases old(decoder).data().len() - old(decoder).pos(), 1int,
{
    match opcode_byte {
        0x02 => {
            let block_type = BlockType::from_i64(decoder.read_i32_leb128()? as i64)?;
            let body = decode_instructions_until_end(decoder)?;
            Ok(Instruction::Block { block_type, body })
        },
        0x03 => {
            let block_type = BlockType::from_i64(decoder.read_i32_leb128()? as i64)?;
            let body = decode_instructions_until_end(decoder)?;
            Ok(Instruction::Loop { block_type, body })
        },
        0x04 => {
            let block_type = BlockType::from_i64(decoder.read_i32_leb128()? as i64)?;
            let (then_branch, else_branch) = decode_if_branches(decoder)?;
            Ok(Instruction::If { block_type, then_branch, else_branch })
        },
        _ => decode_leaf_instruction(decoder, opcode_byte),
    }
}

fn decode_instructions_until_end(decoder: &mut Decoder) -> (r: Result<Vec<Instruction>, WasmError>)
    requires
        old(decoder).wf(),
    ensures
        final(decoder).data() == old(decoder).data(),
        final(decoder).wf(),
        outcome_instrs(r, final(decoder).pos()) == sp_until_end(old(decoder).data(), old(decoder).pos()),
        r is Ok ==> old(decoder).pos() < final(decoder).pos(),
    decreases old(decoder).data().len() - old(decoder).pos(), 0int,
{
    let mut instructions: Vec<Instruction> = Vec::new();
    let ghost s = decoder.data();
    let ghost p0 = decoder.pos();
    loop
        invariant
            decoder.wf(),
            decoder.data() == s,
            s == old(decoder).data(),
            p0 == old(decoder).pos(),
            p0 <= decoder.pos(),
            sp_until_end(s, p0) == prepend(instrs_view(instructions@), sp_until_end(s, decoder.pos())),
        decreases s.len() - decoder.pos(),
    {
        let ghost p = decoder.pos();
        let opcode_byte = decoder.read_u8()?;
        if opcode_byte == 0x0b {
            proof {
                assert(instrs_view(instructions@) + Seq::<InstrView>::empty() =~= instrs_view(
                    instructions@,
                ));
            }
            return Ok(instructions);
        }
        // Handle nested blocks

        let instr = if opcode_byte == 0x02 || opcode_byte == 0x03 || opcode_byte == 0x04 {
            decode_single_instruction(decoder, opcode_byte)?
        } else {
            decoder.unread();  // Put back the byte
            let opcode = decoder.read_u8()?;
            decode_single_instruction(decoder, opcode)?
        };
        proof {
            lemma_prepend_push(instructions@, instr, sp_until_end(s, decoder.pos()));
        }
        instructions.push(instr);
    }
}


fn decode_if_branches(decoder: &mut Decoder) -> (r: Result<(Vec<Instruction>, Vec<Instruction>), WasmError>)
    requires
        old(decoder).wf(),
    ensures
        final(decoder).data() == old(decoder).data(),
        final(decoder).wf(),
        (match r {
            Ok((t, e)) => Ok(((instrs_view(t@), instrs_view(e@)), final(decoder).pos())),
            Err(err) => Err(err@),
        }) == sp_if_branches(old(decoder).data(), old(decoder).pos(), false),
        r is Ok ==> old(decoder).pos() < final(decoder).pos(),
    decreases old(decoder).data().len() - old(decoder).pos(), 0int,
{
    let mut then_branch: Vec<Instruction> = Vec::new();
    let mut else_branch: Vec<Instruction> = Vec::new();
    let mut in_else = false;
    let ghost s = decoder.data();
    let ghost p0 = decoder.pos();
    loop
        invariant
            decoder.wf(),
            decoder.data() == s,
            s == old(decoder).data(),
            p0 == old(decoder).pos(),
            p0 <= decoder.pos(),
            !in_else ==> else_branch@.len() == 0,
            sp_if_branches(s, p0, false) == join_branches(
                instrs_view(then_branch@),
                instrs_view(else_branch@),
                sp_if_branches(s, decoder.pos(), in_else),
            ),
        decreases s.len() - decoder.pos(),
    {
        let ghost p = decoder.pos();
        let opcode_byte = decoder.read_u8()?;
        if opcode_byte == 0x0b {
            proof {
                assert(instrs_view(then_branch@) + Seq::<InstrView>::empty() =~= instrs_view(
                    then_branch@,
                ));
                assert(instrs_view(else_branch@) + Seq::<InstrView>::empty() =~= instrs_view(
                    else_branch@,
                ));
            }
            return Ok((then_branch, else_branch));
        } else if opcode_byte == 0x05 {
            in_else = true;
            continue ;
        }
        let instr = decode_single_instruction(decoder, opcode_byte)?;
        proof {
            let rest = sp_if_branches(s, decoder.pos(), in_else);
            lemma_instrs_view_push(then_branch@, instr);
            lemma_instrs_view_push(else_branch@, instr);
            if let Ok(((t2, e2), q)) = rest {
                assert(instrs_view(then_branch@) + (seq![instr_view(instr)] + t2) =~= instrs_view(
                    then_branch@,
                ).push(instr_view(instr)) + t2);
                assert(instrs_view(else_branch@) + (seq![instr_view(instr)] + e2) =~= instrs_view(
                    else_branch@,
                ).push(instr_view(instr)) + e2);
            }
        }
        if in_else {
            else_branch.push(instr);
        } else {
            then_branch.push(instr);
        }
    }
}

/// An instruction at the level of an expression, whose opcode (not the end
/// opcode 0x0b) has been read.
pub open spec fn sp_instr(s: Seq<u8>, p: int, op: u8) -> SpecResult<InstrView> {
    if op == 0x02 || op == 0x03 {
        match sp_block_type(s, p) {
            Ok((bt, q)) => match sp_until_end(s, q) {
                Ok((body, r)) => Ok(
                    (
                        if op == 0x02 {
                            InstrView::Block { block_type: bt, body }
                        } else {
                            InstrView::Loop { block_type: bt, body }
                        },
                        r,
                    ),
                ),
                Err(e) => Err(e),
            },
            Err(e) => Err(e),
        }
    } else if op == 0x04 {
        match sp_block_type(s, p) {
            Ok((bt, q)) => match sp_if_branches(s, q, false) {
                Ok(((t, e), r)) => Ok(
                    (InstrView::If { block_type: bt, then_branch: t, else_branch: e }, r),
                ),
                Err(e) => Err(e),
            },
            Err(e) => Err(e),
        }
    } else {
        sp_leaf_instr(s, p, op)
    }
}

/// An instruction that holds no others, whose opcode (not one of a block,
/// a loop or an if) has been read.
pub open spec fn sp_leaf_instr(s: Seq<u8>, p: int, op: u8) -> SpecResult<InstrView> {
    if op == 0x00 {
        Ok((InstrView::Leaf(Instruction::Unreachable), p))
    } else if op == 0x01 {
        Ok((InstrView::Leaf(Instruction::Nop), p))
    } else if op == 0x0c {
        sp_with_u32(s, p, |v: u32| Instruction::Br { label_idx: v })
    } else if op == 0x0d {
        sp_with_u32(s, p, |v: u32| Instruction::BrIf { label_idx: v })
    } else if op == 0x0e {
        match sp_leb_u32(s, p) {
            Ok((count, q)) => match sp_u32_list(s, q, count as nat) {
                Ok((labels, r)) => match sp_leb_u32(s, r) {
                    Ok((default_label, r2)) => Ok((InstrView::BrTable { labels, default_label }, r2)),
                    Err(e) => Err(e),
                },
                Err(e) => Err(e),
            },
            Err(e) => Err(e),
        }
    } else if op == 0x0f {
        Ok((InstrView::Leaf(Instruction::Return), p))
    } else if op == 0x10 {
        sp_with_u32(s, p, |v: u32| Instruction::Call { function_idx: v })
    } else if op == 0x11 {
        match sp_leb_u32(s, p) {
            Ok((type_idx, q)) => match sp_leb_u32(s, q) {
                Ok((table_idx, r)) => Ok(
                    (InstrView::Leaf(Instruction::CallIndirect { type_idx, table_idx }), r),
                ),
                Err(e) => Err(e),
            },
            Err(e) => Err(e),
        }
    } else if op == 0x1a {
        Ok((InstrView::Leaf(Instruction::Drop), p))
    } else if op == 0x1b {
        Ok((InstrView::Leaf(Instruction::Select), p))
    } else if op == 0x20 {
        sp_with_u32(s, p, |v: u32| Instruction::LocalGet { local_idx: v })
    } else if op == 0x21 {
        sp_with_u32(s, p, |v: u32| Instruction::LocalSet { local_idx: v })
    } else if op == 0x22 {
        sp_with_u32(s, p, |v: u32| Instruction::LocalTee { local_idx: v })
    } else if op == 0x23 {
        sp_with_u32(s, p, |v: u32| Instruction::GlobalGet { global_idx: v })
    } else if op == 0x24 {
        sp_with_u32(s, p, |v: u32| Instruction::GlobalSet { global_idx: v })
    } else if 0x28 <= op <= 0x3e {
        match sp_mem_arg(s, p) {
            Ok((m, q)) => match memory_instr(op, m) {
                Some(i) => Ok((InstrView::Leaf(i), q)),
                None => Err(WasmErrorView::InvalidOpcode(op)),
            },
            Err(e) => Err(e),
        }
    } else if op == 0x3f || op == 0x40 {
        match sp_u8(s, p) {
            Ok((mem_idx, q)) => Ok(
                (
                    InstrView::Leaf(
                        if op == 0x3f {
                            Instruction::MemorySize { mem_idx }
                        } else {
                            Instruction::MemoryGrow { mem_idx }
                        },
                    ),
                    q,
                ),
            ),
            Err(e) => Err(e),
        }
    } else if op == 0x41 {
        match sp_leb_i32(s, p) {
            Ok((v, q)) => Ok((InstrView::Leaf(Instruction::I32Const { value: v }), q)),
            Err(e) => Err(e),
        }
    } else if op == 0x42 {
        match sp_leb_i64(s, p) {
            Ok((v, q)) => Ok((InstrView::Leaf(Instruction::I64Const { value: v }), q)),
            Err(e) => Err(e),
        }
    } else if op == 0x43 {
        match sp_u32_le(s, p) {
            Ok((v, q)) => Ok((InstrView::Leaf(Instruction::F32Const { bits: v }), q)),
            Err(e) => Err(e),
        }
    } else if op == 0x44 {
        match sp_u64_le(s, p) {
            Ok((v, q)) => Ok((InstrView::Leaf(Instruction::F64Const { bits: v }), q)),
            Err(e) => Err(e),
        }
    } else if op == 0xd0 {
        match sp_u8(s, p) {
            Ok((b, q)) => match value_type_of_byte(b) {
                Some(ty) => Ok((InstrView::Leaf(Instruction::RefNull { ty }), q)),
                None => Err(WasmErrorView::InvalidValueType(b)),
            },
            Err(e) => Err(e),
        }
    } else if op == 0xd1 {
        Ok((InstrView::Leaf(Instruction::RefIsNull), p))
    } else if op == 0xd2 {
        sp_with_u32(s, p, |v: u32| Instruction::RefFunc { func_idx: v })
    } else {
        match numeric_instr(op) {
            Some(i) => Ok((InstrView::Leaf(i), p)),
            None => Err(WasmErrorView::InvalidOpcode(op)),
        }
    }
}

/// An expression: instructions up to the end opcode 0x0b, which is read.
pub open spec fn sp_instrs(s: Seq<u8>, p: int) -> SpecResult<Seq<InstrView>>
    decreases s.len() - p,
{
    match sp_u8(s, p) {
        Ok((op, q)) => if op == 0x0b {
            Ok((Seq::empty(), q))
        } else {
            match sp_instr(s, q, op) {
                Ok((i, r)) => if advanced(s, p, r) {
                    prepend(seq![i], sp_instrs(s, r))
                } else {
                    Err(WasmErrorView::UnexpectedEof)
                },
                Err(e) => Err(e),
            }
        },
        Err(e) => Err(e),
    }
}

pub(crate) fn decode_u32_list(decoder: &mut Decoder, count: usize) -> (r: Result<Vec<u32>, WasmError>)
    requires
        old(decoder).wf(),
    ensures
        final(decoder).data() == old(decoder).data(),
        final(decoder).wf(),
        outcome_view(r, final(decoder).pos()) == sp_u32_list(old(decoder).data(), old(decoder).pos(), count as nat),
        old(decoder).pos() <= final(decoder).pos(),
{
    let mut values: Vec<u32> = Vec::new();
    let mut i: usize = 0;
    let ghost s = decoder.data();
    let ghost p0 = decoder.pos();
    while i < count
        invariant
            decoder.wf(),
            decoder.data() == s,
            s == old(decoder).data(),
            p0 == old(decoder).pos(),
            p0 <= decoder.pos(),
            i <= count,
            sp_u32_list(s, p0, count as nat) == prepend(values@, sp_u32_list(s, decoder.pos(), (count - i) as nat)),
        decreases count - i,
    {
        let v = decoder.read_u32_leb128()?;
        proof {
            lemma_prepend_twice(values@, seq![v], sp_u32_list(s, decoder.pos(), (count - i - 1) as nat));
            assert(values@ + seq![v] =~= values@.push(v));
        }
        values.push(v);
        i += 1;
    }
    proof {
        assert(values@ + Seq::<u32>::empty() =~= values@);
    }
    Ok(values)
}

/// Decode an expression: instructions up to the end opcode 0x0b.
/// Decode an instruction that holds no others, whose opcode (not one of a
/// block, a loop or an if) has been read.
fn decode_leaf_instruction(decoder: &mut Decoder, opcode_byte: u8) -> (r: Result<Instruction, WasmError>)
    requires
        old(decoder).wf(),
    ensures
        final(decoder).data() == old(decoder).data(),
        final(decoder).wf(),
        outcome_instr(r, final(decoder).pos()) == sp_leaf_instr(old(decoder).data(), old(decoder).pos(), opcode_byte),
        old(decoder).pos() <= final(decoder).pos(),
{
    let instr = match opcode_byte {
        0x00 => Instruction::Unreachable,
        0x01 => Instruction::Nop,
        0x0c => Instruction::Br { label_idx: decoder.read_u32_leb128()? },
        0x0d => Instruction::BrIf { label_idx: decoder.read_u32_leb128()? },
        0x0e => {
            let label_count = decoder.read_u32_leb128()? as usize;
            let labels = decode_u32_list(decoder, label_count)?;
            let default_label = decoder.read_u32_leb128()?;
            Instruction::BrTable { labels, default_label }
        },
        0x0f => Instruction::Return,
        0x10 => Instruction::Call { function_idx: decoder.read_u32_leb128()? },
        0x11 => {
            let type_idx = decoder.read_u32_leb128()?;
            let table_idx = decoder.read_u32_leb128()?;
            Instruction::CallIndirect { type_idx, table_idx }
        },
        0x1a => Instruction::Drop,
        0x1b => Instruction::Select,
        0x20 => Instruction::LocalGet { local_idx: decoder.read_u32_leb128()? },
        0x21 => Instruction::LocalSet { local_idx: decoder.read_u32_leb128()? },
        0x22 => Instruction::LocalTee { local_idx: decoder.read_u32_leb128()? },
        0x23 => Instruction::GlobalGet { global_idx: decoder.read_u32_leb128()? },
        0x24 => Instruction::GlobalSet { global_idx: decoder.read_u32_leb128()? },
        0x28..=0x3e => {
            let mem_arg = decode_mem_arg(decoder)?;
            match memory_from_opcode(opcode_byte, mem_arg) {
                Some(i) => i,
                None => return Err(WasmError::InvalidOpcode(opcode_byte)),
            }
        },
        0x3f => {
            let mem_idx = decoder.read_u8()?;
            Instruction::MemorySize { mem_idx }
        },
        0x40 => {
            let mem_idx = decoder.read_u8()?;
            Instruction::MemoryGrow { mem_idx }
        },
        0x41 => Instruction::I32Const { value: decoder.read_i32_leb128()? },
        0x42 => Instruction::I64Const { value: decoder.read_i64_leb128()? },
        0x43 => Instruction::F32Const { bits: decoder.read_u32_le()? },
        0x44 => Instruction::F64Const { bits: decoder.read_u64_le()? },
        0xd0 => {
            let ty = ValueType::from_byte(decoder.read_u8()?)?;
            Instruction::RefNull { ty }
        },
        0xd1 => Instruction::RefIsNull,
        0xd2 => Instruction::RefFunc { func_idx: decoder.read_u32_leb128()? },
        _ => match numeric_from_opcode(opcode_byte) {
            Some(i) => i,
            None => return Err(WasmError::InvalidOpcode(opcode_byte)),
        },
    };
    Ok(instr)
}

fn decode_instructions(decoder: &mut Decoder) -> (r: Result<Vec<Instruction>, WasmError>)
    requires
        old(decoder).wf(),
    ensures
        final(decoder).data() == old(decoder).data(),
        final(decoder).wf(),
        outcome_instrs(r, final(decoder).pos()) == sp_instrs(old(decoder).data(), old(decoder).pos()),
        r is Ok ==> old(decoder).pos() < final(decoder).pos(),
{
    let mut instructions: Vec<Instruction> = Vec::new();
    let ghost s = decoder.data();
    let ghost p0 = decoder.pos();
    loop
        invariant
            decoder.wf(),
            decoder.data() == s,
            s == old(decoder).data(),
            p0 == old(decoder).pos(),
            p0 <= decoder.pos(),
            sp_instrs(s, p0) == prepend(instrs_view(instructions@), sp_instrs(s, decoder.pos())),
        decreases s.len() - decoder.pos(),
    {
        let opcode_byte = decoder.read_u8()?;
        if opcode_byte == 0x0b {
            proof {
                assert(instrs_view(instructions@) + Seq::<InstrView>::empty() =~= instrs_view(
                    instructions@,
                ));
            }
            return Ok(instructions);
        }
        let ghost q = decoder.pos();
        let instr = match opcode_byte {
            0x02 => {
                let block_type = BlockType::from_i64(decoder.read_i32_leb128()? as i64)?;
                let body = decode_instructions_until_end(decoder)?;
                Instruction::Block { block_type, body }
            },
            0x03 => {
                let block_type = BlockType::from_i64(decoder.read_i32_leb128()? as i64)?;
                let body = decode_instructions_until_end(decoder)?;
                Instruction::Loop { block_type, body }
            },
            0x04 => {
                let block_type = BlockType::from_i64(decoder.read_i32_leb128()? as i64)?;
                let (then_branch, else_branch) = decode_if_branches(decoder)?;
                Instruction::If { block_type, then_branch, else_branch }
            },
            _ => decode_leaf_instruction(decoder, opcode_byte)?,
        };
        assert(sp_instr(s, q, opcode_byte) == Ok::<(InstrView, int), WasmErrorView>(
            (instr_view(instr), decoder.pos()),
        ));
        proof {
            lemma_prepend_push(instructions@, instr, sp_instrs(s, decoder.pos()));
        }
        instructions.push(instr);
    }
}


// ---------------------------------------------------------------------------
// Sections.

/// The value of a read, without the position after it.
pub open spec fn value_of<T>(r: SpecResult<T>) -> Result<T, WasmErrorView> {
    match r {
        Ok((v, _)) => Ok(v),
        Err(e) => Err(e),
    }
}

/// What a decoded list stands for, each item by its model.
pub open spec fn list_outcome<T: View>(r: Result<Vec<T>, WasmError>) -> Result<Seq<T::V>, WasmErrorView> {
    match r {
        Ok(v) => Ok(views(v@)),
        Err(e) => Err(e@),
    }
}

/// What a decoded list of plain values stands for.
pub open spec fn plain_outcome<T>(r: Result<Vec<T>, WasmError>) -> Result<Seq<T>, WasmErrorView> {
    match r {
        Ok(v) => Ok(v@),
        Err(e) => Err(e@),
    }
}

proof fn lemma_views_push<T: View>(s: Seq<T>, x: T)
    ensures
        views(s.push(x)) == views(s).push(x@),
{
    assert(views(s.push(x)) =~= views(s).push(x@));
}

proof fn lemma_prepend_one<T>(acc: Seq<T>, x: T, r: SpecResult<Seq<T>>)
    ensures
        prepend(acc, prepend(seq![x], r)) == prepend(acc.push(x), r),
{
    lemma_prepend_twice(acc, seq![x], r);
    assert(acc + seq![x] =~= acc.push(x));
}

proof fn lemma_prepend_empty<T>(acc: Seq<T>, q: int)
    ensures
        prepend(acc, Ok((Seq::<T>::empty(), q))) == Ok::<(Seq<T>, int), WasmErrorView>((acc, q)),
{
    assert(acc + Seq::<T>::empty() =~= acc);
}

/// A value type, as one byte.
pub open spec fn sp_value_type(s: Seq<u8>, p: int) -> SpecResult<ValueType> {
    match sp_u8(s, p) {
        Ok((b, q)) => match value_type_of_byte(b) {
            Some(t) => Ok((t, q)),
            None => Err(WasmErrorView::InvalidValueType(b)),
        },
        Err(e) => Err(e),
    }
}

/// `count` value types.
pub open spec fn sp_value_types(s: Seq<u8>, p: int, count: nat) -> SpecResult<Seq<ValueType>>
    decreases count,
{
    if count == 0 {
        Ok((Seq::empty(), p))
    } else {
        match sp_value_type(s, p) {
            Ok((v, q)) => prepend(seq![v], sp_value_types(s, q, (count - 1) as nat)),
            Err(e) => Err(e),
        }
    }
}

/// A vector of value types: its length, then its items.
pub open spec fn sp_value_type_vec(s: Seq<u8>, p: int) -> SpecResult<Seq<ValueType>> {
    match sp_leb_u32(s, p) {
        Ok((count, q)) => sp_value_types(s, q, count as nat),
        Err(e) => Err(e),
    }
}

/// The message of the error for a function type whose form byte is not
/// 0x60: "Invalid function type form: " and the byte in decimal.
pub open spec fn form_message(form: u8) -> Seq<char> {
    "Invalid function type form: "@ + decimal(form as nat)
}

/// The message of the error for a bad function type form.
fn invalid_form_message(form: u8) -> (r: String)
    ensures
        r@ == form_message(form),
{
    let mut r = String::from_str("Invalid function type form: ");
    append_decimal(&mut r, form as u64);
    r
}

/// A function type: the form byte 0x60, the parameter types, the result
/// types.
pub open spec fn sp_func_type(s: Seq<u8>, p: int) -> SpecResult<FuncTypeView> {
    match sp_u8(s, p) {
        Ok((form, q)) => if form != 0x60 {
            Err(WasmErrorView::Custom(form_message(form)))
        } else {
            match sp_value_type_vec(s, q) {
                Ok((params, r)) => match sp_value_type_vec(s, r) {
                    Ok((results, r2)) => Ok((FuncTypeView { params, results }, r2)),
                    Err(e) => Err(e),
                },
                Err(e) => Err(e),
            }
        },
        Err(e) => Err(e),
    }
}

/// `count` function types.
pub open spec fn sp_func_types(s: Seq<u8>, p: int, count: nat) -> SpecResult<Seq<FuncTypeView>>
    decreases count,
{
    if count == 0 {
        Ok((Seq::empty(), p))
    } else {
        match sp_func_type(s, p) {
            Ok((v, q)) => prepend(seq![v], sp_func_types(s, q, (count - 1) as nat)),
            Err(e) => Err(e),
        }
    }
}

/// The type section: its count, then the function types.
pub open spec fn sp_type_section(d: Seq<u8>) -> Result<Seq<FuncTypeView>, WasmErrorView> {
    match sp_leb_u32(d, 0) {
        Ok((count, q)) => value_of(sp_func_types(d, q, count as nat)),
        Err(e) => Err(e),
    }
}

pub(crate) fn decode_value_type(decoder: &mut Decoder) -> (r: Result<ValueType, WasmError>)
    requires
        old(decoder).wf(),
    ensures
        final(decoder).data() == old(decoder).data(),
        final(decoder).wf(),
        outcome(r, final(decoder).pos()) == sp_value_type(old(decoder).data(), old(decoder).pos()),
        old(decoder).pos() <= final(decoder).pos(),
{
    ValueType::from_byte(decoder.read_u8()?)
}

pub(crate) fn decode_value_type_vec(decoder: &mut Decoder) -> (r: Result<Vec<ValueType>, WasmError>)
    requires
        old(decoder).wf(),
    ensures
        final(decoder).data() == old(decoder).data(),
        final(decoder).wf(),
        outcome_view(r, final(decoder).pos()) == sp_value_type_vec(old(decoder).data(), old(decoder).pos()),
        old(decoder).pos() <= final(decoder).pos(),
{
    let count = decoder.read_u32_leb128()? as usize;
    let mut types: Vec<ValueType> = Vec::new();
    let mut i: usize = 0;
    let ghost s = decoder.data();
    let ghost p0 = decoder.pos();
    while i < count
        invariant
            decoder.wf(),
            decoder.data() == s,
            s == old(decoder).data(),
            old(decoder).pos() <= decoder.pos(),
            i <= count,
            sp_value_type_vec(s, old(decoder).pos()) == sp_value_types(s, p0, count as nat),
            sp_value_types(s, p0, count as nat) == prepend(types@, sp_value_types(s, decoder.pos(), (count - i) as nat)),
        decreases count - i,
    {
        let t = decode_value_type(decoder)?;
        proof {
            lemma_prepend_one(types@, t, sp_value_types(s, decoder.pos(), (count - i - 1) as nat));
        }
        types.push(t);
        i += 1;
    }
    proof {
        lemma_prepend_empty(types@, decoder.pos());
    }
    Ok(types)
}

fn decode_func_type(decoder: &mut Decoder) -> (r: Result<FuncType, WasmError>)
    requires
        old(decoder).wf(),
    ensures
        final(decoder).data() == old(decoder).data(),
        final(decoder).wf(),
        outcome_view(r, final(decoder).pos()) == sp_func_type(old(decoder).data(), old(decoder).pos()),
{
    let form = decoder.read_u8()?;
    if form != 0x60 {
        return Err(WasmError::Custom(invalid_form_message(form)));
    }
    let params = decode_value_type_vec(decoder)?;
    let results = decode_value_type_vec(decoder)?;
    Ok(FuncType::new(params, results))
}

fn decode_type_section(data: &[u8]) -> (r: Result<Vec<FuncType>, WasmError>)
    ensures
        list_outcome(r) == sp_type_section(data@),
{
    let mut decoder = Decoder::new(data);
    let count = decoder.read_u32_leb128()? as usize;
    let mut types: Vec<FuncType> = Vec::new();
    let mut i: usize = 0;
    let ghost s = decoder.data();
    let ghost p0 = decoder.pos();
    while i < count
        invariant
            decoder.wf(),
            decoder.data() == s,
            s == data@,
            i <= count,
            sp_type_section(data@) == value_of(sp_func_types(s, p0, count as nat)),
            sp_func_types(s, p0, count as nat) == prepend(views(types@), sp_func_types(s, decoder.pos(), (count - i) as nat)),
        decreases count - i,
    {
        let t = decode_func_type(&mut decoder)?;
        proof {
            lemma_prepend_one(views(types@), t@, sp_func_types(s, decoder.pos(), (count - i - 1) as nat));
            lemma_views_push(types@, t);
        }
        types.push(t);
        i += 1;
    }
    proof {
        lemma_prepend_empty(views(types@), decoder.pos());
    }
    Ok(types)
}


/// An external kind, as one byte.
pub open spec fn sp_external_kind(s: Seq<u8>, p: int) -> SpecResult<ExternalKind> {
    match sp_u8(s, p) {
        Ok((b, q)) => match external_kind_of_byte(b) {
            Some(k) => Ok((k, q)),
            None => Err(WasmErrorView::InvalidExternalKind(b)),
        },
        Err(e) => Err(e),
    }
}

/// An import: module name, field name, kind, index.
pub open spec fn sp_import(s: Seq<u8>, p: int) -> SpecResult<ImportView> {
    match sp_name(s, p) {
        Ok((module, q1)) => match sp_name(s, q1) {
            Ok((name, q2)) => match sp_external_kind(s, q2) {
                Ok((kind, q3)) => match sp_leb_u32(s, q3) {
                    Ok((idx, q4)) => Ok((ImportView { module, name, kind, idx }, q4)),
                    Err(e) => Err(e),
                },
                Err(e) => Err(e),
            },
            Err(e) => Err(e),
        },
        Err(e) => Err(e),
    }
}

fn decode_external_kind(decoder: &mut Decoder) -> (r: Result<ExternalKind, WasmError>)
    requires
        old(decoder).wf(),
    ensures
        final(decoder).data() == old(decoder).data(),
        final(decoder).wf(),
        outcome(r, final(decoder).pos()) == sp_external_kind(old(decoder).data(), old(decoder).pos()),
{
    ExternalKind::from_byte(decoder.read_u8()?)
}

fn decode_import(decoder: &mut Decoder) -> (r: Result<Import, WasmError>)
    requires
        old(decoder).wf(),
    ensures
        final(decoder).data() == old(decoder).data(),
        final(decoder).wf(),
        outcome_view(r, final(decoder).pos()) == sp_import(old(decoder).data(), old(decoder).pos()),
{
    let module = decoder.read_name()?;
    let name = decoder.read_name()?;
    let kind = decode_external_kind(decoder)?;
    let idx = decoder.read_u32_leb128()?;
    Ok(Import { module, name, kind, idx })
}

/// `count` items, each read by `sp_import`.
pub open spec fn sp_imports(s: Seq<u8>, p: int, count: nat) -> SpecResult<Seq<ImportView>>
    decreases count,
{
    if count == 0 {
        Ok((Seq::empty(), p))
    } else {
        match sp_import(s, p) {
            Ok((v, q)) => prepend(seq![v], sp_imports(s, q, (count - 1) as nat)),
            Err(e) => Err(e),
        }
    }
}

/// The import section: its count, then the imports.
pub open spec fn sp_import_section(d: Seq<u8>) -> Result<Seq<ImportView>, WasmErrorView> {
    match sp_leb_u32(d, 0) {
        Ok((count, q)) => value_of(sp_imports(d, q, count as nat)),
        Err(e) => Err(e),
    }
}

fn decode_import_section(data: &[u8]) -> (r: Result<Vec<Import>, WasmError>)
    ensures
        list_outcome(r) == sp_import_section(data@),
{
    let mut decoder = Decoder::new(data);
    let count = decoder.read_u32_leb128()? as usize;
    let mut items: Vec<Import> = Vec::new();
    let mut i: usize = 0;
    let ghost s = decoder.data();
    let ghost p0 = decoder.pos();
    while i < count
        invariant
            decoder.wf(),
            decoder.data() == s,
            s == data@,
            i <= count,
            sp_import_section(data@) == value_of(sp_imports(s, p0, count as nat)),
            sp_imports(s, p0, count as nat) == prepend(views(items@), sp_imports(s, decoder.pos(), (count - i) as nat)),
        decreases count - i,
    {
        let x = decode_import(&mut decoder)?;
        proof {
            lemma_prepend_one(views(items@), x@, sp_imports(s, decoder.pos(), (count - i - 1) as nat));
            lemma_views_push(items@, x);
        }
        items.push(x);
        i += 1;
    }
    proof {
        lemma_prepend_empty(views(items@), decoder.pos());
    }
    Ok(items)
}

/// The function section: its count, then the type index of each function.
pub open spec fn sp_func_section(d: Seq<u8>) -> Result<Seq<u32>, WasmErrorView> {
    match sp_leb_u32(d, 0) {
        Ok((count, q)) => value_of(sp_u32_list(d, q, count as nat)),
        Err(e) => Err(e),
    }
}

fn decode_func_section(data: &[u8]) -> (r: Result<Vec<u32>, WasmError>)
    ensures
        plain_outcome(r) == sp_func_section(data@),
{
    let mut decoder = Decoder::new(data);
    let count = decoder.read_u32_leb128()? as usize;
    decode_u32_list(&mut decoder, count)
}

/// Limits: a flags byte (0x01 a maximum follows, 0x02 shared, 0x04 64-bit
/// index), the minimum, and the maximum where the flags say so.
pub open spec fn sp_limits(s: Seq<u8>, p: int) -> SpecResult<Limits> {
    match sp_u8(s, p) {
        Ok((flags, q)) => match sp_leb_u32(s, q) {
            Ok((min, r)) => if flags & 0x01 != 0 {
                match sp_leb_u32(s, r) {
                    Ok((max, r2)) => Ok(
                        (
                            Limits {
                                min,
                                max: Some(max),
                                memory64: flags & 0x04 != 0,
                                shared: flags & 0x02 != 0,
                            },
                            r2,
                        ),
                    ),
                    Err(e) => Err(e),
                }
            } else {
                Ok(
                    (
                        Limits {
                            min,
                            max: None,
                            memory64: flags & 0x04 != 0,
                            shared: flags & 0x02 != 0,
                        },
                        r,
                    ),
                )
            },
            Err(e) => Err(e),
        },
        Err(e) => Err(e),
    }
}

fn decode_limits(decoder: &mut Decoder) -> (r: Result<Limits, WasmError>)
    requires
        old(decoder).wf(),
    ensures
        final(decoder).data() == old(decoder).data(),
        final(decoder).wf(),
        outcome(r, final(decoder).pos()) == sp_limits(old(decoder).data(), old(decoder).pos()),
{
    let flags = decoder.read_u8()?;
    let has_max = flags & 0x01 != 0;
    let memory64 = flags & 0x04 != 0;
    let shared = flags & 0x02 != 0;

    let min = decoder.read_u32_leb128()?;
    let max = if has_max {
        Some(decoder.read_u32_leb128()?)
    } else {
        None
    };

    Ok(Limits { min, max, memory64, shared })
}

/// A table: element type, then limits.
pub open spec fn sp_table(s: Seq<u8>, p: int) -> SpecResult<TableType> {
    match sp_value_type(s, p) {
        Ok((elem_type, q)) => match sp_limits(s, q) {
            Ok((limits, r)) => Ok((TableType { limits, elem_type }, r)),
            Err(e) => Err(e),
        },
        Err(e) => Err(e),
    }
}

fn decode_table(decoder: &mut Decoder) -> (r: Result<TableType, WasmError>)
    requires
        old(decoder).wf(),
    ensures
        final(decoder).data() == old(decoder).data(),
        final(decoder).wf(),
        outcome(r, final(decoder).pos()) == sp_table(old(decoder).data(), old(decoder).pos()),
{
    let elem_type = decode_value_type(decoder)?;
    let limits = decode_limits(decoder)?;
    Ok(TableType { limits, elem_type })
}

/// A memory: its limits.
pub open spec fn sp_memory(s: Seq<u8>, p: int) -> SpecResult<MemType> {
    match sp_limits(s, p) {
        Ok((limits, q)) => Ok((MemType { limits }, q)),
        Err(e) => Err(e),
    }
}

fn decode_memory(decoder: &mut Decoder) -> (r: Result<MemType, WasmError>)
    requires
        old(decoder).wf(),
    ensures
        final(decoder).data() == old(decoder).data(),
        final(decoder).wf(),
        outcome(r, final(decoder).pos()) == sp_memory(old(decoder).data(), old(decoder).pos()),
{
    let limits = decode_limits(decoder)?;
    Ok(MemType { limits })
}

/// `count` items, each read by `sp_table`.
pub open spec fn sp_tables(s: Seq<u8>, p: int, count: nat) -> SpecResult<Seq<TableType>>
    decreases count,
{
    if count == 0 {
        Ok((Seq::empty(), p))
    } else {
        match sp_table(s, p) {
            Ok((v, q)) => prepend(seq![v], sp_tables(s, q, (count - 1) as nat)),
            Err(e) => Err(e),
        }
    }
}

/// The table section: its count, then the tables.
pub open spec fn sp_table_section(d: Seq<u8>) -> Result<Seq<TableType>, WasmErrorView> {
    match sp_leb_u32(d, 0) {
        Ok((count, q)) => value_of(sp_tables(d, q, count as nat)),
        Err(e) => Err(e),
    }
}

fn decode_table_section(data: &[u8]) -> (r: Result<Vec<TableType>, WasmError>)
    ensures
        plain_outcome(r) == sp_table_section(data@),
{
    let mut decoder = Decoder::new(data);
    let count = decoder.read_u32_leb128()? as usize;
    let mut items: Vec<TableType> = Vec::new();
    let mut i: usize = 0;
    let ghost s = decoder.data();
    let ghost p0 = decoder.pos();
    while i < count
        invariant
            decoder.wf(),
            decoder.data() == s,
            s == data@,
            i <= count,
            sp_table_section(data@) == value_of(sp_tables(s, p0, count as nat)),
            sp_tables(s, p0, count as nat) == prepend(items@, sp_tables(s, decoder.pos(), (count - i) as nat)),
        decreases count - i,
    {
        let x = decode_table(&mut decoder)?;
        proof {
            lemma_prepend_one(items@, x, sp_tables(s, decoder.pos(), (count - i - 1) as nat));
            
        }
        items.push(x);
        i += 1;
    }
    proof {
        lemma_prepend_empty(items@, decoder.pos());
    }
    Ok(items)
}

/// `count` items, each read by `sp_memory`.
pub open spec fn sp_memories(s: Seq<u8>, p: int, count: nat) -> SpecResult<Seq<MemType>>
    decreases count,
{
    if count == 0 {
        Ok((Seq::empty(), p))
    } else {
        match sp_memory(s, p) {
            Ok((v, q)) => prepend(seq![v], sp_memories(s, q, (count - 1) as nat)),
            Err(e) => Err(e),
        }
    }
}

/// The memory section: its count, then the memories.
pub open spec fn sp_memory_section(d: Seq<u8>) -> Result<Seq<MemType>, WasmErrorView> {
    match sp_leb_u32(d, 0) {
        Ok((count, q)) => value_of(sp_memories(d, q, count as nat)),
        Err(e) => Err(e),
    }
}

fn decode_memory_section(data: &[u8]) -> (r: Result<Vec<MemType>, WasmError>)
    ensures
        plain_outcome(r) == sp_memory_section(data@),
{
    let mut decoder = Decoder::new(data);
    let count = decoder.read_u32_leb128()? as usize;
    let mut items: Vec<MemType> = Vec::new();
    let mut i: usize = 0;
    let ghost s = decoder.data();
    let ghost p0 = decoder.pos();
    while i < count
        invariant
            decoder.wf(),
            decoder.data() == s,
            s == data@,
            i <= count,
            sp_memory_section(data@) == value_of(sp_memories(s, p0, count as nat)),
            sp_memories(s, p0, count as nat) == prepend(items@, sp_memories(s, decoder.pos(), (count - i) as nat)),
        decreases count - i,
    {
        let x = decode_memory(&mut decoder)?;
        proof {
            lemma_prepend_one(items@, x, sp_memories(s, decoder.pos(), (count - i - 1) as nat));
            
        }
        items.push(x);
        i += 1;
    }
    proof {
        lemma_prepend_empty(items@, decoder.pos());
    }
    Ok(items)
}

/// A global: value type, mutability byte (0x01 is mutable), then the
/// initialization expression.
pub open spec fn sp_global(s: Seq<u8>, p: int) -> SpecResult<GlobalView> {
    match sp_value_type(s, p) {
        Ok((value_type, q)) => match sp_u8(s, q) {
            Ok((m, r)) => match sp_instrs(s, r) {
                Ok((init, r2)) => Ok(
                    (GlobalView { ty: GlobalType { value_type, mutable: m == 0x01 }, init }, r2),
                ),
                Err(e) => Err(e),
            },
            Err(e) => Err(e),
        },
        Err(e) => Err(e),
    }
}

fn decode_global(decoder: &mut Decoder) -> (r: Result<Global, WasmError>)
    requires
        old(decoder).wf(),
    ensures
        final(decoder).data() == old(decoder).data(),
        final(decoder).wf(),
        outcome_view(r, final(decoder).pos()) == sp_global(old(decoder).data(), old(decoder).pos()),
{
    let value_type = decode_value_type(decoder)?;
    let mutable = decoder.read_u8()? == 0x01;
    let ty = GlobalType { value_type, mutable };
    let init = decode_instructions(decoder)?;
    Ok(Global { ty, init })
}

/// `count` items, each read by `sp_global`.
pub open spec fn sp_globals(s: Seq<u8>, p: int, count: nat) -> SpecResult<Seq<GlobalView>>
    decreases count,
{
    if count == 0 {
        Ok((Seq::empty(), p))
    } else {
        match sp_global(s, p) {
            Ok((v, q)) => prepend(seq![v], sp_globals(s, q, (count - 1) as nat)),
            Err(e) => Err(e),
        }
    }
}

/// The global section: its count, then the globals.
pub open spec fn sp_global_section(d: Seq<u8>) -> Result<Seq<GlobalView>, WasmErrorView> {
    match sp_leb_u32(d, 0) {
        Ok((count, q)) => value_of(sp_globals(d, q, count as nat)),
        Err(e) => Err(e),
    }
}

fn decode_global_section(data: &[u8]) -> (r: Result<Vec<Global>, WasmError>)
    ensures
        list_outcome(r) == sp_global_section(data@),
{
    let mut decoder = Decoder::new(data);
    let count = decoder.read_u32_leb128()? as usize;
    let mut items: Vec<Global> = Vec::new();
    let mut i: usize = 0;
    let ghost s = decoder.data();
    let ghost p0 = decoder.pos();
    while i < count
        invariant
            decoder.wf(),
            decoder.data() == s,
            s == data@,
            i <= count,
            sp_global_section(data@) == value_of(sp_globals(s, p0, count as nat)),
            sp_globals(s, p0, count as nat) == prepend(views(items@), sp_globals(s, decoder.pos(), (count - i) as nat)),
        decreases count - i,
    {
        let x = decode_global(&mut decoder)?;
        proof {
            lemma_prepend_one(views(items@), x@, sp_globals(s, decoder.pos(), (count - i - 1) as nat));
            lemma_views_push(items@, x);
        }
        items.push(x);
        i += 1;
    }
    proof {
        lemma_prepend_empty(views(items@), decoder.pos());
    }
    Ok(items)
}

/// An export: name, kind, index.
pub open spec fn sp_export(s: Seq<u8>, p: int) -> SpecResult<ExportView> {
    match sp_name(s, p) {
        Ok((name, q1)) => match sp_external_kind(s, q1) {
            Ok((kind, q2)) => match sp_leb_u32(s, q2) {
                Ok((idx, q3)) => Ok((ExportView { name, kind, idx }, q3)),
                Err(e) => Err(e),
            },
            Err(e) => Err(e),
        },
        Err(e) => Err(e),
    }
}

fn decode_export(decoder: &mut Decoder) -> (r: Result<Export, WasmError>)
    requires
        old(decoder).wf(),
    ensures
        final(decoder).data() == old(decoder).data(),
        final(decoder).wf(),
        outcome_view(r, final(decoder).pos()) == sp_export(old(decoder).data(), old(decoder).pos()),
{
    let name = decoder.read_name()?;
    let kind = decode_external_kind(decoder)?;
    let idx = decoder.read_u32_leb128()?;
    Ok(Export { name, kind, idx })
}

/// `count` items, each read by `sp_export`.
pub open spec fn sp_exports(s: Seq<u8>, p: int, count: nat) -> SpecResult<Seq<ExportView>>
    decreases count,
{
    if count == 0 {
        Ok((Seq::empty(), p))
    } else {
        match sp_export(s, p) {
            Ok((v, q)) => prepend(seq![v], sp_exports(s, q, (count - 1) as nat)),
            Err(e) => Err(e),
        }
    }
}

/// The export section: its count, then the exports.
pub open spec fn sp_export_section(d: Seq<u8>) -> Result<Seq<ExportView>, WasmErrorView> {
    match sp_leb_u32(d, 0) {
        Ok((count, q)) => value_of(sp_exports(d, q, count as nat)),
        Err(e) => Err(e),
    }
}

fn decode_export_section(data: &[u8]) -> (r: Result<Vec<Export>, WasmError>)
    ensures
        list_outcome(r) == sp_export_section(data@),
{
    let mut decoder = Decoder::new(data);
    let count = decoder.read_u32_leb128()? as usize;
    let mut items: Vec<Export> = Vec::new();
    let mut i: usize = 0;
    let ghost s = decoder.data();
    let ghost p0 = decoder.pos();
    while i < count
        invariant
            decoder.wf(),
            decoder.data() == s,
            s == data@,
            i <= count,
            sp_export_section(data@) == value_of(sp_exports(s, p0, count as nat)),
            sp_exports(s, p0, count as nat) == prepend(views(items@), sp_exports(s, decoder.pos(), (count - i) as nat)),
        decreases count - i,
    {
        let x = decode_export(&mut decoder)?;
        proof {
            lemma_prepend_one(views(items@), x@, sp_exports(s, decoder.pos(), (count - i - 1) as nat));
            lemma_views_push(items@, x);
        }
        items.push(x);
        i += 1;
    }
    proof {
        lemma_prepend_empty(views(items@), decoder.pos());
    }
    Ok(items)
}

/// The start section: the index of the start function.
pub open spec fn sp_start_section(d: Seq<u8>) -> Result<u32, WasmErrorView> {
    value_of(sp_leb_u32(d, 0))
}

fn decode_start_section(data: &[u8]) -> (r: Result<u32, WasmError>)
    ensures
        value_of(outcome(r, 0)) == sp_start_section(data@),
{
    let mut decoder = Decoder::new(data);
    decoder.read_u32_leb128()
}

/// The data count section: the number of data segments.
pub open spec fn sp_datacount_section(d: Seq<u8>) -> Result<u32, WasmErrorView> {
    value_of(sp_leb_u32(d, 0))
}

fn decode_datacount_section(data: &[u8]) -> (r: Result<u32, WasmError>)
    ensures
        value_of(outcome(r, 0)) == sp_datacount_section(data@),
{
    let mut decoder = Decoder::new(data);
    decoder.read_u32_leb128()
}

/// An element segment: flags 0 (active on table 0, offset), 1 (passive),
/// 2 (active, table index, offset) or 3 (declared); then the function
/// indices. Its element type is always `FuncRef`.
pub open spec fn sp_element(s: Seq<u8>, p: int) -> SpecResult<ElementSegmentView> {
    match sp_leb_u32(s, p) {
        Ok((flags, q)) => {
            let mode: SpecResult<ElementModeView> = if flags == 0 {
                match sp_instrs(s, q) {
                    Ok((offset, r)) => Ok((ElementModeView::Active { table_idx: 0, offset }, r)),
                    Err(e) => Err(e),
                }
            } else if flags == 1 {
                Ok((ElementModeView::Passive, q))
            } else if flags == 2 {
                match sp_leb_u32(s, q) {
                    Ok((table_idx, r)) => match sp_instrs(s, r) {
                        Ok((offset, r2)) => Ok((ElementModeView::Active { table_idx, offset }, r2)),
                        Err(e) => Err(e),
                    },
                    Err(e) => Err(e),
                }
            } else if flags == 3 {
                Ok((ElementModeView::Declared, q))
            } else {
                Err(WasmErrorView::InvalidElementKind(flags as u8))
            };
            match mode {
                Ok((mode, r)) => match sp_leb_u32(s, r) {
                    Ok((count, r2)) => match sp_u32_list(s, r2, count as nat) {
                        Ok((init, r3)) => Ok(
                            (ElementSegmentView { mode, elem_type: ValueType::FuncRef, init }, r3),
                        ),
                        Err(e) => Err(e),
                    },
                    Err(e) => Err(e),
                },
                Err(e) => Err(e),
            }
        },
        Err(e) => Err(e),
    }
}

fn decode_element(decoder: &mut Decoder) -> (r: Result<ElementSegment, WasmError>)
    requires
        old(decoder).wf(),
    ensures
        final(decoder).data() == old(decoder).data(),
        final(decoder).wf(),
        outcome_view(r, final(decoder).pos()) == sp_element(old(decoder).data(), old(decoder).pos()),
{
    let flags = decoder.read_u32_leb128()?;
    let mode = if flags == 0 {
        let offset = decode_instructions(decoder)?;
        ElementMode::Active { table_idx: 0, offset }
    } else if flags == 1 {
        ElementMode::Passive
    } else if flags == 2 {
        let table_idx = decoder.read_u32_leb128()?;
        let offset = decode_instructions(decoder)?;
        ElementMode::Active { table_idx, offset }
    } else if flags == 3 {
        ElementMode::Declared
    } else {
        return Err(WasmError::InvalidElementKind(flags as u8));
    };

    let elem_type = ValueType::FuncRef;
    let func_count = decoder.read_u32_leb128()? as usize;
    let init = decode_u32_list(decoder, func_count)?;
    Ok(ElementSegment { mode, elem_type, init })
}

/// `count` items, each read by `sp_element`.
pub open spec fn sp_elements(s: Seq<u8>, p: int, count: nat) -> SpecResult<Seq<ElementSegmentView>>
    decreases count,
{
    if count == 0 {
        Ok((Seq::empty(), p))
    } else {
        match sp_element(s, p) {
            Ok((v, q)) => prepend(seq![v], sp_elements(s, q, (count - 1) as nat)),
            Err(e) => Err(e),
        }
    }
}

/// The element section: its count, then the segments.
pub open spec fn sp_element_section(d: Seq<u8>) -> Result<Seq<ElementSegmentView>, WasmErrorView> {
    match sp_leb_u32(d, 0) {
        Ok((count, q)) => value_of(sp_elements(d, q, count as nat)),
        Err(e) => Err(e),
    }
}

fn decode_element_section(data: &[u8]) -> (r: Result<Vec<ElementSegment>, WasmError>)
    ensures
        list_outcome(r) == sp_element_section(data@),
{
    let mut decoder = Decoder::new(data);
    let count = decoder.read_u32_leb128()? as usize;
    let mut items: Vec<ElementSegment> = Vec::new();
    let mut i: usize = 0;
    let ghost s = decoder.data();
    let ghost p0 = decoder.pos();
    while i < count
        invariant
            decoder.wf(),
            decoder.data() == s,
            s == data@,
            i <= count,
            sp_element_section(data@) == value_of(sp_elements(s, p0, count as nat)),
            sp_elements(s, p0, count as nat) == prepend(views(items@), sp_elements(s, decoder.pos(), (count - i) as nat)),
        decreases count - i,
    {
        let x = decode_element(&mut decoder)?;
        proof {
            lemma_prepend_one(views(items@), x@, sp_elements(s, decoder.pos(), (count - i - 1) as nat));
            lemma_views_push(items@, x);
        }
        items.push(x);
        i += 1;
    }
    proof {
        lemma_prepend_empty(views(items@), decoder.pos());
    }
    Ok(items)
}

/// A local declaration: a count, then a value type.
pub open spec fn sp_local(s: Seq<u8>, p: int) -> SpecResult<Local> {
    match sp_leb_u32(s, p) {
        Ok((count, q)) => match sp_value_type(s, q) {
            Ok((ty, r)) => Ok((Local { count, ty }, r)),
            Err(e) => Err(e),
        },
        Err(e) => Err(e),
    }
}

/// `count` items, each read by `sp_local`.
pub open spec fn sp_locals(s: Seq<u8>, p: int, count: nat) -> SpecResult<Seq<Local>>
    decreases count,
{
    if count == 0 {
        Ok((Seq::empty(), p))
    } else {
        match sp_local(s, p) {
            Ok((v, q)) => prepend(seq![v], sp_locals(s, q, (count - 1) as nat)),
            Err(e) => Err(e),
        }
    }
}

/// A function body: its size, the local declarations, then the
/// instructions, which must end exactly after the size given.
pub open spec fn sp_body(s: Seq<u8>, p: int) -> SpecResult<FunctionBodyView> {
    match sp_leb_u32(s, p) {
        Ok((body_size, start)) => match sp_leb_u32(s, start) {
            Ok((local_count, q)) => match sp_locals(s, q, local_count as nat) {
                Ok((locals, r)) => match sp_instrs(s, r) {
                    Ok((instructions, r2)) => if r2 - start != body_size {
                        Err(WasmErrorView::ValidationError("Code size mismatch"@))
                    } else {
                        Ok((FunctionBodyView { locals, instructions }, r2))
                    },
                    Err(e) => Err(e),
                },
                Err(e) => Err(e),
            },
            Err(e) => Err(e),
        },
        Err(e) => Err(e),
    }
}

fn decode_local(decoder: &mut Decoder) -> (r: Result<Local, WasmError>)
    requires
        old(decoder).wf(),
    ensures
        final(decoder).data() == old(decoder).data(),
        final(decoder).wf(),
        outcome(r, final(decoder).pos()) == sp_local(old(decoder).data(), old(decoder).pos()),
        r is Ok ==> old(decoder).pos() <= final(decoder).pos(),
{
    let count = decoder.read_u32_leb128()?;
    let ty = decode_value_type(decoder)?;
    Ok(Local { count, ty })
}

fn decode_locals(decoder: &mut Decoder, count: usize) -> (r: Result<Vec<Local>, WasmError>)
    requires
        old(decoder).wf(),
    ensures
        final(decoder).data() == old(decoder).data(),
        final(decoder).wf(),
        outcome_view(r, final(decoder).pos()) == sp_locals(old(decoder).data(), old(decoder).pos(), count as nat),
        r is Ok ==> old(decoder).pos() <= final(decoder).pos(),
{
    let mut locals: Vec<Local> = Vec::new();
    let mut i: usize = 0;
    let ghost s = decoder.data();
    let ghost p0 = decoder.pos();
    while i < count
        invariant
            decoder.wf(),
            decoder.data() == s,
            s == old(decoder).data(),
            p0 == old(decoder).pos(),
            p0 <= decoder.pos(),
            i <= count,
            sp_locals(s, p0, count as nat) == prepend(locals@, sp_locals(s, decoder.pos(), (count - i) as nat)),
        decreases count - i,
    {
        let x = decode_local(decoder)?;
        proof {
            lemma_prepend_one(locals@, x, sp_locals(s, decoder.pos(), (count - i - 1) as nat));
        }
        locals.push(x);
        i += 1;
    }
    proof {
        lemma_prepend_empty(locals@, decoder.pos());
    }
    Ok(locals)
}

fn decode_body(decoder: &mut Decoder) -> (r: Result<FunctionBody, WasmError>)
    requires
        old(decoder).wf(),
    ensures
        final(decoder).data() == old(decoder).data(),
        final(decoder).wf(),
        outcome_view(r, final(decoder).pos()) == sp_body(old(decoder).data(), old(decoder).pos()),
{
    let body_size = decoder.read_u32_leb128()? as usize;
    let body_start = decoder.position();

    let local_count = decoder.read_u32_leb128()? as usize;
    let locals = decode_locals(decoder, local_count)?;

    let instructions = decode_instructions(decoder)?;

    if decoder.position() - body_start != body_size {
        return Err(WasmError::ValidationError("Code size mismatch".to_string()));
    }
    Ok(FunctionBody { locals, instructions })
}

/// `count` items, each read by `sp_body`.
pub open spec fn sp_bodies(s: Seq<u8>, p: int, count: nat) -> SpecResult<Seq<FunctionBodyView>>
    decreases count,
{
    if count == 0 {
        Ok((Seq::empty(), p))
    } else {
        match sp_body(s, p) {
            Ok((v, q)) => prepend(seq![v], sp_bodies(s, q, (count - 1) as nat)),
            Err(e) => Err(e),
        }
    }
}

/// The code section: its count, then the function bodies.
pub open spec fn sp_code_section(d: Seq<u8>) -> Result<Seq<FunctionBodyView>, WasmErrorView> {
    match sp_leb_u32(d, 0) {
        Ok((count, q)) => value_of(sp_bodies(d, q, count as nat)),
        Err(e) => Err(e),
    }
}

fn decode_code_section(data: &[u8]) -> (r: Result<Vec<FunctionBody>, WasmError>)
    ensures
        list_outcome(r) == sp_code_section(data@),
{
    let mut decoder = Decoder::new(data);
    let count = decoder.read_u32_leb128()? as usize;
    let mut items: Vec<FunctionBody> = Vec::new();
    let mut i: usize = 0;
    let ghost s = decoder.data();
    let ghost p0 = decoder.pos();
    while i < count
        invariant
            decoder.wf(),
            decoder.data() == s,
            s == data@,
            i <= count,
            sp_code_section(data@) == value_of(sp_bodies(s, p0, count as nat)),
            sp_bodies(s, p0, count as nat) == prepend(views(items@), sp_bodies(s, decoder.pos(), (count - i) as nat)),
        decreases count - i,
    {
        let x = decode_body(&mut decoder)?;
        proof {
            lemma_prepend_one(views(items@), x@, sp_bodies(s, decoder.pos(), (count - i - 1) as nat));
            lemma_views_push(items@, x);
        }
        items.push(x);
        i += 1;
    }
    proof {
        lemma_prepend_empty(views(items@), decoder.pos());
    }
    Ok(items)
}

/// A data segment: flags 0 (active on memory 0, offset), 1 (passive) or 2
/// (active, memory index, offset); then the bytes, with their count first.
pub open spec fn sp_data_segment(s: Seq<u8>, p: int) -> SpecResult<DataSegmentView> {
    match sp_leb_u32(s, p) {
        Ok((flags, q)) => {
            let mode: SpecResult<DataModeView> = if flags == 0 {
                match sp_instrs(s, q) {
                    Ok((offset, r)) => Ok((DataModeView::Active { mem_idx: 0, offset }, r)),
                    Err(e) => Err(e),
                }
            } else if flags == 1 {
                Ok((DataModeView::Passive, q))
            } else if flags == 2 {
                match sp_leb_u32(s, q) {
                    Ok((mem_idx, r)) => match sp_instrs(s, r) {
                        Ok((offset, r2)) => Ok((DataModeView::Active { mem_idx, offset }, r2)),
                        Err(e) => Err(e),
                    },
                    Err(e) => Err(e),
                }
            } else {
                Err(WasmErrorView::InvalidDataMode(flags as u8))
            };
            match mode {
                Ok((mode, r)) => match sp_leb_u32(s, r) {
                    Ok((len, r2)) => match sp_bytes(s, r2, len as int) {
                        Ok((data, r3)) => Ok((DataSegmentView { mode, data }, r3)),
                        Err(e) => Err(e),
                    },
                    Err(e) => Err(e),
                },
                Err(e) => Err(e),
            }
        },
        Err(e) => Err(e),
    }
}

fn decode_data_segment(decoder: &mut Decoder) -> (r: Result<DataSegment, WasmError>)
    requires
        old(decoder).wf(),
    ensures
        final(decoder).data() == old(decoder).data(),
        final(decoder).wf(),
        outcome_view(r, final(decoder).pos()) == sp_data_segment(old(decoder).data(), old(decoder).pos()),
{
    let flags = decoder.read_u32_leb128()?;
    let mode = if flags == 0 {
        let offset = decode_instructions(decoder)?;
        DataMode::Active { mem_idx: 0, offset }
    } else if flags == 1 {
        DataMode::Passive
    } else if flags == 2 {
        let mem_idx = decoder.read_u32_leb128()?;
        let offset = decode_instructions(decoder)?;
        DataMode::Active { mem_idx, offset }
    } else {
        return Err(WasmError::InvalidDataMode(flags as u8));
    };

    let data_len = decoder.read_u32_leb128()? as usize;
    let data = vstd::slice::slice_to_vec(decoder.consume(data_len)?);
    Ok(DataSegment { mode, data })
}

/// `count` items, each read by `sp_data_segment`.
pub open spec fn sp_data_segments(s: Seq<u8>, p: int, count: nat) -> SpecResult<Seq<DataSegmentView>>
    decreases count,
{
    if count == 0 {
        Ok((Seq::empty(), p))
    } else {
        match sp_data_segment(s, p) {
            Ok((v, q)) => prepend(seq![v], sp_data_segments(s, q, (count - 1) as nat)),
            Err(e) => Err(e),
        }
    }
}

/// The data section: its count, then the segments.
pub open spec fn sp_data_section(d: Seq<u8>) -> Result<Seq<DataSegmentView>, WasmErrorView> {
    match sp_leb_u32(d, 0) {
        Ok((count, q)) => value_of(sp_data_segments(d, q, count as nat)),
        Err(e) => Err(e),
    }
}

fn decode_data_section(data: &[u8]) -> (r: Result<Vec<DataSegment>, WasmError>)
    ensures
        list_outcome(r) == sp_data_section(data@),
{
    let mut decoder = Decoder::new(data);
    let count = decoder.read_u32_leb128()? as usize;
    let mut items: Vec<DataSegment> = Vec::new();
    let mut i: usize = 0;
    let ghost s = decoder.data();
    let ghost p0 = decoder.pos();
    while i < count
        invariant
            decoder.wf(),
            decoder.data() == s,
            s == data@,
            i <= count,
            sp_data_section(data@) == value_of(sp_data_segments(s, p0, count as nat)),
            sp_data_segments(s, p0, count as nat) == prepend(views(items@), sp_data_segments(s, decoder.pos(), (count - i) as nat)),
        decreases count - i,
    {
        let x = decode_data_segment(&mut decoder)?;
        proof {
            lemma_prepend_one(views(items@), x@, sp_data_segments(s, decoder.pos(), (count - i - 1) as nat));
            lemma_views_push(items@, x);
        }
        items.push(x);
        i += 1;
    }
    proof {
        lemma_prepend_empty(views(items@), decoder.pos());
    }
    Ok(items)
}


// ---------------------------------------------------------------------------
// Modules.

/// The magic number's bytes, `\0asm`.
pub open spec fn wasm_magic() -> Seq<u8> {
    seq![0x00u8, 0x61u8, 0x73u8, 0x6du8]
}

/// The version's bytes, version 1.
pub open spec fn wasm_version() -> Seq<u8> {
    seq![0x01u8, 0x00u8, 0x00u8, 0x00u8]
}

/// Four bytes that must be `expected`; others are refused with the error
/// that `err` makes of them.
pub open spec fn sp_fixed4(s: Seq<u8>, p: int, expected: Seq<u8>, is_magic: bool) -> SpecResult<()> {
    match sp_bytes(s, p, 4) {
        Ok((b, q)) => if b == expected {
            Ok(((), q))
        } else if is_magic {
            Err(WasmErrorView::InvalidMagic(b))
        } else {
            Err(WasmErrorView::InvalidVersion(b))
        },
        Err(e) => Err(e),
    }
}

/// A section header and contents: its id byte, its size as LEB128, then
/// that many bytes.
pub open spec fn sp_section(s: Seq<u8>, p: int) -> SpecResult<(SectionId, Seq<u8>)> {
    match sp_u8(s, p) {
        Ok((b, q)) => match section_id_of_byte(b) {
            Some(id) => match sp_leb_u32(s, q) {
                Ok((len, r)) => match sp_bytes(s, r, len as int) {
                    Ok((d, r2)) => Ok(((id, d), r2)),
                    Err(e) => Err(e),
                },
                Err(e) => Err(e),
            },
            None => Err(WasmErrorView::InvalidSectionId(b)),
        },
        Err(e) => Err(e),
    }
}

/// A custom section: its name, then the rest of its bytes.
pub open spec fn sp_custom_section(d: Seq<u8>) -> Result<CustomSectionView, WasmErrorView> {
    match sp_name(d, 0) {
        Ok((name, q)) => Ok(CustomSectionView { name, data: d.subrange(q, d.len() as int) }),
        Err(e) => Err(e),
    }
}

/// The module after the section `id` with contents `d` is read into `m`:
/// a custom section is added; any other section replaces what an earlier
/// one of its kind gave.
#[verifier::opaque]
pub open spec fn apply_section(id: SectionId, d: Seq<u8>, m: ModuleView) -> Result<ModuleView, WasmErrorView> {
    match id {
        SectionId::Custom => match sp_custom_section(d) {
            Ok(c) => Ok(ModuleView { custom_sections: m.custom_sections.push(c), ..m }),
            Err(e) => Err(e),
        },
        SectionId::Type => match sp_type_section(d) {
            Ok(v) => Ok(ModuleView { types: v, ..m }),
            Err(e) => Err(e),
        },
        SectionId::Import => match sp_import_section(d) {
            Ok(v) => Ok(ModuleView { imports: v, ..m }),
            Err(e) => Err(e),
        },
        SectionId::Function => match sp_func_section(d) {
            Ok(v) => Ok(ModuleView { funcs: v, ..m }),
            Err(e) => Err(e),
        },
        SectionId::Table => match sp_table_section(d) {
            Ok(v) => Ok(ModuleView { tables: v, ..m }),
            Err(e) => Err(e),
        },
        SectionId::Memory => match sp_memory_section(d) {
            Ok(v) => Ok(ModuleView { memories: v, ..m }),
            Err(e) => Err(e),
        },
        SectionId::Global => match sp_global_section(d) {
            Ok(v) => Ok(ModuleView { globals: v, ..m }),
            Err(e) => Err(e),
        },
        SectionId::Export => match sp_export_section(d) {
            Ok(v) => Ok(ModuleView { exports: v, ..m }),
            Err(e) => Err(e),
        },
        SectionId::Start => match sp_start_section(d) {
            Ok(v) => Ok(ModuleView { start: Some(v), ..m }),
            Err(e) => Err(e),
        },
        SectionId::Element => match sp_element_section(d) {
            Ok(v) => Ok(ModuleView { elements: v, ..m }),
            Err(e) => Err(e),
        },
        SectionId::Code => match sp_code_section(d) {
            Ok(v) => Ok(ModuleView { code: v, ..m }),
            Err(e) => Err(e),
        },
        SectionId::Data => match sp_data_section(d) {
            Ok(v) => Ok(ModuleView { data: v, ..m }),
            Err(e) => Err(e),
        },
        SectionId::DataCount => match sp_datacount_section(d) {
            Ok(v) => Ok(ModuleView { data_count: Some(v), ..m }),
            Err(e) => Err(e),
        },
    }
}

/// The sections from `p` to the end of the bytes, read one after another
/// into `m`.
#[verifier::opaque]
pub open spec fn sp_sections(s: Seq<u8>, p: int, m: ModuleView) -> Result<ModuleView, WasmErrorView>
    decreases s.len() - p,
{
    if p < 0 || p >= s.len() {
        Ok(m)
    } else {
        match sp_section(s, p) {
            Ok(((id, d), q)) => match apply_section(id, d, m) {
                Ok(m2) => if advanced(s, p, q) {
                    sp_sections(s, q, m2)
                } else {
                    Ok(m2)
                },
                Err(e) => Err(e),
            },
            Err(e) => Err(e),
        }
    }
}

/// A module from position `p`: the magic number, the version, then the
/// sections to the end of the bytes.
pub open spec fn sp_module(s: Seq<u8>, p: int) -> Result<ModuleView, WasmErrorView> {
    match sp_fixed4(s, p, wasm_magic(), true) {
        Ok((_, q)) => match sp_fixed4(s, q, wasm_version(), false) {
            Ok((_, r)) => sp_sections(s, r, empty_module_view()),
            Err(e) => Err(e),
        },
        Err(e) => Err(e),
    }
}

/// A module decoded from a whole binary.
pub open spec fn sp_parse(s: Seq<u8>) -> Result<ModuleView, WasmErrorView> {
    sp_module(s, 0)
}

/// What a decoder's result stands for, taken by its model.
pub open spec fn view_outcome<T: View>(r: Result<T, WasmError>) -> Result<T::V, WasmErrorView> {
    match r {
        Ok(v) => Ok(v@),
        Err(e) => Err(e@),
    }
}

fn decode_custom_section(data: &[u8]) -> (r: Result<CustomSection, WasmError>)
    ensures
        view_outcome(r) == sp_custom_section(data@),
{
    let mut custom = Decoder::new(data);
    let name = custom.read_name()?;
    let remaining = data.len() - custom.position();
    let data_bytes = vstd::slice::slice_to_vec(custom.consume(remaining)?);
    Ok(CustomSection { name, data: data_bytes })
}

impl<'a> Decoder<'a> {
    /// Decode a module from the current position: magic number, version,
    /// then every section to the end of the bytes.
    pub fn decode(&mut self) -> (r: Result<Module, WasmError>)
        requires
            old(self).wf(),
        ensures
            final(self).data() == old(self).data(),
            view_outcome(r) == sp_module(old(self).data(), old(self).pos()),
    {
        self.check_magic()?;
        self.check_version()?;

        let mut module = Module::new();
        let ghost s = self.data();
        let ghost p0 = self.pos();

        while self.pos < self.bytes.len()
            invariant
                self.wf(),
                self.data() == s,
                s == old(self).data(),
                sp_module(s, old(self).pos()) == sp_sections(s, p0, empty_module_view()),
                sp_sections(s, p0, empty_module_view()) == sp_sections(s, self.pos(), module@),
            decreases s.len() - self.pos(),
        {
            let ghost p = self.pos();
            let ghost m = module@;
            proof {
                reveal(sp_sections);
                reveal(apply_section);
            }
            let (id, data) = self.read_section()?;
            match id {
                SectionId::Custom => {
                    let c = decode_custom_section(data)?;
                    let ghost cv = c@;
                    module.custom_sections.push(c);
                    proof {
                        assert(views(module.custom_sections@) =~= m.custom_sections.push(cv));
                    }
                },
                SectionId::Type => module.types = decode_type_section(data)?,
                SectionId::Import => module.imports = decode_import_section(data)?,
                SectionId::Function => module.funcs = decode_func_section(data)?,
                SectionId::Table => module.tables = decode_table_section(data)?,
                SectionId::Memory => module.memories = decode_memory_section(data)?,
                SectionId::Global => module.globals = decode_global_section(data)?,
                SectionId::Export => module.exports = decode_export_section(data)?,
                SectionId::Start => module.start = Some(decode_start_section(data)?),
                SectionId::Element => module.elements = decode_element_section(data)?,
                SectionId::Code => module.code = decode_code_section(data)?,
                SectionId::Data => module.data = decode_data_section(data)?,
                SectionId::DataCount => module.data_count = Some(decode_datacount_section(data)?),
            }
            assert(apply_section(id, data@, m) == Ok::<ModuleView, WasmErrorView>(module@));
        }
        proof {
            reveal(sp_sections);
        }
        Ok(module)
    }

    /// Read the magic number.
    fn check_magic(&mut self) -> (r: Result<(), WasmError>)
        requires
            old(self).wf(),
        ensures
            final(self).data() == old(self).data(),
            final(self).wf(),
            outcome(r, final(self).pos()) == sp_fixed4(old(self).data(), old(self).pos(), wasm_magic(), true),
    {
        let magic = self.consume(4)?;
        if !(magic[0] == 0x00 && magic[1] == 0x61 && magic[2] == 0x73 && magic[3] == 0x6d) {
            return Err(WasmError::InvalidMagic(vstd::slice::slice_to_vec(magic)));
        }
        assert(magic@ =~= wasm_magic());
        Ok(())
    }

    /// Read the version.
    fn check_version(&mut self) -> (r: Result<(), WasmError>)
        requires
            old(self).wf(),
        ensures
            final(self).data() == old(self).data(),
            final(self).wf(),
            outcome(r, final(self).pos()) == sp_fixed4(old(self).data(), old(self).pos(), wasm_version(), false),
    {
        let version = self.consume(4)?;
        if !(version[0] == 0x01 && version[1] == 0x00 && version[2] == 0x00 && version[3] == 0x00) {
            return Err(WasmError::InvalidVersion(vstd::slice::slice_to_vec(version)));
        }
        assert(version@ =~= wasm_version());
        Ok(())
    }

    /// Read a section's id, size and contents.
    fn read_section(&mut self) -> (r: Result<(SectionId, &'a [u8]), WasmError>)
        requires
            old(self).wf(),
        ensures
            final(self).data() == old(self).data(),
            final(self).wf(),
            match r {
                Ok((id, d)) => sp_section(old(self).data(), old(self).pos()) == Ok::<
                    ((SectionId, Seq<u8>), int),
                    WasmErrorView,
                >(((id, d@), final(self).pos())) && advanced(old(self).data(), old(self).pos(), final(self).pos()),
                Err(e) => sp_section(old(self).data(), old(self).pos()) == Err::<
                    ((SectionId, Seq<u8>), int),
                    WasmErrorView,
                >(e@),
            },
    {
        let section_id = self.read_u8()?;
        let section_id = SectionId::try_from(section_id)?;
        let section_len = self.read_u32_leb128()? as usize;
        let section_data = self.consume(section_len)?;
        Ok((section_id, section_data))
    }
}

/// Parse WASM binary bytes into a Module.
pub fn parse_bytes(bytes: &[u8]) -> (r: Result<Module, WasmError>)
    ensures
        view_outcome(r) == sp_parse(bytes@),
{
    let mut decoder = Decoder::new(bytes);
    decoder.decode()
}

} // verus!
