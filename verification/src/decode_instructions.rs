//! Instruction decoding with explicit stacks in place of recursion, so that
//! deeply nested blocks do not exhaust the call stack.

use vstd::prelude::*;
use crate::decode::{
    Decoder, SpecResult, advanced, join_branches, outcome, outcome_instr, outcome_instrs, outcome_view, prepend, sp_block_type,
    sp_bytes, sp_leb_i32, sp_leb_i64, sp_leb_u32, sp_mem_arg, sp_u32_le, sp_u32_list, sp_u64_le, sp_u8,
    sp_value_type, sp_value_type_vec, decode_u32_list, decode_value_type, decode_value_type_vec,
};
use crate::error::{WasmError, WasmErrorView};
use crate::instruction::{
    Instruction, InstrView, MemArg, instr_view, instrs_view, lemma_instrs_view_push, memory_from_opcode,
    memory_instr, numeric_from_opcode, numeric_instr,
};
use crate::types::{BlockType, ValueType, block_type_of_i64, value_type_of_byte};

verus! {

/// Opcodes of proposals that are read as a `nop`: exception handling,
/// reserved and unassigned ones.
pub open spec fn reserved_nop(op: u8) -> bool {
    (0x06 <= op <= 0x0a) || op == 0x17 || op == 0x18 || op == 0x19 || (0x1d <= op <= 0x1f) || (0x25 <= op
        <= 0x27) || (0xc5 <= op <= 0xcf) || (0xd3 <= op <= 0xfb) || op == 0xff
}

/// The instruction that an opcode with no immediate operand denotes.
pub open spec fn plain_instr(op: u8) -> Option<Instruction> {
    if op == 0x00 {
        Some(Instruction::Unreachable)
    } else if op == 0x01 {
        Some(Instruction::Nop)
    } else if op == 0x05 {
        Some(Instruction::Else)
    } else if op == 0x0b {
        Some(Instruction::End)
    } else if op == 0x0f {
        Some(Instruction::Return)
    } else if op == 0x1a {
        Some(Instruction::Drop)
    } else if op == 0x1b {
        Some(Instruction::Select)
    } else if op == 0xd1 {
        Some(Instruction::RefIsNull)
    } else if reserved_nop(op) {
        Some(Instruction::Nop)
    } else {
        numeric_instr(op)
    }
}

/// An instruction with one unsigned 32-bit LEB128 operand.
pub open spec fn with_u32(s: Seq<u8>, p: int, f: spec_fn(u32) -> Instruction) -> SpecResult<InstrView> {
    match sp_leb_u32(s, p) {
        Ok((v, q)) => Ok((InstrView::Leaf(f(v)), q)),
        Err(e) => Err(e),
    }
}

/// An instruction with two unsigned 32-bit LEB128 operands.
pub open spec fn with_two_u32(s: Seq<u8>, p: int, f: spec_fn(u32, u32) -> Instruction) -> SpecResult<InstrView> {
    match sp_leb_u32(s, p) {
        Ok((a, q)) => match sp_leb_u32(s, q) {
            Ok((b, r)) => Ok((InstrView::Leaf(f(a, b)), r)),
            Err(e) => Err(e),
        },
        Err(e) => Err(e),
    }
}

/// `i`, after reading `n` bytes that are not kept (n is 1 or 2).
pub open spec fn after_bytes(s: Seq<u8>, p: int, n: int, i: Instruction) -> SpecResult<InstrView> {
    match sp_bytes(s, p, n) {
        Ok((_, q)) => Ok((InstrView::Leaf(i), q)),
        Err(e) => Err(e),
    }
}

/// `i`, after reading a memory argument that is not kept.
pub open spec fn after_mem_arg(s: Seq<u8>, p: int, i: Instruction) -> SpecResult<InstrView> {
    match sp_mem_arg(s, p) {
        Ok((_, q)) => Ok((InstrView::Leaf(i), q)),
        Err(e) => Err(e),
    }
}

/// An instruction of the 0xfc prefix, whose sub-opcode is a byte:
/// saturating truncations, bulk memory, atomics (read as `nop`), and the
/// sign extensions at 0xc0 to 0xc4; other sub-opcodes are refused.
pub open spec fn sp_prefix_fc(s: Seq<u8>, p: int) -> SpecResult<InstrView> {
    match sp_u8(s, p) {
        Ok((sub, q)) => if sub == 0x00 {
            Ok((InstrView::Leaf(Instruction::I32TruncSatF32S), q))
        } else if sub == 0x01 {
            Ok((InstrView::Leaf(Instruction::I32TruncSatF32U), q))
        } else if sub == 0x02 {
            Ok((InstrView::Leaf(Instruction::I32TruncSatF64S), q))
        } else if sub == 0x03 {
            Ok((InstrView::Leaf(Instruction::I32TruncSatF64U), q))
        } else if sub == 0x04 {
            Ok((InstrView::Leaf(Instruction::I64TruncSatF32S), q))
        } else if sub == 0x05 {
            Ok((InstrView::Leaf(Instruction::I64TruncSatF32U), q))
        } else if sub == 0x06 {
            Ok((InstrView::Leaf(Instruction::I64TruncSatF64S), q))
        } else if sub == 0x07 {
            Ok((InstrView::Leaf(Instruction::I64TruncSatF64U), q))
        } else if sub == 0x08 {
            match sp_leb_u32(s, q) {
                Ok((data_idx, r)) => after_bytes(s, r, 1, Instruction::MemoryInit { data_idx, mem_idx: 0 }),
                Err(e) => Err(e),
            }
        } else if sub == 0x09 {
            with_u32(s, q, |v: u32| Instruction::DataDrop { data_idx: v })
        } else if sub == 0x0a {
            after_bytes(s, q, 2, Instruction::MemoryCopy { src_mem: 0, dst_mem: 0 })
        } else if sub == 0x0b {
            after_bytes(s, q, 1, Instruction::MemoryFill { mem_idx: 0 })
        } else if 0x0c <= sub <= 0x3d || sub == 0x3f || sub == 0x40 {
            after_mem_arg(s, q, Instruction::Nop)
        } else if sub == 0x3e {
            after_bytes(s, q, 1, Instruction::Nop)
        } else if sub == 0xc0 {
            Ok((InstrView::Leaf(Instruction::I32Extend8S), q))
        } else if sub == 0xc1 {
            Ok((InstrView::Leaf(Instruction::I32Extend16S), q))
        } else if sub == 0xc2 {
            Ok((InstrView::Leaf(Instruction::I64Extend8S), q))
        } else if sub == 0xc3 {
            Ok((InstrView::Leaf(Instruction::I64Extend16S), q))
        } else if sub == 0xc4 {
            Ok((InstrView::Leaf(Instruction::I64Extend32S), q))
        } else {
            Err(WasmErrorView::InvalidOpcode(0xfc))
        },
        Err(e) => Err(e),
    }
}

/// An instruction of the SIMD prefix 0xfd, whose sub-opcode is LEB128: all
/// read as `nop`; `v128.const` skips its 16 bytes, the loads and stores
/// their memory argument.
pub open spec fn sp_prefix_fd(s: Seq<u8>, p: int) -> SpecResult<InstrView> {
    match sp_leb_u32(s, p) {
        Ok((sub, q)) => if sub == 0x0c {
            after_bytes(s, q, 16, Instruction::Nop)
        } else if sub <= 0x0b {
            after_mem_arg(s, q, Instruction::Nop)
        } else {
            Ok((InstrView::Leaf(Instruction::Nop), q))
        },
        Err(e) => Err(e),
    }
}

/// An instruction of the threads prefix 0xfe, whose sub-opcode is a byte:
/// all read as `nop`, after their memory argument or reserved byte.
pub open spec fn sp_prefix_fe(s: Seq<u8>, p: int) -> SpecResult<InstrView> {
    match sp_u8(s, p) {
        Ok((sub, q)) => if sub <= 0x3d || sub == 0x3f || sub == 0x40 {
            after_mem_arg(s, q, Instruction::Nop)
        } else if sub == 0x3e {
            after_bytes(s, q, 1, Instruction::Nop)
        } else {
            Ok((InstrView::Leaf(Instruction::Nop), q))
        },
        Err(e) => Err(e),
    }
}

/// A non-block instruction with an opcode below 0x20: control and
/// parametric instructions.
pub open spec fn sp_nonblock_control(s: Seq<u8>, p: int, op: u8) -> SpecResult<InstrView> {
    if op == 0x0c {
        with_u32(s, p, |v: u32| Instruction::Br { label_idx: v })
    } else if op == 0x0d {
        with_u32(s, p, |v: u32| Instruction::BrIf { label_idx: v })
    } else if op == 0x0e {
        match sp_leb_u32(s, p) {
            Ok((count, q)) => match sp_u32_list(s, q, count as nat) {
                Ok((labels, r)) => match sp_leb_u32(s, r) {
                    Ok((default_label, r2)) => Ok((InstrView::BrTable { labels, default_label }, r2)),
                    Err(e) => Err(e),
                },
                Err(e) => Err(e),
            },
            Err(e) => Err(e),
        }
    } else if op == 0x10 {
        with_u32(s, p, |v: u32| Instruction::Call { function_idx: v })
    } else if op == 0x11 {
        with_two_u32(s, p, |a: u32, b: u32| Instruction::CallIndirect { type_idx: a, table_idx: b })
    } else if op == 0x12 {
        with_u32(s, p, |v: u32| Instruction::ReturnCall { function_idx: v })
    } else if op == 0x13 {
        with_two_u32(s, p, |a: u32, b: u32| Instruction::ReturnCallIndirect { type_idx: a, table_idx: b })
    } else if op == 0x14 {
        with_u32(s, p, |v: u32| Instruction::CallRef { type_idx: v })
    } else if op == 0x15 || op == 0x16 {
        with_u32(s, p, |v: u32| Instruction::ReturnCallRef { type_idx: v })
    } else if op == 0x1c {
        match sp_value_type_vec(s, p) {
            Ok((results, q)) => Ok((InstrView::SelectTyped { results }, q)),
            Err(e) => Err(e),
        }
    } else {
        match plain_instr(op) {
            Some(i) => Ok((InstrView::Leaf(i), p)),
            None => Err(WasmErrorView::InvalidOpcode(op)),
        }
    }
}

/// A non-block instruction with an opcode from 0x20 to 0x40: variable and
/// memory instructions.
pub open spec fn sp_nonblock_variable(s: Seq<u8>, p: int, op: u8) -> SpecResult<InstrView> {
    if op == 0x20 {
        with_u32(s, p, |v: u32| Instruction::LocalGet { local_idx: v })
    } else if op == 0x21 {
        with_u32(s, p, |v: u32| Instruction::LocalSet { local_idx: v })
    } else if op == 0x22 {
        with_u32(s, p, |v: u32| Instruction::LocalTee { local_idx: v })
    } else if op == 0x23 {
        with_u32(s, p, |v: u32| Instruction::GlobalGet { global_idx: v })
    } else if op == 0x24 {
        with_u32(s, p, |v: u32| Instruction::GlobalSet { global_idx: v })
    } else if 0x28 <= op <= 0x3e {
        match sp_mem_arg(s, p) {
            Ok((m, q)) => match memory_instr(op, m) {
                Some(i) => Ok((InstrView::Leaf(i), q)),
                None => Err(WasmErrorView::InvalidOpcode(op)),
            },
            Err(e) => Err(e),
        }
    } else if op == 0x3f {
        after_bytes(s, p, 1, Instruction::MemorySize { mem_idx: 0 })
    } else if op == 0x40 {
        after_bytes(s, p, 1, Instruction::MemoryGrow { mem_idx: 0 })
    } else {
        match plain_instr(op) {
            Some(i) => Ok((InstrView::Leaf(i), p)),
            None => Err(WasmErrorView::InvalidOpcode(op)),
        }
    }
}

/// A non-block instruction with an opcode from 0x41: constants, numeric,
/// reference and prefixed instructions.
pub open spec fn sp_nonblock_numeric(s: Seq<u8>, p: int, op: u8) -> SpecResult<InstrView> {
    if op == 0x41 {
        match sp_leb_i32(s, p) {
            Ok((v, q)) => Ok((InstrView::Leaf(Instruction::I32Const { value: v }), q)),
            Err(e) => Err(e),
        }
    } else if op == 0x42 {
        match sp_leb_i64(s, p) {
            Ok((v, q)) => Ok((InstrView::Leaf(Instruction::I64Const { value: v }), q)),
            Err(e) => Err(e),
        }
    } else if op == 0x43 {
        match sp_u32_le(s, p) {
            Ok((v, q)) => Ok((InstrView::Leaf(Instruction::F32Const { bits: v }), q)),
            Err(e) => Err(e),
        }
    } else if op == 0x44 {
        match sp_u64_le(s, p) {
            Ok((v, q)) => Ok((InstrView::Leaf(Instruction::F64Const { bits: v }), q)),
            Err(e) => Err(e),
        }
    } else if op == 0xfc {
        sp_prefix_fc(s, p)
    } else if op == 0xfd {
        sp_prefix_fd(s, p)
    } else if op == 0xfe {
        sp_prefix_fe(s, p)
    } else if op == 0xd0 {
        match sp_value_type(s, p) {
            Ok((ty, q)) => Ok((InstrView::Leaf(Instruction::RefNull { ty }), q)),
            Err(e) => Err(e),
        }
    } else if op == 0xd2 {
        with_u32(s, p, |v: u32| Instruction::RefFunc { func_idx: v })
    } else {
        match plain_instr(op) {
            Some(i) => Ok((InstrView::Leaf(i), p)),
            None => Err(WasmErrorView::InvalidOpcode(op)),
        }
    }
}

/// Whether an opcode is followed by operands (or a sub-opcode) that the
/// decoder reads; for any other opcode, the instruction is the opcode alone,
/// or the opcode is refused.
pub open spec fn takes_operands(op: u8) -> bool {
    (0x0c <= op <= 0x16) || op == 0x1c || (0x20 <= op <= 0x24) || (0x28 <= op <= 0x44) || op == 0xd0 || op == 0xd2
        || (0xfc <= op <= 0xfe)
}

/// An instruction that holds no block, whose opcode has been read; the
/// block opcodes 0x02 to 0x04 are refused.
pub open spec fn sp_nonblock(s: Seq<u8>, p: int, op: u8) -> SpecResult<InstrView> {
    if op < 0x20 {
        sp_nonblock_control(s, p, op)
    } else if op <= 0x40 {
        sp_nonblock_variable(s, p, op)
    } else {
        sp_nonblock_numeric(s, p, op)
    }
}

/// No numeric opcode denotes an `else`.
proof fn lemma_numeric_not_else(op: u8)
    ensures
        numeric_instr(op) != Some(Instruction::Else),
{
}

/// No memory opcode denotes an `else`.
proof fn lemma_memory_not_else(op: u8, m: MemArg)
    ensures
        memory_instr(op, m) != Some(Instruction::Else),
{
}

/// Only the else opcode is read as an `else` instruction.
proof fn lemma_nonblock_not_else(s: Seq<u8>, p: int, op: u8)
    requires
        op != 0x05,
    ensures
        sp_nonblock(s, p, op) matches Ok((i, _)) ==> i != InstrView::Leaf(Instruction::Else),
{
    lemma_numeric_not_else(op);
    if let Ok((m, q)) = sp_mem_arg(s, p) {
        lemma_memory_not_else(op, m);
    }
}

/// The result of a decoder that read an instruction, as its model.
pub open spec fn instr_outcome(r: Result<Instruction, WasmError>, q: int) -> SpecResult<InstrView> {
    outcome_instr(r, q)
}

/// The decoder moved forward within its bytes, over the same bytes.
pub open spec fn moved_on(before: Decoder, after: Decoder) -> bool {
    &&& after.data() == before.data()
    &&& after.wf()
    &&& before.pos() <= after.pos()
}

pub fn decode_mem_arg(decoder: &mut Decoder) -> (r: Result<MemArg, WasmError>)
    requires
        old(decoder).wf(),
    ensures
        final(decoder).data() == old(decoder).data(),
        final(decoder).wf(),
        outcome(r, final(decoder).pos()) == sp_mem_arg(old(decoder).data(), old(decoder).pos()),
        r is Ok ==> old(decoder).pos() < final(decoder).pos(),
        old(decoder).pos() <= final(decoder).pos(),
{
    let align = decoder.read_u32_leb128()?;
    let offset = decoder.read_u32_leb128()?;
    Ok(MemArg { align, offset })
}

/// Read `n` bytes that are not kept.
fn skip_bytes(decoder: &mut Decoder, n: usize) -> (r: Result<(), WasmError>)
    requires
        old(decoder).wf(),
    ensures
        moved_on(*old(decoder), *final(decoder)),
        match r {
            Ok(_) => sp_bytes(old(decoder).data(), old(decoder).pos(), n as int) is Ok
                && final(decoder).pos() == old(decoder).pos() + n,
            Err(e) => sp_bytes(old(decoder).data(), old(decoder).pos(), n as int) == Err::<(Seq<u8>, int), WasmErrorView>(e@),
        },
{
    decoder.consume(n)?;
    Ok(())
}

fn decode_prefix_fc(decoder: &mut Decoder) -> (r: Result<Instruction, WasmError>)
    requires
        old(decoder).wf(),
    ensures
        moved_on(*old(decoder), *final(decoder)),
        instr_outcome(r, final(decoder).pos()) == sp_prefix_fc(old(decoder).data(), old(decoder).pos()),
{
    let sub_opcode = decoder.read_u8()?;
    match sub_opcode {
        0x00 => Ok(Instruction::I32TruncSatF32S),
        0x01 => Ok(Instruction::I32TruncSatF32U),
        0x02 => Ok(Instruction::I32TruncSatF64S),
        0x03 => Ok(Instruction::I32TruncSatF64U),
        0x04 => Ok(Instruction::I64TruncSatF32S),
        0x05 => Ok(Instruction::I64TruncSatF32U),
        0x06 => Ok(Instruction::I64TruncSatF64S),
        0x07 => Ok(Instruction::I64TruncSatF64U),
        0x08 => {
            let data_idx = decoder.read_u32_leb128()?;
            skip_bytes(decoder, 1)?;
            Ok(Instruction::MemoryInit { data_idx, mem_idx: 0 })
        },
        0x09 => Ok(Instruction::DataDrop { data_idx: decoder.read_u32_leb128()? }),
        0x0a => {
            skip_bytes(decoder, 2)?;
            Ok(Instruction::MemoryCopy { src_mem: 0, dst_mem: 0 })
        },
        0x0b => {
            skip_bytes(decoder, 1)?;
            Ok(Instruction::MemoryFill { mem_idx: 0 })
        },
        0x0c..=0x3d => {
            decode_mem_arg(decoder)?;
            Ok(Instruction::Nop)
        },
        0x3e => {
            skip_bytes(decoder, 1)?;
            Ok(Instruction::Nop)
        },
        0x3f | 0x40 => {
            decode_mem_arg(decoder)?;
            Ok(Instruction::Nop)
        },
        0xc0 => Ok(Instruction::I32Extend8S),
        0xc1 => Ok(Instruction::I32Extend16S),
        0xc2 => Ok(Instruction::I64Extend8S),
        0xc3 => Ok(Instruction::I64Extend16S),
        0xc4 => Ok(Instruction::I64Extend32S),
        _ => Err(WasmError::InvalidOpcode(0xfc)),
    }
}

fn decode_prefix_fd(decoder: &mut Decoder) -> (r: Result<Instruction, WasmError>)
    requires
        old(decoder).wf(),
    ensures
        moved_on(*old(decoder), *final(decoder)),
        instr_outcome(r, final(decoder).pos()) == sp_prefix_fd(old(decoder).data(), old(decoder).pos()),
{
    let sub_opcode = decoder.read_u32_leb128()?;
    match sub_opcode {
        0x0c => {
            skip_bytes(decoder, 16)?;
            Ok(Instruction::Nop)
        },
        0x00..=0x0b => {
            decode_mem_arg(decoder)?;
            Ok(Instruction::Nop)
        },
        _ => Ok(Instruction::Nop),
    }
}

fn decode_prefix_fe(decoder: &mut Decoder) -> (r: Result<Instruction, WasmError>)
    requires
        old(decoder).wf(),
    ensures
        moved_on(*old(decoder), *final(decoder)),
        instr_outcome(r, final(decoder).pos()) == sp_prefix_fe(old(decoder).data(), old(decoder).pos()),
{
    let sub_opcode = decoder.read_u8()?;
    match sub_opcode {
        0x00..=0x3d => {
            decode_mem_arg(decoder)?;
            Ok(Instruction::Nop)
        },
        0x3e => {
            skip_bytes(decoder, 1)?;
            Ok(Instruction::Nop)
        },
        0x3f | 0x40 => {
            decode_mem_arg(decoder)?;
            Ok(Instruction::Nop)
        },
        _ => Ok(Instruction::Nop),
    }
}

/// Decode a control or parametric instruction, whose opcode has been read.
fn decode_control_instruction(decoder: &mut Decoder, opcode: u8) -> (r: Result<Instruction, WasmError>)
    requires
        old(decoder).wf(),
        opcode < 0x20,
    ensures
        moved_on(*old(decoder), *final(decoder)),
        instr_outcome(r, final(decoder).pos()) == sp_nonblock_control(old(decoder).data(), old(decoder).pos(), opcode),
        !takes_operands(opcode) ==> final(decoder).pos() == old(decoder).pos(),
{
    match opcode {
        // Control instructions
        0x00 => Ok(Instruction::Unreachable),
        0x01 => Ok(Instruction::Nop),
        0x05 => Ok(Instruction::Else),
        0x0b => Ok(Instruction::End),
        0x0c => Ok(Instruction::Br { label_idx: decoder.read_u32_leb128()? }),
        0x0d => Ok(Instruction::BrIf { label_idx: decoder.read_u32_leb128()? }),
        0x0e => {
            let num_labels = decoder.read_u32_leb128()? as usize;
            let labels = decode_u32_list(decoder, num_labels)?;
            let default_label = decoder.read_u32_leb128()?;
            Ok(Instruction::BrTable { labels, default_label })
        },
        0x0f => Ok(Instruction::Return),
        0x10 => Ok(Instruction::Call { function_idx: decoder.read_u32_leb128()? }),
        0x11 => {
            let type_idx = decoder.read_u32_leb128()?;
            let table_idx = decoder.read_u32_leb128()?;
            Ok(Instruction::CallIndirect { type_idx, table_idx })
        },
        0x12 => Ok(Instruction::ReturnCall { function_idx: decoder.read_u32_leb128()? }),
        0x13 => {
            let type_idx = decoder.read_u32_leb128()?;
            let table_idx = decoder.read_u32_leb128()?;
            Ok(Instruction::ReturnCallIndirect { type_idx, table_idx })
        },
        0x14 => Ok(Instruction::CallRef { type_idx: decoder.read_u32_leb128()? }),
        0x15 | 0x16 => Ok(Instruction::ReturnCallRef { type_idx: decoder.read_u32_leb128()? }),
        // Exception handling and reserved opcodes, read as no-ops
        0x06..=0x0a | 0x17 | 0x18 | 0x19 | 0x1d..=0x1f => Ok(Instruction::Nop),
        // Parametric instructions
        0x1a => Ok(Instruction::Drop),
        0x1b => Ok(Instruction::Select),
        0x1c => {
            let results = decode_value_type_vec(decoder)?;
            Ok(Instruction::SelectTyped { results })
        },
        _ => match numeric_from_opcode(opcode) {
            Some(instr) => Ok(instr),
            None => Err(WasmError::InvalidOpcode(opcode)),
        },
    }
}

/// Decode a variable or memory instruction, whose opcode has been read.
fn decode_variable_instruction(decoder: &mut Decoder, opcode: u8) -> (r: Result<Instruction, WasmError>)
    requires
        old(decoder).wf(),
        0x20 <= opcode <= 0x40,
    ensures
        moved_on(*old(decoder), *final(decoder)),
        instr_outcome(r, final(decoder).pos()) == sp_nonblock_variable(old(decoder).data(), old(decoder).pos(), opcode),
        !takes_operands(opcode) ==> final(decoder).pos() == old(decoder).pos(),
{
    match opcode {
        // Variable instructions
        0x20 => Ok(Instruction::LocalGet { local_idx: decoder.read_u32_leb128()? }),
        0x21 => Ok(Instruction::LocalSet { local_idx: decoder.read_u32_leb128()? }),
        0x22 => Ok(Instruction::LocalTee { local_idx: decoder.read_u32_leb128()? }),
        0x23 => Ok(Instruction::GlobalGet { global_idx: decoder.read_u32_leb128()? }),
        0x24 => Ok(Instruction::GlobalSet { global_idx: decoder.read_u32_leb128()? }),
        // Reserved opcodes, read as no-ops
        0x25..=0x27 => Ok(Instruction::Nop),
        // Memory instructions
        0x28..=0x3e => {
            let mem_arg = decode_mem_arg(decoder)?;
            match memory_from_opcode(opcode, mem_arg) {
                Some(instr) => Ok(instr),
                None => Err(WasmError::InvalidOpcode(opcode)),
            }
        },
        0x3f => {
            skip_bytes(decoder, 1)?;
            Ok(Instruction::MemorySize { mem_idx: 0 })
        },
        0x40 => {
            skip_bytes(decoder, 1)?;
            Ok(Instruction::MemoryGrow { mem_idx: 0 })
        },
        _ => match numeric_from_opcode(opcode) {
            Some(instr) => Ok(instr),
            None => Err(WasmError::InvalidOpcode(opcode)),
        },
    }
}

/// Decode a constant, numeric, reference or prefixed instruction, whose
/// opcode has been read.
fn decode_numeric_instruction(decoder: &mut Decoder, opcode: u8) -> (r: Result<Instruction, WasmError>)
    requires
        old(decoder).wf(),
        opcode > 0x40,
    ensures
        moved_on(*old(decoder), *final(decoder)),
        instr_outcome(r, final(decoder).pos()) == sp_nonblock_numeric(old(decoder).data(), old(decoder).pos(), opcode),
        !takes_operands(opcode) ==> final(decoder).pos() == old(decoder).pos(),
{
    match opcode {
        // Numeric constants
        0x41 => Ok(Instruction::I32Const { value: decoder.read_i32_leb128()? }),
        0x42 => Ok(Instruction::I64Const { value: decoder.read_i64_leb128()? }),
        0x43 => Ok(Instruction::F32Const { bits: decoder.read_u32_le()? }),
        0x44 => Ok(Instruction::F64Const { bits: decoder.read_u64_le()? }),
        // Reserved opcodes, read as no-ops
        0xc5..=0xcf | 0xd3..=0xfb | 0xff => Ok(Instruction::Nop),
        // Prefixed instructions
        0xfc => decode_prefix_fc(decoder),
        0xfd => decode_prefix_fd(decoder),
        0xfe => decode_prefix_fe(decoder),
        // Reference types
        0xd0 => Ok(Instruction::RefNull { ty: decode_value_type(decoder)? }),
        0xd1 => Ok(Instruction::RefIsNull),
        0xd2 => Ok(Instruction::RefFunc { func_idx: decoder.read_u32_leb128()? }),
        _ => match numeric_from_opcode(opcode) {
            Some(instr) => Ok(instr),
            None => Err(WasmError::InvalidOpcode(opcode)),
        },
    }
}

/// Decode an instruction that holds no block, whose opcode has been read;
/// the block opcodes are refused.
fn decode_non_block_instruction(decoder: &mut Decoder, opcode: u8) -> (r: Result<Instruction, WasmError>)
    requires
        old(decoder).wf(),
    ensures
        moved_on(*old(decoder), *final(decoder)),
        instr_outcome(r, final(decoder).pos()) == sp_nonblock(old(decoder).data(), old(decoder).pos(), opcode),
        !takes_operands(opcode) ==> final(decoder).pos() == old(decoder).pos(),
        is_block_opcode(opcode) ==> r == Err::<Instruction, WasmError>(WasmError::InvalidOpcode(opcode))
            && final(decoder).pos() == old(decoder).pos(),
{
    if opcode < 0x20 {
        decode_control_instruction(decoder, opcode)
    } else if opcode <= 0x40 {
        decode_variable_instruction(decoder, opcode)
    } else {
        decode_numeric_instruction(decoder, opcode)
    }
}

// ---------------------------------------------------------------------------
// Blocks, read with an explicit stack of open blocks.

/// Whether an opcode opens a block, a loop or an if.
pub open spec fn is_block_opcode(b: u8) -> bool {
    b == 0x02 || b == 0x03 || b == 0x04
}

/// The block, loop or if (with an empty else branch) that an opcode opens,
/// with its body.
pub open spec fn mk_block(op: u8, bt: BlockType, body: Seq<InstrView>) -> InstrView {
    if op == 0x02 {
        InstrView::Block { block_type: bt, body }
    } else if op == 0x03 {
        InstrView::Loop { block_type: bt, body }
    } else {
        InstrView::If { block_type: bt, then_branch: body, else_branch: Seq::empty() }
    }
}

/// The instructions of an `if` body up to and including an else opcode are
/// dropped; those of a block or a loop are kept.
pub open spec fn after_else(op: u8, acc: Seq<InstrView>) -> Seq<InstrView> {
    if op == 0x04 {
        Seq::empty()
    } else {
        acc
    }
}

/// The body of the block that opcode `op` opened, where `acc` holds what
/// was gathered of it before the instructions `raw`: an `else` among them
/// is not kept, and resets an `if` body to what follows it.
pub open spec fn skip_elses(op: u8, acc: Seq<InstrView>, raw: Seq<InstrView>) -> Seq<InstrView>
    decreases raw.len(),
{
    if raw.len() == 0 {
        acc
    } else if raw[0] == InstrView::Leaf(Instruction::Else) {
        skip_elses(op, after_else(op, acc), raw.subrange(1, raw.len() as int))
    } else {
        skip_elses(op, acc.push(raw[0]), raw.subrange(1, raw.len() as int))
    }
}

/// The body that a block gathers: its instructions as read, or where
/// `skip_else`, those instructions with the elses skipped.
pub open spec fn gathered(op: u8, acc: Seq<InstrView>, raw: Seq<InstrView>, skip_else: bool) -> Seq<InstrView> {
    if skip_else {
        skip_elses(op, acc, raw)
    } else {
        acc + raw
    }
}

/// Gathering one more instruction that is not an `else`.
proof fn lemma_gathered_push(op: u8, acc: Seq<InstrView>, i: InstrView, rest: Seq<InstrView>, skip_else: bool)
    requires
        skip_else ==> i != InstrView::Leaf(Instruction::Else),
    ensures
        gathered(op, acc, seq![i] + rest, skip_else) == gathered(op, acc.push(i), rest, skip_else),
{
    let raw = seq![i] + rest;
    assert(raw[0] == i);
    assert(raw.subrange(1, raw.len() as int) =~= rest);
    assert(acc + raw =~= acc.push(i) + rest);
}

/// The instructions nested in an open block, up to its end opcode 0x0b,
/// which is read. A nested block holds the body it gathers; an else opcode
/// is read as an `else` instruction.
#[verifier::opaque]
pub open spec fn nested_body(s: Seq<u8>, p: int, skip_else: bool) -> SpecResult<Seq<InstrView>>
    decreases s.len() - p,
{
    if !(0 <= p < s.len()) {
        Err(WasmErrorView::UnexpectedEof)
    } else if s[p] == 0x0b {
        Ok((Seq::empty(), p + 1))
    } else if is_block_opcode(s[p]) {
        match sp_block_type(s, p + 1) {
            Ok((bt, q)) => if advanced(s, p, q) {
                match nested_body(s, q, skip_else) {
                    Ok((body, r)) => if advanced(s, p, r) {
                        prepend(
                            seq![mk_block(s[p], bt, gathered(s[p], Seq::empty(), body, skip_else))],
                            nested_body(s, r, skip_else),
                        )
                    } else {
                        Err(WasmErrorView::UnexpectedEof)
                    },
                    Err(e) => Err(e),
                }
            } else {
                Err(WasmErrorView::UnexpectedEof)
            },
            Err(e) => Err(e),
        }
    } else {
        match sp_nonblock(s, p + 1, s[p]) {
            Ok((i, q)) => if advanced(s, p, q) {
                prepend(seq![i], nested_body(s, q, skip_else))
            } else {
                Err(WasmErrorView::UnexpectedEof)
            },
            Err(e) => Err(e),
        }
    }
}

/// A nested body that is read ends after where it starts, within the bytes.
pub proof fn lemma_nested_advances(s: Seq<u8>, p: int, skip_else: bool)
    ensures
        nested_body(s, p, skip_else) matches Ok((_, r)) ==> p < r <= s.len(),
    decreases s.len() - p,
{
    reveal(nested_body);
    if 0 <= p < s.len() && s[p] != 0x0b {
        if is_block_opcode(s[p]) {
            if let Ok((bt, q)) = sp_block_type(s, p + 1) {
                if advanced(s, p, q) {
                    lemma_nested_advances(s, q, skip_else);
                    if let Ok((body, r)) = nested_body(s, q, skip_else) {
                        if advanced(s, p, r) {
                            lemma_nested_advances(s, r, skip_else);
                        }
                    }
                }
            }
        } else {
            if let Ok((i, q)) = sp_nonblock(s, p + 1, s[p]) {
                if advanced(s, p, q) {
                    lemma_nested_advances(s, q, skip_else);
                }
            }
        }
    }
}

/// An open block: its opcode, its block type and the instructions read so
/// far.
pub type OpenBlock = (u8, BlockType, Seq<InstrView>);

/// The open blocks with `item` added to the innermost.
pub open spec fn add_to_innermost(frames: Seq<OpenBlock>, item: InstrView) -> Seq<OpenBlock> {
    let f = frames.last();
    frames.drop_last().push((f.0, f.1, f.2.push(item)))
}

/// Reading on from `p` until the open blocks (innermost last) are all
/// closed: the outermost block, whole, and the position after its end.
#[verifier::opaque]
pub open spec fn close_blocks(s: Seq<u8>, p: int, frames: Seq<OpenBlock>, skip_else: bool) -> SpecResult<InstrView>
    decreases frames.len(),
{
    if frames.len() == 0 {
        Err(WasmErrorView::UnexpectedEof)
    } else {
        let f = frames.last();
        match nested_body(s, p, skip_else) {
            Ok((rest, q)) => {
                let item = mk_block(f.0, f.1, gathered(f.0, f.2, rest, skip_else));
                if frames.len() == 1 {
                    Ok((item, q))
                } else {
                    close_blocks(s, q, add_to_innermost(frames.drop_last(), item), skip_else)
                }
            },
            Err(e) => Err(e),
        }
    }
}

/// Reading an instruction that holds no block into the innermost open block.
pub proof fn lemma_close_regular(s: Seq<u8>, p: int, frames: Seq<OpenBlock>, skip_else: bool, i: InstrView, q: int)
    requires
        frames.len() > 0,
        0 <= p < s.len(),
        s[p] != 0x0b,
        !is_block_opcode(s[p]),
        !(s[p] == 0x05 && skip_else),
        sp_nonblock(s, p + 1, s[p]) == Ok::<(InstrView, int), WasmErrorView>((i, q)),
        advanced(s, p, q),
    ensures
        close_blocks(s, p, frames, skip_else) == close_blocks(s, q, add_to_innermost(frames, i), skip_else),
{
    reveal(nested_body);
    reveal(close_blocks);
    let f = frames.last();
    let g = add_to_innermost(frames, i);
    assert(g.last() == (f.0, f.1, f.2.push(i)));
    assert(g.drop_last() =~= frames.drop_last());
    if s[p] != 0x05 {
        lemma_nonblock_not_else(s, p + 1, s[p]);
    }
    if let Ok((rest, r)) = nested_body(s, q, skip_else) {
        lemma_gathered_push(f.0, f.2, i, rest, skip_else);
    }
}

/// The open blocks after an else opcode is skipped in the innermost one.
pub open spec fn skip_else_in(frames: Seq<OpenBlock>) -> Seq<OpenBlock> {
    let f = frames.last();
    frames.drop_last().push((f.0, f.1, after_else(f.0, f.2)))
}

/// Skipping an else opcode inside an open block.
pub proof fn lemma_close_skip(s: Seq<u8>, p: int, frames: Seq<OpenBlock>)
    requires
        frames.len() > 0,
        0 <= p < s.len(),
        s[p] == 0x05,
    ensures
        close_blocks(s, p, frames, true) == close_blocks(s, p + 1, skip_else_in(frames), true),
{
    reveal(nested_body);
    reveal(close_blocks);
    let f = frames.last();
    let g = skip_else_in(frames);
    assert(g.last() == (f.0, f.1, after_else(f.0, f.2)));
    assert(g.drop_last() =~= frames.drop_last());
    assert(sp_nonblock(s, p + 1, s[p]) == Ok::<(InstrView, int), WasmErrorView>(
        (InstrView::Leaf(Instruction::Else), p + 1),
    ));
    if let Ok((rest, r)) = nested_body(s, p + 1, true) {
        let raw = seq![InstrView::Leaf(Instruction::Else)] + rest;
        assert(raw[0] == InstrView::Leaf(Instruction::Else));
        assert(raw.subrange(1, raw.len() as int) =~= rest);
    }
}

/// Opening a block inside an open block.
pub proof fn lemma_close_open(s: Seq<u8>, p: int, frames: Seq<OpenBlock>, skip_else: bool, bt: BlockType, q: int)
    requires
        frames.len() > 0,
        0 <= p < s.len(),
        is_block_opcode(s[p]),
        sp_block_type(s, p + 1) == Ok::<(BlockType, int), WasmErrorView>((bt, q)),
        advanced(s, p, q),
    ensures
        close_blocks(s, p, frames, skip_else) == close_blocks(
            s,
            q,
            frames.push((s[p], bt, Seq::<InstrView>::empty())),
            skip_else,
        ),
{
    reveal(nested_body);
    reveal(close_blocks);
    let f = frames.last();
    let g = frames.push((s[p], bt, Seq::<InstrView>::empty()));
    lemma_nested_advances(s, q, skip_else);
    assert(g.last() == (s[p], bt, Seq::<InstrView>::empty()));
    assert(g.drop_last() =~= frames);
    match nested_body(s, q, skip_else) {
        Ok((body, r)) => {
            let blk = mk_block(s[p], bt, gathered(s[p], Seq::empty(), body, skip_else));
            let h = add_to_innermost(frames, blk);
            assert(h.last() == (f.0, f.1, f.2.push(blk)));
            assert(h.drop_last() =~= frames.drop_last());
            assert(close_blocks(s, q, g, skip_else) == close_blocks(s, r, h, skip_else));
            assert(nested_body(s, p, skip_else) == prepend(seq![blk], nested_body(s, r, skip_else)));
            match nested_body(s, r, skip_else) {
                Ok((rest, r2)) => {
                    lemma_gathered_push(f.0, f.2, blk, rest, skip_else);
                    let item = mk_block(f.0, f.1, gathered(f.0, f.2.push(blk), rest, skip_else));
                    assert(close_blocks(s, r, h, skip_else) == (if h.len() == 1 {
                        Ok::<(InstrView, int), WasmErrorView>((item, r2))
                    } else {
                        close_blocks(s, r2, add_to_innermost(h.drop_last(), item), skip_else)
                    }));
                },
                Err(e) => {
                    assert(close_blocks(s, r, h, skip_else) == Err::<(InstrView, int), WasmErrorView>(e));
                },
            }
        },
        Err(e) => {
            assert(nested_body(s, p, skip_else) == Err::<(Seq<InstrView>, int), WasmErrorView>(e));
        },
    }
}

/// Reading the end opcode of the innermost open block.
pub proof fn lemma_close_end(s: Seq<u8>, p: int, frames: Seq<OpenBlock>, skip_else: bool)
    requires
        frames.len() > 0,
        0 <= p < s.len(),
        s[p] == 0x0b,
    ensures
        close_blocks(s, p, frames, skip_else) == (if frames.len() == 1 {
            Ok::<(InstrView, int), WasmErrorView>(
                (mk_block(frames.last().0, frames.last().1, frames.last().2), p + 1),
            )
        } else {
            close_blocks(
                s,
                p + 1,
                add_to_innermost(frames.drop_last(), mk_block(frames.last().0, frames.last().1, frames.last().2)),
                skip_else,
            )
        }),
{
    reveal(nested_body);
    reveal(close_blocks);
    assert(frames.last().2 + Seq::<InstrView>::empty() =~= frames.last().2);
}

/// The models of the open blocks of a decoder's stack.
pub open spec fn open_blocks(v: Seq<(u8, BlockType, Vec<Instruction>)>) -> Seq<OpenBlock> {
    v.map_values(|f: (u8, BlockType, Vec<Instruction>)| (f.0, f.1, instrs_view(f.2@)))
}

/// Build the block, loop or if that an opcode opens.
fn make_block(opcode: u8, block_type: BlockType, body: Vec<Instruction>) -> (r: Instruction)
    ensures
        r@ == mk_block(opcode, block_type, instrs_view(body@)),
{
    if opcode == 0x02 {
        Instruction::Block { block_type, body }
    } else if opcode == 0x03 {
        Instruction::Loop { block_type, body }
    } else {
        let else_branch: Vec<Instruction> = Vec::new();
        assert(instrs_view(else_branch@) =~= Seq::<InstrView>::empty());
        Instruction::If { block_type, then_branch: body, else_branch }
    }
}

/// Add an instruction to the innermost open block.
fn add_to_innermost_block(stack: &mut Vec<(u8, BlockType, Vec<Instruction>)>, instr: Instruction)
    requires
        old(stack)@.len() > 0,
    ensures
        final(stack)@.len() == old(stack)@.len(),
        open_blocks(final(stack)@) == add_to_innermost(open_blocks(old(stack)@), instr@),
{
    let (opcode, block_type, mut body) = stack.pop().unwrap();
    let ghost before = body@;
    body.push(instr);
    proof {
        lemma_instrs_view_push(before, instr);
    }
    stack.push((opcode, block_type, body));
    proof {
        let o = open_blocks(old(stack)@);
        assert(open_blocks(stack@) =~= add_to_innermost(o, instr@)) by {
            assert(open_blocks(old(stack)@.drop_last()) =~= o.drop_last());
        }
    }
}

/// Skip an else opcode in the innermost open block: an `if` drops the
/// instructions it gathered before it.
fn skip_else_in_innermost(stack: &mut Vec<(u8, BlockType, Vec<Instruction>)>)
    requires
        old(stack)@.len() > 0,
    ensures
        final(stack)@.len() == old(stack)@.len(),
        open_blocks(final(stack)@) == skip_else_in(open_blocks(old(stack)@)),
{
    let (opcode, block_type, body) = stack.pop().unwrap();
    let kept = if opcode == 0x04 {
        Vec::new()
    } else {
        body
    };
    proof {
        assert(instrs_view(kept@) == after_else(opcode, instrs_view(body@))) by {
            if opcode == 0x04 {
                assert(instrs_view(kept@) =~= Seq::<InstrView>::empty());
            }
        }
    }
    stack.push((opcode, block_type, kept));
    proof {
        let o = open_blocks(old(stack)@);
        assert(open_blocks(stack@) =~= skip_else_in(o)) by {
            assert(open_blocks(old(stack)@.drop_last()) =~= o.drop_last());
        }
    }
}

/// Read an opcode and the instruction it begins, which holds no block.
fn decode_regular_instruction(decoder: &mut Decoder) -> (r: Result<Instruction, WasmError>)
    requires
        old(decoder).wf(),
    ensures
        moved_on(*old(decoder), *final(decoder)),
        r is Ok ==> old(decoder).pos() < final(decoder).pos(),
        instr_outcome(r, final(decoder).pos()) == (match sp_u8(old(decoder).data(), old(decoder).pos()) {
            Ok((op, q)) => sp_nonblock(old(decoder).data(), q, op),
            Err(e) => Err(e),
        }),
{
    let opcode = decoder.read_u8()?;
    decode_non_block_instruction(decoder, opcode)
}

/// The body of a block, up to its end opcode, which is read. Nested
/// blocks hold their own instructions; an else opcode directly in the body
/// is read as an `else` instruction, one in a nested block is skipped and
/// drops what a nested `if` gathered before it.
#[verifier::opaque]
pub open spec fn block_body(s: Seq<u8>, p: int) -> SpecResult<Seq<InstrView>>
    decreases s.len() - p,
{
    if !(0 <= p < s.len()) {
        Err(WasmErrorView::UnexpectedEof)
    } else if s[p] == 0x0b {
        Ok((Seq::empty(), p + 1))
    } else if is_block_opcode(s[p]) {
        match sp_block_type(s, p + 1) {
            Ok((bt, q)) => if advanced(s, p, q) {
                match nested_body(s, q, true) {
                    Ok((body, r)) => if advanced(s, p, r) {
                        prepend(seq![mk_block(s[p], bt, gathered(s[p], Seq::empty(), body, true))], block_body(s, r))
                    } else {
                        Err(WasmErrorView::UnexpectedEof)
                    },
                    Err(e) => Err(e),
                }
            } else {
                Err(WasmErrorView::UnexpectedEof)
            },
            Err(e) => Err(e),
        }
    } else {
        match sp_nonblock(s, p + 1, s[p]) {
            Ok((i, q)) => if advanced(s, p, q) {
                prepend(seq![i], block_body(s, q))
            } else {
                Err(WasmErrorView::UnexpectedEof)
            },
            Err(e) => Err(e),
        }
    }
}

/// What reading a block body from `p` gives, where `frames` are the blocks
/// opened in it and `acc` the instructions read directly in it so far.
pub open spec fn resume_block_body(s: Seq<u8>, p: int, frames: Seq<OpenBlock>, acc: Seq<InstrView>) -> SpecResult<
    Seq<InstrView>,
> {
    if frames.len() == 0 {
        prepend(acc, block_body(s, p))
    } else {
        match close_blocks(s, p, frames, true) {
            Ok((item, q)) => prepend(acc.push(item), block_body(s, q)),
            Err(e) => Err(e),
        }
    }
}

proof fn lemma_prepend_push_item(acc: Seq<InstrView>, item: InstrView, r: SpecResult<Seq<InstrView>>)
    ensures
        prepend(acc, prepend(seq![item], r)) == prepend(acc.push(item), r),
{
    if let Ok((xs, q)) = r {
        assert(acc + (seq![item] + xs) =~= acc.push(item) + xs);
    }
}

/// Opening a block directly in a block body.
proof fn lemma_block_body_open(s: Seq<u8>, p: int, acc: Seq<InstrView>, bt: BlockType, q: int)
    requires
        0 <= p < s.len(),
        is_block_opcode(s[p]),
        sp_block_type(s, p + 1) == Ok::<(BlockType, int), WasmErrorView>((bt, q)),
        advanced(s, p, q),
    ensures
        prepend(acc, block_body(s, p)) == resume_block_body(s, q, seq![(s[p], bt, Seq::<InstrView>::empty())], acc),
{
    reveal(nested_body);
    reveal(close_blocks);
    reveal(block_body);
    lemma_nested_advances(s, q, true);
    if let Ok((body, r)) = nested_body(s, q, true) {
        lemma_prepend_push_item(
            acc,
            mk_block(s[p], bt, gathered(s[p], Seq::empty(), body, true)),
            block_body(s, r),
        );
    }
}

/// Where the bytes end, reading on from there fails.
proof fn lemma_block_body_eof(s: Seq<u8>, p: int, frames: Seq<OpenBlock>, acc: Seq<InstrView>)
    requires
        !(0 <= p < s.len()),
    ensures
        resume_block_body(s, p, frames, acc) == Err::<(Seq<InstrView>, int), WasmErrorView>(
            WasmErrorView::UnexpectedEof,
        ),
{
    reveal(nested_body);
    reveal(close_blocks);
    reveal(block_body);
}

/// The end opcode directly in a block body ends it.
proof fn lemma_block_body_end(s: Seq<u8>, p: int, acc: Seq<InstrView>)
    requires
        0 <= p < s.len(),
        s[p] == 0x0b,
    ensures
        prepend(acc, block_body(s, p)) == Ok::<(Seq<InstrView>, int), WasmErrorView>((acc, p + 1)),
{
    reveal(block_body);
    assert(acc + Seq::<InstrView>::empty() =~= acc);
}

/// A block opcode whose block type cannot be read.
proof fn lemma_block_body_open_err(s: Seq<u8>, p: int, frames: Seq<OpenBlock>, acc: Seq<InstrView>, e: WasmErrorView)
    requires
        0 <= p < s.len(),
        is_block_opcode(s[p]),
        sp_block_type(s, p + 1) == Err::<(BlockType, int), WasmErrorView>(e),
    ensures
        resume_block_body(s, p, frames, acc) == Err::<(Seq<InstrView>, int), WasmErrorView>(e),
{
    reveal(nested_body);
    reveal(close_blocks);
    reveal(block_body);
}

/// An instruction holding no block, read directly in a block body.
proof fn lemma_block_body_regular(s: Seq<u8>, p: int, acc: Seq<InstrView>, i: InstrView, q: int)
    requires
        0 <= p < s.len(),
        s[p] != 0x0b,
        !is_block_opcode(s[p]),
        sp_nonblock(s, p + 1, s[p]) == Ok::<(InstrView, int), WasmErrorView>((i, q)),
        advanced(s, p, q),
    ensures
        prepend(acc, block_body(s, p)) == prepend(acc.push(i), block_body(s, q)),
{
    reveal(block_body);
    lemma_prepend_push_item(acc, i, block_body(s, q));
}

/// An instruction holding no block that cannot be read.
proof fn lemma_block_body_regular_err(s: Seq<u8>, p: int, frames: Seq<OpenBlock>, acc: Seq<InstrView>, e: WasmErrorView)
    requires
        0 <= p < s.len(),
        s[p] != 0x0b,
        !is_block_opcode(s[p]),
        !(s[p] == 0x05 && frames.len() > 0),
        sp_nonblock(s, p + 1, s[p]) == Err::<(InstrView, int), WasmErrorView>(e),
    ensures
        resume_block_body(s, p, frames, acc) == Err::<(Seq<InstrView>, int), WasmErrorView>(e),
{
    reveal(nested_body);
    reveal(close_blocks);
    reveal(block_body);
}

/// Read a block opcode and its block type.
fn read_block_header(decoder: &mut Decoder) -> (r: Result<(u8, BlockType), WasmError>)
    requires
        old(decoder).wf(),
        old(decoder).pos() < old(decoder).data().len(),
    ensures
        moved_on(*old(decoder), *final(decoder)),
        r matches Ok((op, _)) ==> op == old(decoder).data()[old(decoder).pos()],
        match r {
            Ok((_, bt)) => sp_block_type(old(decoder).data(), old(decoder).pos() + 1) == Ok::<
                (BlockType, int),
                WasmErrorView,
            >((bt, final(decoder).pos())) && advanced(old(decoder).data(), old(decoder).pos(), final(decoder).pos()),
            Err(e) => sp_block_type(old(decoder).data(), old(decoder).pos() + 1) == Err::<(BlockType, int), WasmErrorView>(
                e@,
            ),
        },
{
    let opcode = decoder.read_u8()?;
    let value = decoder.read_i32_leb128()?;
    let block_type = BlockType::from_i64(value as i64)?;
    Ok((opcode, block_type))
}

/// Decode a block body with an explicit stack of the blocks opened in it.
#[verifier::spinoff_prover]
#[verifier::rlimit(100)]
fn decode_block_body_iterative(decoder: &mut Decoder) -> (r: Result<Vec<Instruction>, WasmError>)
    requires
        old(decoder).wf(),
    ensures
        moved_on(*old(decoder), *final(decoder)),
        outcome_instrs(r, final(decoder).pos()) == block_body(old(decoder).data(), old(decoder).pos()),
{
    let mut instructions: Vec<Instruction> = Vec::new();
    let mut block_stack: Vec<(u8, BlockType, Vec<Instruction>)> = Vec::new();
    let ghost s = decoder.data();
    let ghost p0 = decoder.pos();
    proof {
        assert(open_blocks(block_stack@) =~= Seq::<OpenBlock>::empty());
        assert(instrs_view(instructions@) =~= Seq::<InstrView>::empty());
        assert(Seq::<InstrView>::empty() + Seq::<InstrView>::empty() =~= Seq::<InstrView>::empty());
    }
    loop
        invariant
            decoder.wf(),
            decoder.data() == s,
            s == old(decoder).data(),
            p0 == old(decoder).pos(),
            p0 <= decoder.pos(),
            block_body(s, p0) == resume_block_body(
                s,
                decoder.pos(),
                open_blocks(block_stack@),
                instrs_view(instructions@),
            ),
        decreases s.len() - decoder.pos(),
    {
        let ghost p = decoder.pos();
        let ghost frames = open_blocks(block_stack@);
        let ghost acc = instrs_view(instructions@);
        match decoder.peek() {
            None => {
                proof {
                    lemma_block_body_eof(s, p, frames, acc);
                }
                return Err(WasmError::UnexpectedEof);
            },
            Some(b) => {
                if b == 0x0b && block_stack.len() == 0 {
                    decoder.read_u8()?;
                    proof {
                        lemma_block_body_end(s, p, acc);
                    }
                    return Ok(instructions);
                } else if b == 0x02 || b == 0x03 || b == 0x04 {
                    let (opcode, block_type) = match read_block_header(decoder) {
                        Ok(h) => h,
                        Err(e) => {
                            proof {
                                lemma_block_body_open_err(s, p, frames, acc, e@);
                            }
                            return Err(e);
                        },
                    };
                    let ghost q = decoder.pos();
                    proof {
                        if frames.len() == 0 {
                            lemma_block_body_open(s, p, acc, block_type, q);
                            assert(frames.push((b, block_type, Seq::<InstrView>::empty())) =~= seq![
                                (b, block_type, Seq::<InstrView>::empty()),
                            ]);
                        } else {
                            lemma_close_open(s, p, frames, true, block_type, q);
                        }
                    }
                    block_stack.push((opcode, block_type, Vec::new()));
                    proof {
                        assert(open_blocks(block_stack@) =~= frames.push((b, block_type, Seq::<InstrView>::empty())));
                    }
                } else if b == 0x05 && block_stack.len() > 0 {
                    decoder.read_u8()?;
                    proof {
                        lemma_close_skip(s, p, frames);
                    }
                    skip_else_in_innermost(&mut block_stack);
                } else if b == 0x0b {
                    decoder.read_u8()?;
                    proof {
                        lemma_close_end(s, p, frames, true);
                    }
                    let ghost last = block_stack@.last();
                    let (opcode, block_type, body) = block_stack.pop().unwrap();
                    let instr = make_block(opcode, block_type, body);
                    proof {
                        assert(open_blocks(block_stack@) =~= frames.drop_last());
                        assert(frames.last() == (last.0, last.1, instrs_view(last.2@)));
                        assert(instr@ == mk_block(frames.last().0, frames.last().1, frames.last().2));
                    }
                    if block_stack.len() == 0 {
                        let ghost before = instructions@;
                        instructions.push(instr);
                        proof {
                            lemma_instrs_view_push(before, instr);
                        }
                    } else {
                        add_to_innermost_block(&mut block_stack, instr);
                    }
                } else {
                    let instr = match decode_regular_instruction(decoder) {
                        Ok(i) => i,
                        Err(e) => {
                            proof {
                                lemma_block_body_regular_err(s, p, frames, acc, e@);
                            }
                            return Err(e);
                        },
                    };
                    let ghost q = decoder.pos();
                    proof {
                        if frames.len() == 0 {
                            lemma_block_body_regular(s, p, acc, instr@, q);
                        } else {
                            lemma_close_regular(s, p, frames, true, instr@, q);
                        }
                    }
                    if block_stack.len() == 0 {
                        let ghost before = instructions@;
                        instructions.push(instr);
                        proof {
                            lemma_instrs_view_push(before, instr);
                        }
                    } else {
                        add_to_innermost_block(&mut block_stack, instr);
                    }
                }
            },
        }
    }
}

/// `item` put before the instructions of the branch it belongs to.
pub open spec fn add_branch(
    in_else: bool,
    item: InstrView,
    r: SpecResult<(Seq<InstrView>, Seq<InstrView>)>,
) -> SpecResult<(Seq<InstrView>, Seq<InstrView>)> {
    match r {
        Ok(((t, e), q)) => if in_else {
            Ok(((t, seq![item] + e), q))
        } else {
            Ok(((seq![item] + t, e), q))
        },
        Err(err) => Err(err),
    }
}

/// The two branches of an `if`, up to its end opcode, which is read: an
/// else opcode directly in it starts the else branch; one in a nested block
/// is read as an `else` instruction there.
#[verifier::opaque]
pub open spec fn if_branches(s: Seq<u8>, p: int, in_else: bool) -> SpecResult<(Seq<InstrView>, Seq<InstrView>)>
    decreases s.len() - p,
{
    if !(0 <= p < s.len()) {
        Err(WasmErrorView::UnexpectedEof)
    } else if s[p] == 0x0b {
        Ok(((Seq::empty(), Seq::empty()), p + 1))
    } else if s[p] == 0x05 {
        if_branches(s, p + 1, true)
    } else if is_block_opcode(s[p]) {
        match sp_block_type(s, p + 1) {
            Ok((bt, q)) => if advanced(s, p, q) {
                match nested_body(s, q, false) {
                    Ok((body, r)) => if advanced(s, p, r) {
                        add_branch(in_else, mk_block(s[p], bt, body), if_branches(s, r, in_else))
                    } else {
                        Err(WasmErrorView::UnexpectedEof)
                    },
                    Err(e) => Err(e),
                }
            } else {
                Err(WasmErrorView::UnexpectedEof)
            },
            Err(e) => Err(e),
        }
    } else {
        match sp_nonblock(s, p + 1, s[p]) {
            Ok((i, q)) => if advanced(s, p, q) {
                add_branch(in_else, i, if_branches(s, q, in_else))
            } else {
                Err(WasmErrorView::UnexpectedEof)
            },
            Err(e) => Err(e),
        }
    }
}

/// The branches read so far, with `item` added to the one it belongs to.
pub open spec fn with_item(t: Seq<InstrView>, e: Seq<InstrView>, in_else: bool, item: InstrView) -> (
    Seq<InstrView>,
    Seq<InstrView>,
) {
    if in_else {
        (t, e.push(item))
    } else {
        (t.push(item), e)
    }
}

/// What reading the branches of an `if` from `p` gives, where `frames` are
/// the blocks opened in it and `t`, `e` the instructions read directly in
/// each branch so far.
pub open spec fn resume_if_branches(
    s: Seq<u8>,
    p: int,
    frames: Seq<OpenBlock>,
    t: Seq<InstrView>,
    e: Seq<InstrView>,
    in_else: bool,
) -> SpecResult<(Seq<InstrView>, Seq<InstrView>)> {
    if frames.len() == 0 {
        join_branches(t, e, if_branches(s, p, in_else))
    } else {
        match close_blocks(s, p, frames, false) {
            Ok((item, q)) => {
                let b = with_item(t, e, in_else, item);
                join_branches(b.0, b.1, if_branches(s, q, in_else))
            },
            Err(err) => Err(err),
        }
    }
}

proof fn lemma_join_item(t: Seq<InstrView>, e: Seq<InstrView>, in_else: bool, item: InstrView, r: SpecResult<(Seq<InstrView>, Seq<InstrView>)>)
    ensures
        join_branches(t, e, add_branch(in_else, item, r)) == join_branches(
            with_item(t, e, in_else, item).0,
            with_item(t, e, in_else, item).1,
            r,
        ),
{
    if let Ok(((t2, e2), q)) = r {
        assert(t + (seq![item] + t2) =~= t.push(item) + t2);
        assert(e + (seq![item] + e2) =~= e.push(item) + e2);
    }
}

proof fn lemma_if_branches_eof(s: Seq<u8>, p: int, frames: Seq<OpenBlock>, t: Seq<InstrView>, e: Seq<InstrView>, in_else: bool)
    requires
        !(0 <= p < s.len()),
    ensures
        resume_if_branches(s, p, frames, t, e, in_else) == Err::<((Seq<InstrView>, Seq<InstrView>), int), WasmErrorView>(
            WasmErrorView::UnexpectedEof,
        ),
{
    reveal(nested_body);
    reveal(close_blocks);
    reveal(if_branches);
}

proof fn lemma_if_branches_end(s: Seq<u8>, p: int, t: Seq<InstrView>, e: Seq<InstrView>, in_else: bool)
    requires
        0 <= p < s.len(),
        s[p] == 0x0b,
    ensures
        join_branches(t, e, if_branches(s, p, in_else)) == Ok::<((Seq<InstrView>, Seq<InstrView>), int), WasmErrorView>(
            ((t, e), p + 1),
        ),
{
    reveal(if_branches);
    assert(t + Seq::<InstrView>::empty() =~= t);
    assert(e + Seq::<InstrView>::empty() =~= e);
}

proof fn lemma_if_branches_else(s: Seq<u8>, p: int, t: Seq<InstrView>, e: Seq<InstrView>, in_else: bool)
    requires
        0 <= p < s.len(),
        s[p] == 0x05,
    ensures
        join_branches(t, e, if_branches(s, p, in_else)) == join_branches(t, e, if_branches(s, p + 1, true)),
{
    reveal(if_branches);
}

proof fn lemma_if_branches_open(s: Seq<u8>, p: int, t: Seq<InstrView>, e: Seq<InstrView>, in_else: bool, bt: BlockType, q: int)
    requires
        0 <= p < s.len(),
        is_block_opcode(s[p]),
        sp_block_type(s, p + 1) == Ok::<(BlockType, int), WasmErrorView>((bt, q)),
        advanced(s, p, q),
    ensures
        join_branches(t, e, if_branches(s, p, in_else)) == resume_if_branches(
            s,
            q,
            seq![(s[p], bt, Seq::<InstrView>::empty())],
            t,
            e,
            in_else,
        ),
{
    reveal(nested_body);
    reveal(close_blocks);
    reveal(if_branches);
    lemma_nested_advances(s, q, false);
    if let Ok((body, r)) = nested_body(s, q, false) {
        assert(Seq::<InstrView>::empty() + body =~= body);
        lemma_join_item(t, e, in_else, mk_block(s[p], bt, body), if_branches(s, r, in_else));
    }
}

proof fn lemma_if_branches_open_err(
    s: Seq<u8>,
    p: int,
    frames: Seq<OpenBlock>,
    t: Seq<InstrView>,
    e: Seq<InstrView>,
    in_else: bool,
    err: WasmErrorView,
)
    requires
        0 <= p < s.len(),
        is_block_opcode(s[p]),
        sp_block_type(s, p + 1) == Err::<(BlockType, int), WasmErrorView>(err),
    ensures
        resume_if_branches(s, p, frames, t, e, in_else) == Err::<((Seq<InstrView>, Seq<InstrView>), int), WasmErrorView>(
            err,
        ),
{
    reveal(nested_body);
    reveal(close_blocks);
    reveal(if_branches);
}

proof fn lemma_if_branches_regular(s: Seq<u8>, p: int, t: Seq<InstrView>, e: Seq<InstrView>, in_else: bool, i: InstrView, q: int)
    requires
        0 <= p < s.len(),
        s[p] != 0x0b,
        s[p] != 0x05,
        !is_block_opcode(s[p]),
        sp_nonblock(s, p + 1, s[p]) == Ok::<(InstrView, int), WasmErrorView>((i, q)),
        advanced(s, p, q),
    ensures
        join_branches(t, e, if_branches(s, p, in_else)) == join_branches(
            with_item(t, e, in_else, i).0,
            with_item(t, e, in_else, i).1,
            if_branches(s, q, in_else),
        ),
{
    reveal(if_branches);
    lemma_join_item(t, e, in_else, i, if_branches(s, q, in_else));
}

proof fn lemma_if_branches_regular_err(
    s: Seq<u8>,
    p: int,
    frames: Seq<OpenBlock>,
    t: Seq<InstrView>,
    e: Seq<InstrView>,
    in_else: bool,
    err: WasmErrorView,
)
    requires
        0 <= p < s.len(),
        s[p] != 0x0b,
        !is_block_opcode(s[p]),
        !(s[p] == 0x05 && frames.len() == 0),
        sp_nonblock(s, p + 1, s[p]) == Err::<(InstrView, int), WasmErrorView>(err),
    ensures
        resume_if_branches(s, p, frames, t, e, in_else) == Err::<((Seq<InstrView>, Seq<InstrView>), int), WasmErrorView>(
            err,
        ),
{
    reveal(nested_body);
    reveal(close_blocks);
    reveal(if_branches);
}

/// Push an instruction onto a list of instructions, keeping its model in step.
fn push_instr(v: &mut Vec<Instruction>, instr: Instruction)
    ensures
        final(v)@ == old(v)@.push(instr),
        instrs_view(final(v)@) == instrs_view(old(v)@).push(instr@),
{
    let ghost before = v@;
    v.push(instr);
    proof {
        lemma_instrs_view_push(before, instr);
    }
}

/// Decode the two branches of an `if` with an explicit stack of the blocks
/// opened in them.
#[verifier::spinoff_prover]
#[verifier::rlimit(100)]
fn decode_if_branches_iterative(decoder: &mut Decoder) -> (r: Result<(Vec<Instruction>, Vec<Instruction>), WasmError>)
    requires
        old(decoder).wf(),
    ensures
        moved_on(*old(decoder), *final(decoder)),
        match r {
            Ok((t, e)) => if_branches(old(decoder).data(), old(decoder).pos(), false) == Ok::<
                ((Seq<InstrView>, Seq<InstrView>), int),
                WasmErrorView,
            >(((instrs_view(t@), instrs_view(e@)), final(decoder).pos())),
            Err(err) => if_branches(old(decoder).data(), old(decoder).pos(), false) == Err::<
                ((Seq<InstrView>, Seq<InstrView>), int),
                WasmErrorView,
            >(err@),
        },
{
    let mut then_branch: Vec<Instruction> = Vec::new();
    let mut else_branch: Vec<Instruction> = Vec::new();
    let mut in_else = false;
    let mut block_stack: Vec<(u8, BlockType, Vec<Instruction>)> = Vec::new();
    let ghost s = decoder.data();
    let ghost p0 = decoder.pos();
    proof {
        assert(open_blocks(block_stack@) =~= Seq::<OpenBlock>::empty());
        assert(instrs_view(then_branch@) =~= Seq::<InstrView>::empty());
        assert(instrs_view(else_branch@) =~= Seq::<InstrView>::empty());
        if let Ok(((t2, e2), q)) = if_branches(s, p0, false) {
            assert(Seq::<InstrView>::empty() + t2 =~= t2);
            assert(Seq::<InstrView>::empty() + e2 =~= e2);
        }
    }
    loop
        invariant
            decoder.wf(),
            decoder.data() == s,
            s == old(decoder).data(),
            p0 == old(decoder).pos(),
            p0 <= decoder.pos(),
            if_branches(s, p0, false) == resume_if_branches(
                s,
                decoder.pos(),
                open_blocks(block_stack@),
                instrs_view(then_branch@),
                instrs_view(else_branch@),
                in_else,
            ),
        decreases s.len() - decoder.pos(),
    {
        let ghost p = decoder.pos();
        let ghost frames = open_blocks(block_stack@);
        let ghost t = instrs_view(then_branch@);
        let ghost e = instrs_view(else_branch@);
        match decoder.peek() {
            None => {
                proof {
                    lemma_if_branches_eof(s, p, frames, t, e, in_else);
                }
                return Err(WasmError::UnexpectedEof);
            },
            Some(b) => {
                if b == 0x0b && block_stack.len() == 0 {
                    decoder.read_u8()?;
                    proof {
                        lemma_if_branches_end(s, p, t, e, in_else);
                    }
                    return Ok((then_branch, else_branch));
                } else if b == 0x05 && block_stack.len() == 0 {
                    decoder.read_u8()?;
                    proof {
                        lemma_if_branches_else(s, p, t, e, in_else);
                    }
                    in_else = true;
                } else if b == 0x02 || b == 0x03 || b == 0x04 {
                    let (opcode, block_type) = match read_block_header(decoder) {
                        Ok(h) => h,
                        Err(err) => {
                            proof {
                                lemma_if_branches_open_err(s, p, frames, t, e, in_else, err@);
                            }
                            return Err(err);
                        },
                    };
                    let ghost q = decoder.pos();
                    proof {
                        if frames.len() == 0 {
                            lemma_if_branches_open(s, p, t, e, in_else, block_type, q);
                            assert(frames.push((b, block_type, Seq::<InstrView>::empty())) =~= seq![
                                (b, block_type, Seq::<InstrView>::empty()),
                            ]);
                        } else {
                            lemma_close_open(s, p, frames, false, block_type, q);
                        }
                    }
                    block_stack.push((opcode, block_type, Vec::new()));
                    proof {
                        assert(open_blocks(block_stack@) =~= frames.push((b, block_type, Seq::<InstrView>::empty())));
                    }
                } else if b == 0x0b {
                    decoder.read_u8()?;
                    proof {
                        lemma_close_end(s, p, frames, false);
                    }
                    let ghost last = block_stack@.last();
                    let (opcode, block_type, body) = block_stack.pop().unwrap();
                    let instr = make_block(opcode, block_type, body);
                    proof {
                        assert(open_blocks(block_stack@) =~= frames.drop_last());
                        assert(frames.last() == (last.0, last.1, instrs_view(last.2@)));
                        assert(instr@ == mk_block(frames.last().0, frames.last().1, frames.last().2));
                    }
                    if block_stack.len() == 0 {
                        if in_else {
                            push_instr(&mut else_branch, instr);
                        } else {
                            push_instr(&mut then_branch, instr);
                        }
                    } else {
                        add_to_innermost_block(&mut block_stack, instr);
                    }
                } else {
                    let instr = match decode_regular_instruction(decoder) {
                        Ok(i) => i,
                        Err(err) => {
                            proof {
                                lemma_if_branches_regular_err(s, p, frames, t, e, in_else, err@);
                            }
                            return Err(err);
                        },
                    };
                    let ghost q = decoder.pos();
                    proof {
                        if frames.len() == 0 {
                            lemma_if_branches_regular(s, p, t, e, in_else, instr@, q);
                        } else {
                            lemma_close_regular(s, p, frames, false, instr@, q);
                        }
                    }
                    if block_stack.len() == 0 {
                        if in_else {
                            push_instr(&mut else_branch, instr);
                        } else {
                            push_instr(&mut then_branch, instr);
                        }
                    } else {
                        add_to_innermost_block(&mut block_stack, instr);
                    }
                }
            },
        }
    }
}

/// Instructions up to the end opcode 0x0b, which is read, or up to an else
/// opcode 0x05 directly among them, which is not, or up to the position
/// `end` where there is one, whichever comes first; the position is checked
/// only between instructions read directly.
#[verifier::opaque]
pub open spec fn until_end(s: Seq<u8>, p: int, end: Option<usize>) -> SpecResult<Seq<InstrView>>
    decreases s.len() - p,
{
    if end matches Some(e) && p >= e {
        Ok((Seq::empty(), p))
    } else if !(0 <= p < s.len()) {
        Err(WasmErrorView::UnexpectedEof)
    } else if s[p] == 0x0b {
        Ok((Seq::empty(), p + 1))
    } else if is_block_opcode(s[p]) {
        match sp_block_type(s, p + 1) {
            Ok((bt, q)) => if advanced(s, p, q) {
                match nested_body(s, q, false) {
                    Ok((body, r)) => if advanced(s, p, r) {
                        prepend(seq![mk_block(s[p], bt, body)], until_end(s, r, end))
                    } else {
                        Err(WasmErrorView::UnexpectedEof)
                    },
                    Err(e) => Err(e),
                }
            } else {
                Err(WasmErrorView::UnexpectedEof)
            },
            Err(e) => Err(e),
        }
    } else if s[p] == 0x05 {
        Ok((Seq::empty(), p))
    } else {
        match sp_nonblock(s, p + 1, s[p]) {
            Ok((i, q)) => if advanced(s, p, q) {
                prepend(seq![i], until_end(s, q, end))
            } else {
                Err(WasmErrorView::UnexpectedEof)
            },
            Err(e) => Err(e),
        }
    }
}

/// What reading instructions from `p` gives, where `frames` are the blocks
/// opened among them and `acc` the instructions read directly so far.
pub open spec fn resume_until_end(
    s: Seq<u8>,
    p: int,
    frames: Seq<OpenBlock>,
    acc: Seq<InstrView>,
    end: Option<usize>,
) -> SpecResult<Seq<InstrView>> {
    if frames.len() == 0 {
        prepend(acc, until_end(s, p, end))
    } else {
        match close_blocks(s, p, frames, false) {
            Ok((item, q)) => prepend(acc.push(item), until_end(s, q, end)),
            Err(e) => Err(e),
        }
    }
}

proof fn lemma_until_end_stop(s: Seq<u8>, p: int, acc: Seq<InstrView>, end: Option<usize>)
    requires
        (end matches Some(e) && p >= e) || (0 <= p < s.len() && s[p] == 0x05 && !(end matches Some(e)
            && p >= e)),
    ensures
        prepend(acc, until_end(s, p, end)) == Ok::<(Seq<InstrView>, int), WasmErrorView>((acc, p)),
{
    reveal(until_end);
    assert(acc + Seq::<InstrView>::empty() =~= acc);
}

proof fn lemma_until_end_end(s: Seq<u8>, p: int, acc: Seq<InstrView>, end: Option<usize>)
    requires
        !(end matches Some(e) && p >= e),
        0 <= p < s.len(),
        s[p] == 0x0b,
    ensures
        prepend(acc, until_end(s, p, end)) == Ok::<(Seq<InstrView>, int), WasmErrorView>((acc, p + 1)),
{
    reveal(until_end);
    assert(acc + Seq::<InstrView>::empty() =~= acc);
}

proof fn lemma_until_end_eof(s: Seq<u8>, p: int, frames: Seq<OpenBlock>, acc: Seq<InstrView>, end: Option<usize>)
    requires
        !(0 <= p < s.len()),
        frames.len() == 0 ==> !(end matches Some(e) && p >= e),
    ensures
        resume_until_end(s, p, frames, acc, end) == Err::<(Seq<InstrView>, int), WasmErrorView>(
            WasmErrorView::UnexpectedEof,
        ),
{
    reveal(nested_body);
    reveal(close_blocks);
    reveal(until_end);
}

proof fn lemma_until_end_open(s: Seq<u8>, p: int, acc: Seq<InstrView>, end: Option<usize>, bt: BlockType, q: int)
    requires
        !(end matches Some(e) && p >= e),
        0 <= p < s.len(),
        is_block_opcode(s[p]),
        sp_block_type(s, p + 1) == Ok::<(BlockType, int), WasmErrorView>((bt, q)),
        advanced(s, p, q),
    ensures
        prepend(acc, until_end(s, p, end)) == resume_until_end(
            s,
            q,
            seq![(s[p], bt, Seq::<InstrView>::empty())],
            acc,
            end,
        ),
{
    reveal(nested_body);
    reveal(close_blocks);
    reveal(until_end);
    lemma_nested_advances(s, q, false);
    if let Ok((body, r)) = nested_body(s, q, false) {
        assert(Seq::<InstrView>::empty() + body =~= body);
        lemma_prepend_push_item(acc, mk_block(s[p], bt, body), until_end(s, r, end));
    }
}

proof fn lemma_until_end_open_err(
    s: Seq<u8>,
    p: int,
    frames: Seq<OpenBlock>,
    acc: Seq<InstrView>,
    end: Option<usize>,
    err: WasmErrorView,
)
    requires
        frames.len() == 0 ==> !(end matches Some(e) && p >= e),
        0 <= p < s.len(),
        is_block_opcode(s[p]),
        sp_block_type(s, p + 1) == Err::<(BlockType, int), WasmErrorView>(err),
    ensures
        resume_until_end(s, p, frames, acc, end) == Err::<(Seq<InstrView>, int), WasmErrorView>(err),
{
    reveal(nested_body);
    reveal(close_blocks);
    reveal(until_end);
}

proof fn lemma_until_end_regular(s: Seq<u8>, p: int, acc: Seq<InstrView>, end: Option<usize>, i: InstrView, q: int)
    requires
        !(end matches Some(e) && p >= e),
        0 <= p < s.len(),
        s[p] != 0x0b,
        s[p] != 0x05,
        !is_block_opcode(s[p]),
        sp_nonblock(s, p + 1, s[p]) == Ok::<(InstrView, int), WasmErrorView>((i, q)),
        advanced(s, p, q),
    ensures
        prepend(acc, until_end(s, p, end)) == prepend(acc.push(i), until_end(s, q, end)),
{
    reveal(until_end);
    lemma_prepend_push_item(acc, i, until_end(s, q, end));
}

proof fn lemma_until_end_regular_err(
    s: Seq<u8>,
    p: int,
    frames: Seq<OpenBlock>,
    acc: Seq<InstrView>,
    end: Option<usize>,
    err: WasmErrorView,
)
    requires
        frames.len() == 0 ==> !(end matches Some(e) && p >= e),
        0 <= p < s.len(),
        s[p] != 0x0b,
        !is_block_opcode(s[p]),
        !(s[p] == 0x05 && frames.len() == 0),
        sp_nonblock(s, p + 1, s[p]) == Err::<(InstrView, int), WasmErrorView>(err),
    ensures
        resume_until_end(s, p, frames, acc, end) == Err::<(Seq<InstrView>, int), WasmErrorView>(err),
{
    reveal(nested_body);
    reveal(close_blocks);
    reveal(until_end);
}

/// Decode instructions up to the end opcode, an else opcode, or the
/// position `end_pos` where there is one, with an explicit stack of the
/// blocks opened among them.
#[verifier::spinoff_prover]
#[verifier::rlimit(100)]
pub fn decode_instructions_until_end_bounded(decoder: &mut Decoder, end_pos: Option<usize>) -> (r: Result<
    Vec<Instruction>,
    WasmError,
>)
    requires
        old(decoder).wf(),
    ensures
        moved_on(*old(decoder), *final(decoder)),
        outcome_instrs(r, final(decoder).pos()) == until_end(old(decoder).data(), old(decoder).pos(), end_pos),
{
    let mut instructions: Vec<Instruction> = Vec::new();
    let mut block_stack: Vec<(u8, BlockType, Vec<Instruction>)> = Vec::new();
    let ghost s = decoder.data();
    let ghost p0 = decoder.pos();
    proof {
        assert(open_blocks(block_stack@) =~= Seq::<OpenBlock>::empty());
        assert(instrs_view(instructions@) =~= Seq::<InstrView>::empty());
        if let Ok((xs, q)) = until_end(s, p0, end_pos) {
            assert(Seq::<InstrView>::empty() + xs =~= xs);
        }
    }
    loop
        invariant
            decoder.wf(),
            decoder.data() == s,
            s == old(decoder).data(),
            p0 == old(decoder).pos(),
            p0 <= decoder.pos(),
            until_end(s, p0, end_pos) == resume_until_end(
                s,
                decoder.pos(),
                open_blocks(block_stack@),
                instrs_view(instructions@),
                end_pos,
            ),
        decreases s.len() - decoder.pos(),
    {
        let ghost p = decoder.pos();
        let ghost frames = open_blocks(block_stack@);
        let ghost acc = instrs_view(instructions@);
        // The boundary is checked only between instructions read directly.
        if block_stack.len() == 0 {
            if let Some(end) = end_pos {
                if decoder.position() >= end {
                    proof {
                        lemma_until_end_stop(s, p, acc, end_pos);
                    }
                    return Ok(instructions);
                }
            }
        }
        match decoder.peek() {
            None => {
                proof {
                    lemma_until_end_eof(s, p, frames, acc, end_pos);
                }
                return Err(WasmError::UnexpectedEof);
            },
            Some(b) => {
                if b == 0x0b && block_stack.len() == 0 {
                    decoder.read_u8()?;
                    proof {
                        lemma_until_end_end(s, p, acc, end_pos);
                    }
                    return Ok(instructions);
                } else if b == 0x02 || b == 0x03 || b == 0x04 {
                    let (opcode, block_type) = match read_block_header(decoder) {
                        Ok(h) => h,
                        Err(err) => {
                            proof {
                                lemma_until_end_open_err(s, p, frames, acc, end_pos, err@);
                            }
                            return Err(err);
                        },
                    };
                    let ghost q = decoder.pos();
                    proof {
                        if frames.len() == 0 {
                            lemma_until_end_open(s, p, acc, end_pos, block_type, q);
                            assert(frames.push((b, block_type, Seq::<InstrView>::empty())) =~= seq![
                                (b, block_type, Seq::<InstrView>::empty()),
                            ]);
                        } else {
                            lemma_close_open(s, p, frames, false, block_type, q);
                        }
                    }
                    block_stack.push((opcode, block_type, Vec::new()));
                    proof {
                        assert(open_blocks(block_stack@) =~= frames.push((b, block_type, Seq::<InstrView>::empty())));
                    }
                } else if b == 0x0b {
                    decoder.read_u8()?;
                    proof {
                        lemma_close_end(s, p, frames, false);
                    }
                    let ghost last = block_stack@.last();
                    let (opcode, block_type, body) = block_stack.pop().unwrap();
                    let instr = make_block(opcode, block_type, body);
                    proof {
                        assert(open_blocks(block_stack@) =~= frames.drop_last());
                        assert(frames.last() == (last.0, last.1, instrs_view(last.2@)));
                        assert(instr@ == mk_block(frames.last().0, frames.last().1, frames.last().2));
                    }
                    if block_stack.len() == 0 {
                        push_instr(&mut instructions, instr);
                    } else {
                        add_to_innermost_block(&mut block_stack, instr);
                    }
                } else if b == 0x05 && block_stack.len() == 0 {
                    proof {
                        lemma_until_end_stop(s, p, acc, end_pos);
                    }
                    return Ok(instructions);
                } else {
                    let instr = match decode_regular_instruction(decoder) {
                        Ok(i) => i,
                        Err(err) => {
                            proof {
                                lemma_until_end_regular_err(s, p, frames, acc, end_pos, err@);
                            }
                            return Err(err);
                        },
                    };
                    let ghost q = decoder.pos();
                    proof {
                        if frames.len() == 0 {
                            lemma_until_end_regular(s, p, acc, end_pos, instr@, q);
                        } else {
                            lemma_close_regular(s, p, frames, false, instr@, q);
                        }
                    }
                    if block_stack.len() == 0 {
                        push_instr(&mut instructions, instr);
                    } else {
                        add_to_innermost_block(&mut block_stack, instr);
                    }
                }
            },
        }
    }
}

/// An instruction whose opcode `op` has been read: a block or loop with its
/// body, an `if` with its branches, or an instruction holding no block.
pub open spec fn sp_instruction_after(s: Seq<u8>, p: int, op: u8) -> SpecResult<InstrView> {
    if op == 0x02 || op == 0x03 {
        match sp_block_type(s, p) {
            Ok((bt, q)) => match block_body(s, q) {
                Ok((body, r)) => Ok(
                    (
                        if op == 0x02 {
                            InstrView::Block { block_type: bt, body }
                        } else {
                            InstrView::Loop { block_type: bt, body }
                        },
                        r,
                    ),
                ),
                Err(e) => Err(e),
            },
            Err(e) => Err(e),
        }
    } else if op == 0x04 {
        match sp_block_type(s, p) {
            Ok((bt, q)) => match if_branches(s, q, false) {
                Ok(((t, e), r)) => Ok((InstrView::If { block_type: bt, then_branch: t, else_branch: e }, r)),
                Err(e) => Err(e),
            },
            Err(e) => Err(e),
        }
    } else {
        sp_nonblock(s, p, op)
    }
}

/// One instruction from `p`, refused with an end of input where `p` has
/// reached the position `end` where there is one.
pub open spec fn sp_single_instruction(s: Seq<u8>, p: int, end: Option<usize>) -> SpecResult<InstrView> {
    if end matches Some(e) && p >= e {
        Err(WasmErrorView::UnexpectedEof)
    } else {
        match sp_u8(s, p) {
            Ok((op, q)) => sp_instruction_after(s, q, op),
            Err(e) => Err(e),
        }
    }
}

/// Decode the instruction that an opcode begins, the opcode having been read.
fn decode_instruction_with_opcode_and_end(decoder: &mut Decoder, opcode: u8, _end: Option<usize>) -> (r: Result<
    Instruction,
    WasmError,
>)
    requires
        old(decoder).wf(),
    ensures
        moved_on(*old(decoder), *final(decoder)),
        instr_outcome(r, final(decoder).pos()) == sp_instruction_after(old(decoder).data(), old(decoder).pos(), opcode),
{
    match opcode {
        0x02 => {
            let block_type = BlockType::from_i64(decoder.read_i32_leb128()? as i64)?;
            let body = decode_block_body_iterative(decoder)?;
            Ok(Instruction::Block { block_type, body })
        },
        0x03 => {
            let block_type = BlockType::from_i64(decoder.read_i32_leb128()? as i64)?;
            let body = decode_block_body_iterative(decoder)?;
            Ok(Instruction::Loop { block_type, body })
        },
        0x04 => {
            let block_type = BlockType::from_i64(decoder.read_i32_leb128()? as i64)?;
            let (then_branch, else_branch) = decode_if_branches_iterative(decoder)?;
            Ok(Instruction::If { block_type, then_branch, else_branch })
        },
        _ => decode_non_block_instruction(decoder, opcode),
    }
}

/// Decode one instruction, refusing to read at or after the position `end`
/// where there is one.
pub fn decode_single_instruction_with_end(decoder: &mut Decoder, end: Option<usize>) -> (r: Result<
    Instruction,
    WasmError,
>)
    requires
        old(decoder).wf(),
    ensures
        moved_on(*old(decoder), *final(decoder)),
        instr_outcome(r, final(decoder).pos()) == sp_single_instruction(old(decoder).data(), old(decoder).pos(), end),
{
    if let Some(end_pos) = end {
        if decoder.position() >= end_pos {
            return Err(WasmError::UnexpectedEof);
        }
    }
    let opcode = decoder.read_u8()?;
    decode_instruction_with_opcode_and_end(decoder, opcode, end)
}

/// Decode one instruction.
pub fn decode_single_instruction(decoder: &mut Decoder) -> (r: Result<Instruction, WasmError>)
    requires
        old(decoder).wf(),
    ensures
        moved_on(*old(decoder), *final(decoder)),
        instr_outcome(r, final(decoder).pos()) == sp_single_instruction(old(decoder).data(), old(decoder).pos(), None),
{
    decode_single_instruction_with_end(decoder, None)
}

/// Decode instructions up to the end opcode, which is read, or up to an
/// else opcode, which is not.
pub fn decode_instructions_until_end(decoder: &mut Decoder) -> (r: Result<Vec<Instruction>, WasmError>)
    requires
        old(decoder).wf(),
    ensures
        moved_on(*old(decoder), *final(decoder)),
        outcome_instrs(r, final(decoder).pos()) == until_end(old(decoder).data(), old(decoder).pos(), None),
{
    decode_instructions_until_end_bounded(decoder, None)
}

/// Decode instructions up to the end of a function body.
pub fn decode_instructions(decoder: &mut Decoder) -> (r: Result<Vec<Instruction>, WasmError>)
    requires
        old(decoder).wf(),
    ensures
        moved_on(*old(decoder), *final(decoder)),
        outcome_instrs(r, final(decoder).pos()) == until_end(old(decoder).data(), old(decoder).pos(), None),
{
    decode_instructions_until_end(decoder)
}

/// Decode instructions up to a known end position (or an end or else
/// opcode before it).
pub fn decode_instructions_bounded(decoder: &mut Decoder, end_pos: usize) -> (r: Result<Vec<Instruction>, WasmError>)
    requires
        old(decoder).wf(),
    ensures
        moved_on(*old(decoder), *final(decoder)),
        outcome_instrs(r, final(decoder).pos()) == until_end(old(decoder).data(), old(decoder).pos(), Some(end_pos)),
{
    decode_instructions_until_end_bounded(decoder, Some(end_pos))
}

} // verus!
