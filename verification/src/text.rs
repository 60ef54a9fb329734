//! Text of numbers and of instructions, as the messages of errors write
//! them.

use vstd::prelude::*;
use crate::instruction::{Instruction, InstrView};
use crate::types::ValueType;

verus! {

/// The character of a decimal digit.
pub open spec fn digit_char(d: nat) -> char {
    (48 + d) as char
}

/// A number in decimal, most significant digit first, with no leading zero.
pub open spec fn decimal(n: nat) -> Seq<char>
    decreases n,
{
    if n < 10 {
        seq![digit_char(n)]
    } else {
        decimal(n / 10).push(digit_char(n % 10))
    }
}

/// The text of a decimal digit.
fn digit_str(d: u64) -> (r: &'static str)
    requires
        d < 10,
    ensures
        r@ == seq![digit_char(d as nat)],
{
    proof {
        reveal_strlit("0");
        reveal_strlit("1");
        reveal_strlit("2");
        reveal_strlit("3");
        reveal_strlit("4");
        reveal_strlit("5");
        reveal_strlit("6");
        reveal_strlit("7");
        reveal_strlit("8");
        reveal_strlit("9");
    }
    if d == 0 {
        "0"
    } else if d == 1 {
        "1"
    } else if d == 2 {
        "2"
    } else if d == 3 {
        "3"
    } else if d == 4 {
        "4"
    } else if d == 5 {
        "5"
    } else if d == 6 {
        "6"
    } else if d == 7 {
        "7"
    } else if d == 8 {
        "8"
    } else {
        "9"
    }
}

/// Append a number in decimal.
pub fn append_decimal(out: &mut String, n: u64)
    ensures
        final(out)@ == old(out)@ + decimal(n as nat),
    decreases n,
{
    if n >= 10 {
        append_decimal(out, n / 10);
    }
    out.append(digit_str(n % 10));
    proof {
        if n >= 10 {
            assert(old(out)@ + decimal((n / 10) as nat) + seq![digit_char((n % 10) as nat)] =~= old(out)@ + decimal(
                n as nat,
            ));
        } else {
            assert(old(out)@ + seq![digit_char(n as nat)] =~= old(out)@ + decimal(n as nat));
        }
    }
}

/// The name of a value type, as `Debug` writes it.
pub open spec fn value_type_name(t: ValueType) -> Seq<char> {
    match t {
        ValueType::I32 => "I32"@,
        ValueType::I64 => "I64"@,
        ValueType::F32 => "F32"@,
        ValueType::F64 => "F64"@,
        ValueType::V128 => "V128"@,
        ValueType::FuncRef => "FuncRef"@,
        ValueType::ExternRef => "ExternRef"@,
    }
}

/// Value types separated by ", ", as `Debug` writes the items of a list.
pub open spec fn value_types_text(ts: Seq<ValueType>) -> Seq<char>
    decreases ts.len(),
{
    if ts.len() == 0 {
        Seq::empty()
    } else if ts.len() == 1 {
        value_type_name(ts[0])
    } else {
        value_types_text(ts.drop_last()) + ", "@ + value_type_name(ts.last())
    }
}

/// The text that the derived `Debug` writes for an instruction that has no
/// encoding: one holding no others without bytes of its own, or a typed
/// select. The encoder stops only at these; the text is left empty for the
/// others.
#[verifier::opaque]
pub open spec fn unencoded_text(i: InstrView) -> Seq<char> {
    match i {
        InstrView::Leaf(x) => match x {
            Instruction::Else => "Else"@,
            Instruction::ReturnCall { function_idx } => "ReturnCall { function_idx: "@ + decimal(function_idx as nat) + " }"@,
            Instruction::ReturnCallIndirect { type_idx, table_idx } => "ReturnCallIndirect { type_idx: "@ + decimal(type_idx as nat) + ", table_idx: "@ + decimal(table_idx as nat) + " }"@,
            Instruction::CallRef { type_idx } => "CallRef { type_idx: "@ + decimal(type_idx as nat) + " }"@,
            Instruction::ReturnCallRef { type_idx } => "ReturnCallRef { type_idx: "@ + decimal(type_idx as nat) + " }"@,
            Instruction::I32Load8S { mem_arg } => "I32Load8S { mem_arg: MemArg { align: "@ + decimal(mem_arg.align as nat) + ", offset: "@ + decimal(
                mem_arg.offset as nat,
            ) + " } }"@,
            Instruction::I32Load8U { mem_arg } => "I32Load8U { mem_arg: MemArg { align: "@ + decimal(mem_arg.align as nat) + ", offset: "@ + decimal(
                mem_arg.offset as nat,
            ) + " } }"@,
            Instruction::I32Load16S { mem_arg } => "I32Load16S { mem_arg: MemArg { align: "@ + decimal(mem_arg.align as nat) + ", offset: "@ + decimal(
                mem_arg.offset as nat,
            ) + " } }"@,
            Instruction::I32Load16U { mem_arg } => "I32Load16U { mem_arg: MemArg { align: "@ + decimal(mem_arg.align as nat) + ", offset: "@ + decimal(
                mem_arg.offset as nat,
            ) + " } }"@,
            Instruction::I64Load8S { mem_arg } => "I64Load8S { mem_arg: MemArg { align: "@ + decimal(mem_arg.align as nat) + ", offset: "@ + decimal(
                mem_arg.offset as nat,
            ) + " } }"@,
            Instruction::I64Load8U { mem_arg } => "I64Load8U { mem_arg: MemArg { align: "@ + decimal(mem_arg.align as nat) + ", offset: "@ + decimal(
                mem_arg.offset as nat,
            ) + " } }"@,
            Instruction::I64Load16S { mem_arg } => "I64Load16S { mem_arg: MemArg { align: "@ + decimal(mem_arg.align as nat) + ", offset: "@ + decimal(
                mem_arg.offset as nat,
            ) + " } }"@,
            Instruction::I64Load16U { mem_arg } => "I64Load16U { mem_arg: MemArg { align: "@ + decimal(mem_arg.align as nat) + ", offset: "@ + decimal(
                mem_arg.offset as nat,
            ) + " } }"@,
            Instruction::I64Load32S { mem_arg } => "I64Load32S { mem_arg: MemArg { align: "@ + decimal(mem_arg.align as nat) + ", offset: "@ + decimal(
                mem_arg.offset as nat,
            ) + " } }"@,
            Instruction::I64Load32U { mem_arg } => "I64Load32U { mem_arg: MemArg { align: "@ + decimal(mem_arg.align as nat) + ", offset: "@ + decimal(
                mem_arg.offset as nat,
            ) + " } }"@,
            Instruction::I32Store { mem_arg } => "I32Store { mem_arg: MemArg { align: "@ + decimal(mem_arg.align as nat) + ", offset: "@ + decimal(
                mem_arg.offset as nat,
            ) + " } }"@,
            Instruction::I64Store { mem_arg } => "I64Store { mem_arg: MemArg { align: "@ + decimal(mem_arg.align as nat) + ", offset: "@ + decimal(
                mem_arg.offset as nat,
            ) + " } }"@,
            Instruction::F32Store { mem_arg } => "F32Store { mem_arg: MemArg { align: "@ + decimal(mem_arg.align as nat) + ", offset: "@ + decimal(
                mem_arg.offset as nat,
            ) + " } }"@,
            Instruction::F64Store { mem_arg } => "F64Store { mem_arg: MemArg { align: "@ + decimal(mem_arg.align as nat) + ", offset: "@ + decimal(
                mem_arg.offset as nat,
            ) + " } }"@,
            Instruction::I32Store8 { mem_arg } => "I32Store8 { mem_arg: MemArg { align: "@ + decimal(mem_arg.align as nat) + ", offset: "@ + decimal(
                mem_arg.offset as nat,
            ) + " } }"@,
            Instruction::I32Store16 { mem_arg } => "I32Store16 { mem_arg: MemArg { align: "@ + decimal(mem_arg.align as nat) + ", offset: "@ + decimal(
                mem_arg.offset as nat,
            ) + " } }"@,
            Instruction::I64Store8 { mem_arg } => "I64Store8 { mem_arg: MemArg { align: "@ + decimal(mem_arg.align as nat) + ", offset: "@ + decimal(
                mem_arg.offset as nat,
            ) + " } }"@,
            Instruction::I64Store16 { mem_arg } => "I64Store16 { mem_arg: MemArg { align: "@ + decimal(mem_arg.align as nat) + ", offset: "@ + decimal(
                mem_arg.offset as nat,
            ) + " } }"@,
            Instruction::I64Store32 { mem_arg } => "I64Store32 { mem_arg: MemArg { align: "@ + decimal(mem_arg.align as nat) + ", offset: "@ + decimal(
                mem_arg.offset as nat,
            ) + " } }"@,
            Instruction::MemorySize { mem_idx } => "MemorySize { mem_idx: "@ + decimal(mem_idx as nat) + " }"@,
            Instruction::MemoryGrow { mem_idx } => "MemoryGrow { mem_idx: "@ + decimal(mem_idx as nat) + " }"@,
            Instruction::MemoryInit { data_idx, mem_idx } => "MemoryInit { data_idx: "@ + decimal(data_idx as nat) + ", mem_idx: "@ + decimal(mem_idx as nat) + " }"@,
            Instruction::DataDrop { data_idx } => "DataDrop { data_idx: "@ + decimal(data_idx as nat) + " }"@,
            Instruction::MemoryCopy { src_mem, dst_mem } => "MemoryCopy { src_mem: "@ + decimal(src_mem as nat) + ", dst_mem: "@ + decimal(dst_mem as nat) + " }"@,
            Instruction::MemoryFill { mem_idx } => "MemoryFill { mem_idx: "@ + decimal(mem_idx as nat) + " }"@,
            Instruction::I32LtS => "I32LtS"@,
            Instruction::I32LtU => "I32LtU"@,
            Instruction::I32GtS => "I32GtS"@,
            Instruction::I32GtU => "I32GtU"@,
            Instruction::I32LeS => "I32LeS"@,
            Instruction::I32LeU => "I32LeU"@,
            Instruction::I32GeS => "I32GeS"@,
            Instruction::I32GeU => "I32GeU"@,
            Instruction::I64Eqz => "I64Eqz"@,
            Instruction::I64Eq => "I64Eq"@,
            Instruction::I64Ne => "I64Ne"@,
            Instruction::I64LtS => "I64LtS"@,
            Instruction::I64LtU => "I64LtU"@,
            Instruction::I64GtS => "I64GtS"@,
            Instruction::I64GtU => "I64GtU"@,
            Instruction::I64LeS => "I64LeS"@,
            Instruction::I64LeU => "I64LeU"@,
            Instruction::I64GeS => "I64GeS"@,
            Instruction::I64GeU => "I64GeU"@,
            Instruction::F32Eq => "F32Eq"@,
            Instruction::F32Ne => "F32Ne"@,
            Instruction::F32Lt => "F32Lt"@,
            Instruction::F32Gt => "F32Gt"@,
            Instruction::F32Le => "F32Le"@,
            Instruction::F32Ge => "F32Ge"@,
            Instruction::F64Eq => "F64Eq"@,
            Instruction::F64Ne => "F64Ne"@,
            Instruction::F64Lt => "F64Lt"@,
            Instruction::F64Gt => "F64Gt"@,
            Instruction::F64Le => "F64Le"@,
            Instruction::F64Ge => "F64Ge"@,
            Instruction::I32Clz => "I32Clz"@,
            Instruction::I32Ctz => "I32Ctz"@,
            Instruction::I32Popcnt => "I32Popcnt"@,
            Instruction::I32RemS => "I32RemS"@,
            Instruction::I32RemU => "I32RemU"@,
            Instruction::I32And => "I32And"@,
            Instruction::I32Or => "I32Or"@,
            Instruction::I32Xor => "I32Xor"@,
            Instruction::I32Shl => "I32Shl"@,
            Instruction::I32ShrS => "I32ShrS"@,
            Instruction::I32ShrU => "I32ShrU"@,
            Instruction::I32Rotl => "I32Rotl"@,
            Instruction::I32Rotr => "I32Rotr"@,
            Instruction::I64Clz => "I64Clz"@,
            Instruction::I64Ctz => "I64Ctz"@,
            Instruction::I64Popcnt => "I64Popcnt"@,
            Instruction::I64DivS => "I64DivS"@,
            Instruction::I64DivU => "I64DivU"@,
            Instruction::I64RemS => "I64RemS"@,
            Instruction::I64RemU => "I64RemU"@,
            Instruction::I64And => "I64And"@,
            Instruction::I64Or => "I64Or"@,
            Instruction::I64Xor => "I64Xor"@,
            Instruction::I64Shl => "I64Shl"@,
            Instruction::I64ShrS => "I64ShrS"@,
            Instruction::I64ShrU => "I64ShrU"@,
            Instruction::I64Rotl => "I64Rotl"@,
            Instruction::I64Rotr => "I64Rotr"@,
            Instruction::F32Abs => "F32Abs"@,
            Instruction::F32Neg => "F32Neg"@,
            Instruction::F32Ceil => "F32Ceil"@,
            Instruction::F32Floor => "F32Floor"@,
            Instruction::F32Trunc => "F32Trunc"@,
            Instruction::F32Nearest => "F32Nearest"@,
            Instruction::F32Sqrt => "F32Sqrt"@,
            Instruction::F32Add => "F32Add"@,
            Instruction::F32Sub => "F32Sub"@,
            Instruction::F32Mul => "F32Mul"@,
            Instruction::F32Div => "F32Div"@,
            Instruction::F32Min => "F32Min"@,
            Instruction::F32Max => "F32Max"@,
            Instruction::F32Copysign => "F32Copysign"@,
            Instruction::F64Abs => "F64Abs"@,
            Instruction::F64Neg => "F64Neg"@,
            Instruction::F64Ceil => "F64Ceil"@,
            Instruction::F64Floor => "F64Floor"@,
            Instruction::F64Trunc => "F64Trunc"@,
            Instruction::F64Nearest => "F64Nearest"@,
            Instruction::F64Sqrt => "F64Sqrt"@,
            Instruction::F64Add => "F64Add"@,
            Instruction::F64Sub => "F64Sub"@,
            Instruction::F64Mul => "F64Mul"@,
            Instruction::F64Div => "F64Div"@,
            Instruction::F64Min => "F64Min"@,
            Instruction::F64Max => "F64Max"@,
            Instruction::F64Copysign => "F64Copysign"@,
            Instruction::I32TruncF32S => "I32TruncF32S"@,
            Instruction::I32TruncF32U => "I32TruncF32U"@,
            Instruction::I32TruncF64S => "I32TruncF64S"@,
            Instruction::I32TruncF64U => "I32TruncF64U"@,
            Instruction::I64TruncF32S => "I64TruncF32S"@,
            Instruction::I64TruncF32U => "I64TruncF32U"@,
            Instruction::I64TruncF64S => "I64TruncF64S"@,
            Instruction::I64TruncF64U => "I64TruncF64U"@,
            Instruction::F32ConvertI32S => "F32ConvertI32S"@,
            Instruction::F32ConvertI32U => "F32ConvertI32U"@,
            Instruction::F32ConvertI64S => "F32ConvertI64S"@,
            Instruction::F32ConvertI64U => "F32ConvertI64U"@,
            Instruction::F32DemoteF64 => "F32DemoteF64"@,
            Instruction::F64ConvertI32S => "F64ConvertI32S"@,
            Instruction::F64ConvertI32U => "F64ConvertI32U"@,
            Instruction::F64ConvertI64S => "F64ConvertI64S"@,
            Instruction::F64ConvertI64U => "F64ConvertI64U"@,
            Instruction::F64PromoteF32 => "F64PromoteF32"@,
            Instruction::I32ReinterpretF32 => "I32ReinterpretF32"@,
            Instruction::I64ReinterpretF64 => "I64ReinterpretF64"@,
            Instruction::F32ReinterpretI32 => "F32ReinterpretI32"@,
            Instruction::F64ReinterpretI64 => "F64ReinterpretI64"@,
            Instruction::I32Extend8S => "I32Extend8S"@,
            Instruction::I32Extend16S => "I32Extend16S"@,
            Instruction::I64Extend8S => "I64Extend8S"@,
            Instruction::I64Extend16S => "I64Extend16S"@,
            Instruction::I64Extend32S => "I64Extend32S"@,
            Instruction::I32TruncSatF32S => "I32TruncSatF32S"@,
            Instruction::I32TruncSatF32U => "I32TruncSatF32U"@,
            Instruction::I32TruncSatF64S => "I32TruncSatF64S"@,
            Instruction::I32TruncSatF64U => "I32TruncSatF64U"@,
            Instruction::I64TruncSatF32S => "I64TruncSatF32S"@,
            Instruction::I64TruncSatF32U => "I64TruncSatF32U"@,
            Instruction::I64TruncSatF64S => "I64TruncSatF64S"@,
            Instruction::I64TruncSatF64U => "I64TruncSatF64U"@,
            _ => Seq::empty(),
        },
        InstrView::SelectTyped { results } => "SelectTyped { results: ["@ + value_types_text(results) + "] }"@,
        _ => Seq::empty(),
    }
}

/// Text, then a number in decimal, then text.
fn one_number_text(open: &str, n: u64, close: &str) -> (r: String)
    ensures
        r@ == open@ + decimal(n as nat) + close@,
{
    let mut r = String::from_str(open);
    append_decimal(&mut r, n);
    r.append(close);
    r
}

/// Text, a number, text, a number, text.
fn two_numbers_text(open: &str, a: u64, mid: &str, b: u64, close: &str) -> (r: String)
    ensures
        r@ == open@ + decimal(a as nat) + mid@ + decimal(b as nat) + close@,
{
    let mut r = String::from_str(open);
    append_decimal(&mut r, a);
    r.append(mid);
    append_decimal(&mut r, b);
    r.append(close);
    r
}

/// The name of a value type.
fn value_type_name_text(t: ValueType) -> (r: &'static str)
    ensures
        r@ == value_type_name(t),
{
    match t {
        ValueType::I32 => "I32",
        ValueType::I64 => "I64",
        ValueType::F32 => "F32",
        ValueType::F64 => "F64",
        ValueType::V128 => "V128",
        ValueType::FuncRef => "FuncRef",
        ValueType::ExternRef => "ExternRef",
    }
}

/// Append value types separated by ", ".
fn append_value_types(out: &mut String, ts: &Vec<ValueType>)
    ensures
        final(out)@ == old(out)@ + value_types_text(ts@),
{
    let mut k: usize = 0;
    while k < ts.len()
        invariant
            k <= ts@.len(),
            out@ == old(out)@ + value_types_text(ts@.subrange(0, k as int)),
        decreases ts@.len() - k,
    {
        let ghost before = out@;
        if k > 0 {
            out.append(", ");
        }
        out.append(value_type_name_text(ts[k]));
        proof {
            let t = ts@.subrange(0, k as int + 1);
            assert(t.drop_last() =~= ts@.subrange(0, k as int));
            if k == 0 {
                assert(ts@.subrange(0, 0) =~= Seq::<ValueType>::empty());
                assert(out@ =~= old(out)@ + value_types_text(t));
            } else {
                assert(out@ =~= old(out)@ + value_types_text(t));
            }
        }
        k += 1;
    }
    proof {
        assert(ts@.subrange(0, k as int) =~= ts@);
    }
}

/// The text that the derived `Debug` writes for an instruction that has no
/// encoding; empty for the others.
pub fn unencoded_instruction_text(instr: &Instruction) -> (r: String)
    ensures
        r@ == unencoded_text(instr@),
{
    reveal(unencoded_text);
    match instr {
        Instruction::Else => String::from_str("Else"),
        Instruction::ReturnCall { function_idx } => one_number_text("ReturnCall { function_idx: ", *function_idx as u64, " }"),
        Instruction::ReturnCallIndirect { type_idx, table_idx } => two_numbers_text("ReturnCallIndirect { type_idx: ", *type_idx as u64, ", table_idx: ", *table_idx as u64, " }"),
        Instruction::CallRef { type_idx } => one_number_text("CallRef { type_idx: ", *type_idx as u64, " }"),
        Instruction::ReturnCallRef { type_idx } => one_number_text("ReturnCallRef { type_idx: ", *type_idx as u64, " }"),
        Instruction::I32Load8S { mem_arg } => two_numbers_text("I32Load8S { mem_arg: MemArg { align: ", mem_arg.align as u64, ", offset: ", mem_arg.offset as u64, " } }"),
        Instruction::I32Load8U { mem_arg } => two_numbers_text("I32Load8U { mem_arg: MemArg { align: ", mem_arg.align as u64, ", offset: ", mem_arg.offset as u64, " } }"),
        Instruction::I32Load16S { mem_arg } => two_numbers_text("I32Load16S { mem_arg: MemArg { align: ", mem_arg.align as u64, ", offset: ", mem_arg.offset as u64, " } }"),
        Instruction::I32Load16U { mem_arg } => two_numbers_text("I32Load16U { mem_arg: MemArg { align: ", mem_arg.align as u64, ", offset: ", mem_arg.offset as u64, " } }"),
        Instruction::I64Load8S { mem_arg } => two_numbers_text("I64Load8S { mem_arg: MemArg { align: ", mem_arg.align as u64, ", offset: ", mem_arg.offset as u64, " } }"),
        Instruction::I64Load8U { mem_arg } => two_numbers_text("I64Load8U { mem_arg: MemArg { align: ", mem_arg.align as u64, ", offset: ", mem_arg.offset as u64, " } }"),
        Instruction::I64Load16S { mem_arg } => two_numbers_text("I64Load16S { mem_arg: MemArg { align: ", mem_arg.align as u64, ", offset: ", mem_arg.offset as u64, " } }"),
        Instruction::I64Load16U { mem_arg } => two_numbers_text("I64Load16U { mem_arg: MemArg { align: ", mem_arg.align as u64, ", offset: ", mem_arg.offset as u64, " } }"),
        Instruction::I64Load32S { mem_arg } => two_numbers_text("I64Load32S { mem_arg: MemArg { align: ", mem_arg.align as u64, ", offset: ", mem_arg.offset as u64, " } }"),
        Instruction::I64Load32U { mem_arg } => two_numbers_text("I64Load32U { mem_arg: MemArg { align: ", mem_arg.align as u64, ", offset: ", mem_arg.offset as u64, " } }"),
        Instruction::I32Store { mem_arg } => two_numbers_text("I32Store { mem_arg: MemArg { align: ", mem_arg.align as u64, ", offset: ", mem_arg.offset as u64, " } }"),
        Instruction::I64Store { mem_arg } => two_numbers_text("I64Store { mem_arg: MemArg { align: ", mem_arg.align as u64, ", offset: ", mem_arg.offset as u64, " } }"),
        Instruction::F32Store { mem_arg } => two_numbers_text("F32Store { mem_arg: MemArg { align: ", mem_arg.align as u64, ", offset: ", mem_arg.offset as u64, " } }"),
        Instruction::F64Store { mem_arg } => two_numbers_text("F64Store { mem_arg: MemArg { align: ", mem_arg.align as u64, ", offset: ", mem_arg.offset as u64, " } }"),
        Instruction::I32Store8 { mem_arg } => two_numbers_text("I32Store8 { mem_arg: MemArg { align: ", mem_arg.align as u64, ", offset: ", mem_arg.offset as u64, " } }"),
        Instruction::I32Store16 { mem_arg } => two_numbers_text("I32Store16 { mem_arg: MemArg { align: ", mem_arg.align as u64, ", offset: ", mem_arg.offset as u64, " } }"),
        Instruction::I64Store8 { mem_arg } => two_numbers_text("I64Store8 { mem_arg: MemArg { align: ", mem_arg.align as u64, ", offset: ", mem_arg.offset as u64, " } }"),
        Instruction::I64Store16 { mem_arg } => two_numbers_text("I64Store16 { mem_arg: MemArg { align: ", mem_arg.align as u64, ", offset: ", mem_arg.offset as u64, " } }"),
        Instruction::I64Store32 { mem_arg } => two_numbers_text("I64Store32 { mem_arg: MemArg { align: ", mem_arg.align as u64, ", offset: ", mem_arg.offset as u64, " } }"),
        Instruction::MemorySize { mem_idx } => one_number_text("MemorySize { mem_idx: ", *mem_idx as u64, " }"),
        Instruction::MemoryGrow { mem_idx } => one_number_text("MemoryGrow { mem_idx: ", *mem_idx as u64, " }"),
        Instruction::MemoryInit { data_idx, mem_idx } => two_numbers_text("MemoryInit { data_idx: ", *data_idx as u64, ", mem_idx: ", *mem_idx as u64, " }"),
        Instruction::DataDrop { data_idx } => one_number_text("DataDrop { data_idx: ", *data_idx as u64, " }"),
        Instruction::MemoryCopy { src_mem, dst_mem } => two_numbers_text("MemoryCopy { src_mem: ", *src_mem as u64, ", dst_mem: ", *dst_mem as u64, " }"),
        Instruction::MemoryFill { mem_idx } => one_number_text("MemoryFill { mem_idx: ", *mem_idx as u64, " }"),
        Instruction::I32LtS => String::from_str("I32LtS"),
        Instruction::I32LtU => String::from_str("I32LtU"),
        Instruction::I32GtS => String::from_str("I32GtS"),
        Instruction::I32GtU => String::from_str("I32GtU"),
        Instruction::I32LeS => String::from_str("I32LeS"),
        Instruction::I32LeU => String::from_str("I32LeU"),
        Instruction::I32GeS => String::from_str("I32GeS"),
        Instruction::I32GeU => String::from_str("I32GeU"),
        Instruction::I64Eqz => String::from_str("I64Eqz"),
        Instruction::I64Eq => String::from_str("I64Eq"),
        Instruction::I64Ne => String::from_str("I64Ne"),
        Instruction::I64LtS => String::from_str("I64LtS"),
        Instruction::I64LtU => String::from_str("I64LtU"),
        Instruction::I64GtS => String::from_str("I64GtS"),
        Instruction::I64GtU => String::from_str("I64GtU"),
        Instruction::I64LeS => String::from_str("I64LeS"),
        Instruction::I64LeU => String::from_str("I64LeU"),
        Instruction::I64GeS => String::from_str("I64GeS"),
        Instruction::I64GeU => String::from_str("I64GeU"),
        Instruction::F32Eq => String::from_str("F32Eq"),
        Instruction::F32Ne => String::from_str("F32Ne"),
        Instruction::F32Lt => String::from_str("F32Lt"),
        Instruction::F32Gt => String::from_str("F32Gt"),
        Instruction::F32Le => String::from_str("F32Le"),
        Instruction::F32Ge => String::from_str("F32Ge"),
        Instruction::F64Eq => String::from_str("F64Eq"),
        Instruction::F64Ne => String::from_str("F64Ne"),
        Instruction::F64Lt => String::from_str("F64Lt"),
        Instruction::F64Gt => String::from_str("F64Gt"),
        Instruction::F64Le => String::from_str("F64Le"),
        Instruction::F64Ge => String::from_str("F64Ge"),
        Instruction::I32Clz => String::from_str("I32Clz"),
        Instruction::I32Ctz => String::from_str("I32Ctz"),
        Instruction::I32Popcnt => String::from_str("I32Popcnt"),
        Instruction::I32RemS => String::from_str("I32RemS"),
        Instruction::I32RemU => String::from_str("I32RemU"),
        Instruction::I32And => String::from_str("I32And"),
        Instruction::I32Or => String::from_str("I32Or"),
        Instruction::I32Xor => String::from_str("I32Xor"),
        Instruction::I32Shl => String::from_str("I32Shl"),
        Instruction::I32ShrS => String::from_str("I32ShrS"),
        Instruction::I32ShrU => String::from_str("I32ShrU"),
        Instruction::I32Rotl => String::from_str("I32Rotl"),
        Instruction::I32Rotr => String::from_str("I32Rotr"),
        Instruction::I64Clz => String::from_str("I64Clz"),
        Instruction::I64Ctz => String::from_str("I64Ctz"),
        Instruction::I64Popcnt => String::from_str("I64Popcnt"),
        Instruction::I64DivS => String::from_str("I64DivS"),
        Instruction::I64DivU => String::from_str("I64DivU"),
        Instruction::I64RemS => String::from_str("I64RemS"),
        Instruction::I64RemU => String::from_str("I64RemU"),
        Instruction::I64And => String::from_str("I64And"),
        Instruction::I64Or => String::from_str("I64Or"),
        Instruction::I64Xor => String::from_str("I64Xor"),
        Instruction::I64Shl => String::from_str("I64Shl"),
        Instruction::I64ShrS => String::from_str("I64ShrS"),
        Instruction::I64ShrU => String::from_str("I64ShrU"),
        Instruction::I64Rotl => String::from_str("I64Rotl"),
        Instruction::I64Rotr => String::from_str("I64Rotr"),
        Instruction::F32Abs => String::from_str("F32Abs"),
        Instruction::F32Neg => String::from_str("F32Neg"),
        Instruction::F32Ceil => String::from_str("F32Ceil"),
        Instruction::F32Floor => String::from_str("F32Floor"),
        Instruction::F32Trunc => String::from_str("F32Trunc"),
        Instruction::F32Nearest => String::from_str("F32Nearest"),
        Instruction::F32Sqrt => String::from_str("F32Sqrt"),
        Instruction::F32Add => String::from_str("F32Add"),
        Instruction::F32Sub => String::from_str("F32Sub"),
        Instruction::F32Mul => String::from_str("F32Mul"),
        Instruction::F32Div => String::from_str("F32Div"),
        Instruction::F32Min => String::from_str("F32Min"),
        Instruction::F32Max => String::from_str("F32Max"),
        Instruction::F32Copysign => String::from_str("F32Copysign"),
        Instruction::F64Abs => String::from_str("F64Abs"),
        Instruction::F64Neg => String::from_str("F64Neg"),
        Instruction::F64Ceil => String::from_str("F64Ceil"),
        Instruction::F64Floor => String::from_str("F64Floor"),
        Instruction::F64Trunc => String::from_str("F64Trunc"),
        Instruction::F64Nearest => String::from_str("F64Nearest"),
        Instruction::F64Sqrt => String::from_str("F64Sqrt"),
        Instruction::F64Add => String::from_str("F64Add"),
        Instruction::F64Sub => String::from_str("F64Sub"),
        Instruction::F64Mul => String::from_str("F64Mul"),
        Instruction::F64Div => String::from_str("F64Div"),
        Instruction::F64Min => String::from_str("F64Min"),
        Instruction::F64Max => String::from_str("F64Max"),
        Instruction::F64Copysign => String::from_str("F64Copysign"),
        Instruction::I32TruncF32S => String::from_str("I32TruncF32S"),
        Instruction::I32TruncF32U => String::from_str("I32TruncF32U"),
        Instruction::I32TruncF64S => String::from_str("I32TruncF64S"),
        Instruction::I32TruncF64U => String::from_str("I32TruncF64U"),
        Instruction::I64TruncF32S => String::from_str("I64TruncF32S"),
        Instruction::I64TruncF32U => String::from_str("I64TruncF32U"),
        Instruction::I64TruncF64S => String::from_str("I64TruncF64S"),
        Instruction::I64TruncF64U => String::from_str("I64TruncF64U"),
        Instruction::F32ConvertI32S => String::from_str("F32ConvertI32S"),
        Instruction::F32ConvertI32U => String::from_str("F32ConvertI32U"),
        Instruction::F32ConvertI64S => String::from_str("F32ConvertI64S"),
        Instruction::F32ConvertI64U => String::from_str("F32ConvertI64U"),
        Instruction::F32DemoteF64 => String::from_str("F32DemoteF64"),
        Instruction::F64ConvertI32S => String::from_str("F64ConvertI32S"),
        Instruction::F64ConvertI32U => String::from_str("F64ConvertI32U"),
        Instruction::F64ConvertI64S => String::from_str("F64ConvertI64S"),
        Instruction::F64ConvertI64U => String::from_str("F64ConvertI64U"),
        Instruction::F64PromoteF32 => String::from_str("F64PromoteF32"),
        Instruction::I32ReinterpretF32 => String::from_str("I32ReinterpretF32"),
        Instruction::I64ReinterpretF64 => String::from_str("I64ReinterpretF64"),
        Instruction::F32ReinterpretI32 => String::from_str("F32ReinterpretI32"),
        Instruction::F64ReinterpretI64 => String::from_str("F64ReinterpretI64"),
        Instruction::I32Extend8S => String::from_str("I32Extend8S"),
        Instruction::I32Extend16S => String::from_str("I32Extend16S"),
        Instruction::I64Extend8S => String::from_str("I64Extend8S"),
        Instruction::I64Extend16S => String::from_str("I64Extend16S"),
        Instruction::I64Extend32S => String::from_str("I64Extend32S"),
        Instruction::I32TruncSatF32S => String::from_str("I32TruncSatF32S"),
        Instruction::I32TruncSatF32U => String::from_str("I32TruncSatF32U"),
        Instruction::I32TruncSatF64S => String::from_str("I32TruncSatF64S"),
        Instruction::I32TruncSatF64U => String::from_str("I32TruncSatF64U"),
        Instruction::I64TruncSatF32S => String::from_str("I64TruncSatF32S"),
        Instruction::I64TruncSatF32U => String::from_str("I64TruncSatF32U"),
        Instruction::I64TruncSatF64S => String::from_str("I64TruncSatF64S"),
        Instruction::I64TruncSatF64U => String::from_str("I64TruncSatF64U"),
        Instruction::SelectTyped { results } => {
            let mut r = String::from_str("SelectTyped { results: [");
            append_value_types(&mut r, results);
            r.append("] }");
            r
        },
        _ => String::new(),
    }
}

} // verus!
