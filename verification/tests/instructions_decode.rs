use wasm_parser::decode::Decoder;
use wasm_parser::decode_instructions::{
    decode_instructions, decode_instructions_bounded, decode_instructions_until_end,
    decode_instructions_until_end_bounded, decode_mem_arg, decode_single_instruction,
    decode_single_instruction_with_end,
};
use wasm_parser::error::WasmError;
use wasm_parser::instruction::{Instruction, MemArg};
use wasm_parser::types::{BlockType, ValueType};

#[test]
fn instrs_until_end_reads_the_end() {
    let bytes = [0x01, 0x41, 0x2a, 0x0b, 0x00];
    let mut d = Decoder::new(&bytes);
    let r = decode_instructions_until_end(&mut d).unwrap();
    assert_eq!(r, vec![Instruction::Nop, Instruction::I32Const { value: 42 }]);
    assert_eq!(d.position(), 4);
}

#[test]
fn instrs_stop_before_else_at_top_level() {
    let bytes = [0x01, 0x05, 0x00];
    let mut d = Decoder::new(&bytes);
    assert_eq!(decode_instructions(&mut d), Ok(vec![Instruction::Nop]));
    assert_eq!(d.position(), 1);
}

#[test]
fn instrs_nested_blocks() {
    let bytes = [0x02, 0x40, 0x03, 0x7f, 0x01, 0x0b, 0x0b, 0x0b];
    let mut d = Decoder::new(&bytes);
    let r = decode_instructions(&mut d).unwrap();
    assert_eq!(
        r,
        vec![Instruction::Block {
            block_type: BlockType::Empty,
            body: vec![Instruction::Loop {
                block_type: BlockType::Value(ValueType::I32),
                body: vec![Instruction::Nop],
            }],
        }]
    );
    assert_eq!(d.position(), 8);
}

#[test]
fn instrs_else_inside_a_block_is_an_instruction() {
    let bytes = [0x02, 0x40, 0x04, 0x40, 0x01, 0x05, 0x00, 0x0b, 0x0b, 0x0b];
    let mut d = Decoder::new(&bytes);
    let r = decode_instructions(&mut d).unwrap();
    assert_eq!(
        r,
        vec![Instruction::Block {
            block_type: BlockType::Empty,
            body: vec![Instruction::If {
                block_type: BlockType::Empty,
                then_branch: vec![Instruction::Nop, Instruction::Else, Instruction::Unreachable],
                else_branch: vec![],
            }],
        }]
    );
}

#[test]
fn instrs_bounded_stops_at_the_bound() {
    let bytes = [0x01, 0x01, 0x01, 0x01];
    let mut d = Decoder::new(&bytes);
    assert_eq!(decode_instructions_bounded(&mut d, 2), Ok(vec![Instruction::Nop, Instruction::Nop]));
    assert_eq!(d.position(), 2);
    let mut d = Decoder::new(&bytes);
    assert_eq!(
        decode_instructions_until_end_bounded(&mut d, Some(0)),
        Ok(vec![])
    );
}

#[test]
fn instrs_errors() {
    let mut d = Decoder::new(&[0x01]);
    assert_eq!(decode_instructions(&mut d), Err(WasmError::UnexpectedEof));
    let mut d = Decoder::new(&[0xfc, 0x50, 0x0b]);
    assert_eq!(decode_instructions(&mut d), Err(WasmError::InvalidOpcode(0xfc)));
    let mut d = Decoder::new(&[0xc5, 0x0b]);
    assert_eq!(decode_instructions(&mut d), Ok(vec![Instruction::Nop]));
    let mut d = Decoder::new(&[0x02, 0x77, 0x0b]);
    assert_eq!(decode_instructions(&mut d), Err(WasmError::InvalidBlockType(-9)));
}

#[test]
fn single_block_body_drops_then_part_on_else() {
    let bytes = [0x02, 0x40, 0x04, 0x40, 0x01, 0x05, 0x00, 0x0b, 0x0b];
    let mut d = Decoder::new(&bytes);
    let r = decode_single_instruction(&mut d).unwrap();
    assert_eq!(
        r,
        Instruction::Block {
            block_type: BlockType::Empty,
            body: vec![Instruction::If {
                block_type: BlockType::Empty,
                then_branch: vec![Instruction::Unreachable],
                else_branch: vec![],
            }],
        }
    );
    assert_eq!(d.position(), 9);
}

#[test]
fn single_if_with_else() {
    let bytes = [0x04, 0x40, 0x01, 0x05, 0x00, 0x0b];
    let mut d = Decoder::new(&bytes);
    let r = decode_single_instruction(&mut d).unwrap();
    assert_eq!(
        r,
        Instruction::If {
            block_type: BlockType::Empty,
            then_branch: vec![Instruction::Nop],
            else_branch: vec![Instruction::Unreachable],
        }
    );
}

#[test]
fn single_instruction_operands() {
    let mut d = Decoder::new(&[0x0e, 2, 0, 1, 3]);
    assert_eq!(
        decode_single_instruction(&mut d),
        Ok(Instruction::BrTable { labels: vec![0, 1], default_label: 3 })
    );
    let mut d = Decoder::new(&[0x28, 2, 16]);
    assert_eq!(
        decode_single_instruction(&mut d),
        Ok(Instruction::I32Load { mem_arg: MemArg { align: 2, offset: 16 } })
    );
    let mut d = Decoder::new(&[0x43, 0x00, 0x00, 0x80, 0x3f]);
    assert_eq!(decode_single_instruction(&mut d), Ok(Instruction::F32Const { bits: 0x3f80_0000 }));
    let mut d = Decoder::new(&[0x06]);
    assert_eq!(decode_single_instruction(&mut d), Ok(Instruction::Nop));
    let mut d = Decoder::new(&[0x01]);
    assert_eq!(decode_single_instruction_with_end(&mut d, Some(0)), Err(WasmError::UnexpectedEof));
}

#[test]
fn mem_arg_reads_align_then_offset() {
    let mut d = Decoder::new(&[3, 0x80, 0x01]);
    assert_eq!(decode_mem_arg(&mut d), Ok(MemArg { align: 3, offset: 128 }));
}
