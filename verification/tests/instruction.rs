use wasm_parser::instruction::{Instruction, InstructionBuilder, MemArg, Opcode};
use wasm_parser::types::BlockType;

#[test]
fn test_instruction_builder() {
    let instructions = InstructionBuilder::new()
        .local_get(0)
        .i32_const(42)
        .push(Instruction::I32Add)
        .local_set(1)
        .build();

    assert_eq!(instructions.len(), 4);
    assert!(matches!(instructions[0], Instruction::LocalGet { local_idx: 0 }));
    assert!(matches!(instructions[1], Instruction::I32Const { value: 42 }));
    assert!(matches!(instructions[2], Instruction::I32Add));
    assert!(matches!(instructions[3], Instruction::LocalSet { local_idx: 1 }));
}

#[test]
fn test_nested_container_detection() {
    assert!(!Instruction::I32Add.is_nested_container());
    assert!(!Instruction::Nop.is_nested_container());
    assert!(Instruction::Block { block_type: BlockType::Empty, body: vec![] }.is_nested_container());
    assert!(Instruction::Loop { block_type: BlockType::Empty, body: vec![] }.is_nested_container());
}

#[test]
fn instruction_builder_other_steps() {
    let instructions = InstructionBuilder::new().i64_const(-5).call(3).build();
    assert_eq!(instructions, vec![Instruction::I64Const { value: -5 }, Instruction::Call { function_idx: 3 }]);
    assert!(InstructionBuilder::default().build().is_empty());
}

#[test]
fn instruction_constructors_and_predicates() {
    assert_eq!(
        Instruction::block(BlockType::Empty, vec![Instruction::Nop]),
        Instruction::Block { block_type: BlockType::Empty, body: vec![Instruction::Nop] }
    );
    assert_eq!(
        Instruction::loop_(BlockType::Empty, vec![]),
        Instruction::Loop { block_type: BlockType::Empty, body: vec![] }
    );
    let i = Instruction::if_(BlockType::Empty, vec![Instruction::Nop], vec![]);
    assert!(i.is_nested_container());
    assert!(Instruction::End.is_terminal());
    assert!(Instruction::Else.is_terminal());
    assert!(!Instruction::Return.is_terminal());
}

#[test]
fn instruction_opcode_bytes() {
    assert_eq!(Opcode::Unreachable.to_byte(), 0x00);
    assert_eq!(Opcode::End.to_byte(), 0x0b);
    assert_eq!(Opcode::I32Add.to_byte(), 0x6a);
    assert_eq!(MemArg::new(2, 8), MemArg { align: 2, offset: 8 });
}
