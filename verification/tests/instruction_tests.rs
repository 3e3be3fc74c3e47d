use vo_lang::instruction::{Instruction, Opcode};

#[test]
fn test_instruction_size() {
    assert_eq!(core::mem::size_of::<Instruction>(), 8);
}

#[test]
fn test_imm32() {
    let inst = Instruction::new(Opcode::LoadInt, 0, 0x1234, 0x5678);
    assert_eq!(inst.imm32_unsigned(), 0x56781234);
}

#[test]
fn test_imm32_signed() {
    let inst = Instruction::new(Opcode::Jump, 0, 0xFFFF, 0xFFFF);
    assert_eq!(inst.imm32(), -1);
}

#[test]
fn test_opcode_roundtrip() {
    for i in 0..=116u8 {
        let op = Opcode::from_u8(i);
        assert_ne!(op, Opcode::Invalid, "opcode {} should be valid", i);
        assert_eq!(op as u8, i);
    }
}

#[test]
fn opcode_bytes_past_the_table_are_invalid() {
    assert_eq!(Opcode::from_u8(117), Opcode::Invalid);
    assert_eq!(Opcode::from_u8(255), Opcode::Invalid);
    assert_eq!(Opcode::Invalid.to_u8(), 255);
}

#[test]
fn instruction_fields_and_opcode() {
    let inst = Instruction::with_flags(Opcode::Call, 3, 1, 2, 4);
    assert_eq!(inst.flags, 3);
    assert_eq!(inst.a, 1);
    assert_eq!(inst.b, 2);
    assert_eq!(inst.c, 4);
    assert_eq!(inst.opcode(), Opcode::Call);
    let plain = Instruction::new(Opcode::Nop, 0, 0, 0);
    assert_eq!(plain.flags, 0);
}

#[test]
fn imm32_halves_combine() {
    let inst = Instruction::new(Opcode::LoadInt, 0, 0x0001, 0x8000);
    assert_eq!(inst.imm32_unsigned(), 0x8000_0001);
    assert_eq!(inst.imm32(), i32::MIN + 1);
}
