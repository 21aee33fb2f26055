use rc_8::backend::Instruction;

#[test]
fn instruction_fields_of_a_word() {
    let instruction = Instruction::new([0xD1, 0x25]);
    assert_eq!(instruction.0, 0xD125);
    assert_eq!(instruction.operator_code(), 0xD);
    assert_eq!(instruction.operand_x(), 1);
    assert_eq!(instruction.operand_y(), 2);
    assert_eq!(instruction.operand_n(), 5);
    assert_eq!(instruction.operand_nn(), 0x25);
    assert_eq!(instruction.operand_nnn(), 0x125);
}

#[test]
fn instruction_is_read_in_big_endian_order() {
    assert_eq!(Instruction::new([0x12, 0x34]).0, 0x1234);
    assert_eq!(Instruction::new([0x00, 0xFF]).0, 0x00FF);
    assert_eq!(Instruction::new([0xFF, 0x00]).0, 0xFF00);
}

#[test]
fn instruction_fields_at_their_limits() {
    let all = Instruction::new([0xFF, 0xFF]);
    assert_eq!(all.operator_code(), 0xF);
    assert_eq!(all.operand_x(), 15);
    assert_eq!(all.operand_y(), 15);
    assert_eq!(all.operand_n(), 15);
    assert_eq!(all.operand_nn(), 255);
    assert_eq!(all.operand_nnn(), 4095);
    let none = Instruction::new([0x00, 0x00]);
    assert_eq!(none.operator_code(), 0);
    assert_eq!(none.operand_x(), 0);
    assert_eq!(none.operand_y(), 0);
    assert_eq!(none.operand_n(), 0);
    assert_eq!(none.operand_nn(), 0);
    assert_eq!(none.operand_nnn(), 0);
}

#[test]
fn instruction_fields_for_every_word() {
    let mut word: u32 = 0;
    while word <= 0xFFFF {
        let instruction = Instruction::new([(word >> 8) as u8, (word & 0xFF) as u8]);
        assert_eq!(instruction.0 as u32, word);
        assert_eq!(instruction.operator_code() as u32, word >> 12);
        assert_eq!(instruction.operand_x() as u32, (word >> 8) & 0xF);
        assert_eq!(instruction.operand_y() as u32, (word >> 4) & 0xF);
        assert_eq!(instruction.operand_n() as u32, word & 0xF);
        assert_eq!(instruction.operand_nn() as u32, word & 0xFF);
        assert_eq!(instruction.operand_nnn() as u32, word & 0xFFF);
        word += 1;
    }
}

#[test]
fn instruction_is_written_as_four_capital_hex_digits() {
    assert_eq!(Instruction::new([0x00, 0xE0]).to_string(), "00E0");
    assert_eq!(Instruction::new([0xAB, 0xCD]).to_string(), "ABCD");
    assert_eq!(Instruction::new([0x00, 0x00]).to_string(), "0000");
    assert_eq!(Instruction::new([0xFF, 0xFF]).to_string(), "FFFF");
    assert_eq!(Instruction::new([0x12, 0x09]).to_string(), "1209");
}
