use iridium::assembler::Token;
use iridium::instruction::{Instruction, Opcode};

#[test]
fn test_create_hlt() {
    let opcode = Opcode::HLT;
    assert_eq!(opcode, Opcode::HLT);
}

#[test]
fn test_create_instruction() {
    let instruction = Instruction::new(Opcode::HLT);
    assert_eq!(instruction.opcode(), Opcode::HLT);
}

#[test]
fn opcode_bytes_round_trip() {
    for b in 0u8..=15 {
        assert_eq!(u8::from(Opcode::from(b)), b);
    }
    assert_eq!(Opcode::from(0), Opcode::HLT);
    assert_eq!(Opcode::from(1), Opcode::LOAD);
    assert_eq!(Opcode::from(5), Opcode::DIV);
    assert_eq!(Opcode::from(15), Opcode::JEQ);
    assert_eq!(u8::from(Opcode::JMPB), 8);
    assert_eq!(u8::from(Opcode::IGL), 255);
}

#[test]
fn unmapped_bytes_decode_to_illegal() {
    assert_eq!(Opcode::from(16), Opcode::IGL);
    assert_eq!(Opcode::from(200), Opcode::IGL);
    assert_eq!(Opcode::from(255), Opcode::IGL);
}

#[test]
fn tokens_compare_by_content() {
    assert_eq!(Token::Op { code: Opcode::LOAD }, Token::Op { code: Opcode::LOAD });
    assert_ne!(Token::Register { reg_num: 1 }, Token::Register { reg_num: 2 });
}
