use mips_core::decoder::DecodedInstruction;
use mips_core::decoder::decode;

#[test]
fn decode_splits_a_special_word() {
    // opcode 0, rs 1, rt 2, rd 3, funct 0x24.
    let word: u32 = (1 << 21) | (2 << 16) | (3 << 11) | 0x24;
    match decode(word) {
        DecodedInstruction::Register { opcode, rs, rt, rd, funct } => {
            assert_eq!(opcode, 0);
            assert_eq!(rs, 1);
            assert_eq!(rt, 2);
            assert_eq!(rd, 3);
            assert_eq!(funct, 0x24);
        }
        DecodedInstruction::Immediate { .. } => panic!("expected the register form"),
    }
}

#[test]
fn decode_splits_a_special2_word() {
    let word: u32 = (0x1C << 26) | (31 << 21) | (0 << 16) | (7 << 11) | 0x21;
    match decode(word) {
        DecodedInstruction::Register { opcode, rs, rt, rd, funct } => {
            assert_eq!(opcode, 0x1C);
            assert_eq!(rs, 31);
            assert_eq!(rt, 0);
            assert_eq!(rd, 7);
            assert_eq!(funct, 0x21);
        }
        DecodedInstruction::Immediate { .. } => panic!("expected the register form"),
    }
}

#[test]
fn decode_splits_an_immediate_word() {
    let word: u32 = (0x0C << 26) | (5 << 21) | (6 << 16) | 0xBEEF;
    match decode(word) {
        DecodedInstruction::Immediate { opcode, rs, rt, imm } => {
            assert_eq!(opcode, 0x0C);
            assert_eq!(rs, 5);
            assert_eq!(rt, 6);
            assert_eq!(imm, 0xBEEF);
        }
        DecodedInstruction::Register { .. } => panic!("expected the immediate form"),
    }
}

#[test]
fn decode_is_total_on_extreme_words() {
    // Every 32-bit pattern produces a descriptor; spot-check both ends.
    match decode(0) {
        DecodedInstruction::Register { opcode, rs, rt, rd, funct } => {
            assert_eq!((opcode, rs, rt, rd, funct), (0, 0, 0, 0, 0));
        }
        DecodedInstruction::Immediate { .. } => panic!("expected the register form"),
    }
    match decode(0xFFFF_FFFF) {
        DecodedInstruction::Immediate { opcode, rs, rt, imm } => {
            assert_eq!((opcode, rs, rt, imm), (0x3F, 31, 31, 0xFFFF));
        }
        DecodedInstruction::Register { .. } => panic!("expected the immediate form"),
    }
}
