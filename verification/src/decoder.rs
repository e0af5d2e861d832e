//! Pure, total decoder from a 32-bit instruction word to a decoded
//! instruction descriptor.
//!
//! Every word carries a 6-bit primary opcode and two 5-bit register
//! selectors.  For the two reserved primary opcodes 0x00 and 0x1C the low
//! 16 bits additionally carry a destination register and a 6-bit function
//! code; for every other opcode they are a raw 16-bit immediate.  Decoding
//! never fails: unrecognized words are legal decode results that the
//! engine dispatches to a no-op.

use vstd::prelude::*;

verus! {

/// Per-cycle descriptor of one instruction word.
#[derive(Clone, Copy, PartialEq, Eq, Structural, Debug)]
pub enum DecodedInstruction {
    /// A word whose primary opcode is 0x00 or 0x1C: the low 16 bits hold a
    /// destination register and a secondary 6-bit function code.
    Register { opcode: u8, rs: u8, rt: u8, rd: u8, funct: u8 },
    /// Any other word: the low 16 bits are an immediate operand.
    Immediate { opcode: u8, rs: u8, rt: u8, imm: u16 },
}

/// The descriptor decoded from `word`.
pub open spec fn spec_decode(word: u32) -> DecodedInstruction {
    let opcode = ((word & 0xFC00_0000) >> 26) as u8;
    let rs = ((word & 0x03E0_0000) >> 21) as u8;
    let rt = ((word & 0x001F_0000) >> 16) as u8;
    let imm = (word & 0x0000_FFFF) as u16;
    if opcode == 0x00 || opcode == 0x1C {
        DecodedInstruction::Register {
            opcode,
            rs,
            rt,
            rd: ((imm & 0xF800) >> 11) as u8,
            funct: (imm & 0x003F) as u8,
        }
    } else {
        DecodedInstruction::Immediate { opcode, rs, rt, imm }
    }
}

/// Split `word` into its opcode and argument fields.  Pure, deterministic
/// and total.
pub fn decode(word: u32) -> (inst: DecodedInstruction)
    ensures
        inst == spec_decode(word),
{
    let opcode: u8 = #[verifier::truncate] (((word & 0xFC00_0000) >> 26) as u8);
    let rs: u8 = #[verifier::truncate] (((word & 0x03E0_0000) >> 21) as u8);
    let rt: u8 = #[verifier::truncate] (((word & 0x001F_0000) >> 16) as u8);
    let imm: u16 = #[verifier::truncate] ((word & 0x0000_FFFF) as u16);
    if opcode == 0x00 || opcode == 0x1C {
        let rd: u8 = #[verifier::truncate] (((imm & 0xF800) >> 11) as u8);
        let funct: u8 = #[verifier::truncate] ((imm & 0x003F) as u8);
        DecodedInstruction::Register { opcode, rs, rt, rd, funct }
    } else {
        DecodedInstruction::Immediate { opcode, rs, rt, imm }
    }
}

} // verus!
