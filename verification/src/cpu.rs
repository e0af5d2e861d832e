//! The execution engine and its architectural state: 32 general-purpose
//! registers, HI/LO, the program counter, the memory image and the fault
//! unit, together with the fetch-decode-dispatch-execute step.
//!
//! The whole machine is modelled by [`CoreView`], and every mutating
//! operation states exactly which view it produces.  One clock cycle is
//! specified by [`spec_clock`]: fetch the word at the program counter,
//! decode it, apply the decoded instruction's semantic function, then
//! advance the program counter by 4.

use vstd::prelude::*;

use crate::decoder::DecodedInstruction;
use crate::decoder::decode;
use crate::decoder::spec_decode;
use crate::exceptionprocessor::CAUSE_ADDRESS_ERROR_LOAD;
use crate::exceptionprocessor::CAUSE_ADDRESS_ERROR_STORE;
use crate::exceptionprocessor::CAUSE_INTEGER_OVERFLOW;
use crate::exceptionprocessor::ExceptionProcessor;
use crate::exceptionprocessor::FaultView;
use crate::exceptionprocessor::STATUS_EXCEPTION_LEVEL;
use crate::ram::RAM;
use crate::ram::half_at;
use crate::ram::put_word;
use crate::ram::word_at;
use crate::ram::wrap_add;

verus! {

/// Base address of the text segment, loaded into the program counter on
/// reset, by the conventional memory layout.
pub const TEXT_BASE: u32 = 0x0040_0000;

/// Initial value of the stack-pointer register (register 29) on reset, by
/// the conventional memory layout.
pub const STACK_POINTER_INIT: u32 = 0x7fff_effc;

/// Register index of the program counter in the unified register index
/// space (0-31 general purpose, 32 HI, 33 LO, 34 PC).
pub const REG_PC: u8 = 34;

/// Register index that receives the return address of a jump-and-link.
pub const REG_RETURN_ADDRESS: u8 = 31;

/// Bound on nested delay-slot execution within one externally requested
/// clock cycle.  A branch or jump executes the instruction that follows
/// it before transferring control; when that instruction is itself a
/// branch, the nesting recurses, and this bound keeps the recursion
/// finite.  A chain deeper than this leaves the innermost delay slot
/// unexecuted.
pub const DELAY_SLOT_BOUND: u32 = 16;

/// Mathematical model of the whole machine: general-purpose registers,
/// HI/LO, program counter, memory image and fault-status registers.
#[verifier::ext_equal]
pub ghost struct CoreView {
    pub gpr: Seq<u32>,
    pub hi: u32,
    pub lo: u32,
    pub pc: u32,
    pub mem: Map<u32, u8>,
    pub fault: FaultView,
}

/// The register file of a machine that has just been powered on or reset:
/// every register zero except the stack pointer.
pub open spec fn reset_regs() -> Seq<u32> {
    Seq::new(32, |i: int| if i == 29 { STACK_POINTER_INIT } else { 0u32 })
}

/// The register file with every register zero.
pub open spec fn zero_regs() -> Seq<u32> {
    Seq::new(32, |i: int| 0u32)
}

/// Read a register by unified index: register 0 is hardwired to 0,
/// 1-31 are general purpose, 32 is HI, 33 is LO, 34 is the program
/// counter, and any other index reads as 0.
pub open spec fn reg_read(c: CoreView, number: u8) -> u32 {
    if number == 0 {
        0u32
    } else if number <= 31 {
        c.gpr[number as int]
    } else if number == 32 {
        c.hi
    } else if number == 33 {
        c.lo
    } else if number == 34 {
        c.pc
    } else {
        0u32
    }
}

/// Write a register by unified index: indices 1-31 and 34 (the program
/// counter) update storage; index 0, HI, LO and out-of-range indices are
/// silent no-ops.
pub open spec fn reg_write(c: CoreView, number: u8, value: u32) -> CoreView {
    if 1 <= number <= 31 {
        CoreView { gpr: c.gpr.update(number as int, value), ..c }
    } else if number == 34 {
        CoreView { pc: value, ..c }
    } else {
        c
    }
}

/// Record a fault in the fault-status registers: observation-only, the
/// rest of the machine is untouched and control flow is not redirected.
pub open spec fn signal_fault(c: CoreView, bad_vaddr: u32, cause: u32) -> CoreView {
    CoreView {
        fault: FaultView {
            bad_vaddr,
            status: STATUS_EXCEPTION_LEVEL,
            cause,
            epc: c.pc,
        },
        ..c
    }
}

/// The signed value of a 32-bit word in two's complement.
pub open spec fn as_signed(w: u32) -> int {
    if w < 0x8000_0000 {
        w as int
    } else {
        w - 0x1_0000_0000
    }
}

/// The 32-bit two's-complement representation of a signed value in
/// [-2^31, 2^31).
pub open spec fn to_unsigned(n: int) -> u32 {
    if n >= 0 {
        n as u32
    } else {
        (n + 0x1_0000_0000) as u32
    }
}

/// Sign-extend a 16-bit value to 32 bits.
pub open spec fn sext16(imm: u16) -> u32 {
    if imm < 0x8000 {
        imm as u32
    } else {
        (imm + 0xFFFF_0000) as u32
    }
}

/// Sign-extend an 8-bit value to 32 bits.
pub open spec fn sext8(byte: u8) -> u32 {
    if byte < 0x80 {
        byte as u32
    } else {
        (byte + 0xFFFF_FF00) as u32
    }
}

/// The address `k` bytes before `address`, wrapping modulo 2^32.
pub open spec fn wrap_sub(address: u32, k: u32) -> u32 {
    if address - k < 0 {
        (address - k + 0x1_0000_0000) as u32
    } else {
        (address - k) as u32
    }
}

/// Effective address of a load or store: base register value plus the
/// sign-extended immediate, modulo 2^32.
pub open spec fn effective_address(c: CoreView, base: u8, imm: u16) -> u32 {
    wrap_add(reg_read(c, base), sext16(imm))
}

/// True when adding the signed values of `a` and `b` overflows 32-bit
/// two's complement.
pub open spec fn signed_add_overflows(a: u32, b: u32) -> bool {
    as_signed(a) + as_signed(b) > 0x7FFF_FFFF || as_signed(a) + as_signed(b) < -0x8000_0000
}

/// True when subtracting the signed value of `b` from that of `a`
/// overflows 32-bit two's complement.
pub open spec fn signed_sub_overflows(a: u32, b: u32) -> bool {
    as_signed(a) - as_signed(b) > 0x7FFF_FFFF || as_signed(a) - as_signed(b) < -0x8000_0000
}

/// Number of set bits of `w` among bit positions below `n`.
pub open spec fn set_bits_below(w: u32, n: nat) -> nat
    decreases n,
{
    if n == 0 {
        0
    } else {
        set_bits_below(w, (n - 1) as nat) + (if (w >> ((n - 1) as u32)) & 1 == 1 {
            1nat
        } else {
            0nat
        })
    }
}

/// Number of cleared bits of `w` among bit positions below `n`.
pub open spec fn clear_bits_below(w: u32, n: nat) -> nat
    decreases n,
{
    if n == 0 {
        0
    } else {
        clear_bits_below(w, (n - 1) as nat) + (if (w >> ((n - 1) as u32)) & 1 == 0 {
            1nat
        } else {
            0nat
        })
    }
}

/// Bitwise and: `rd = rs & rt`.
pub open spec fn spec_and(c: CoreView, rs: u8, rt: u8, rd: u8) -> CoreView {
    reg_write(c, rd, reg_read(c, rs) & reg_read(c, rt))
}

/// Bitwise and with the zero-extended immediate: `rt = rs & imm`.
pub open spec fn spec_andi(c: CoreView, rs: u8, rt: u8, imm: u16) -> CoreView {
    reg_write(c, rt, reg_read(c, rs) & (imm as u32))
}

/// Bitwise or: `rd = rs | rt`.
pub open spec fn spec_or(c: CoreView, rs: u8, rt: u8, rd: u8) -> CoreView {
    reg_write(c, rd, reg_read(c, rs) | reg_read(c, rt))
}

/// Bitwise or with the zero-extended immediate: `rt = rs | imm`.
pub open spec fn spec_ori(c: CoreView, rs: u8, rt: u8, imm: u16) -> CoreView {
    reg_write(c, rt, reg_read(c, rs) | (imm as u32))
}

/// Bitwise not-or: `rd = !(rs | rt)`.
pub open spec fn spec_nor(c: CoreView, rs: u8, rt: u8, rd: u8) -> CoreView {
    reg_write(c, rd, !(reg_read(c, rs) | reg_read(c, rt)))
}

/// Bitwise exclusive or: `rd = rs ^ rt`.
pub open spec fn spec_xor(c: CoreView, rs: u8, rt: u8, rd: u8) -> CoreView {
    reg_write(c, rd, reg_read(c, rs) ^ reg_read(c, rt))
}

/// Bitwise exclusive or with the zero-extended immediate: `rt = rs ^ imm`.
pub open spec fn spec_xori(c: CoreView, rs: u8, rt: u8, imm: u16) -> CoreView {
    reg_write(c, rt, reg_read(c, rs) ^ (imm as u32))
}

/// Set on less than, signed: `rd = 1` when `rs < rt` as signed 32-bit
/// values, else 0.
pub open spec fn spec_slt(c: CoreView, rs: u8, rt: u8, rd: u8) -> CoreView {
    reg_write(
        c,
        rd,
        if as_signed(reg_read(c, rs)) < as_signed(reg_read(c, rt)) {
            1u32
        } else {
            0u32
        },
    )
}

/// Set on less than immediate, signed: `rt = 1` when `rs` is less than
/// the sign-extended immediate as signed values, else 0.
pub open spec fn spec_slti(c: CoreView, rs: u8, rt: u8, imm: u16) -> CoreView {
    reg_write(
        c,
        rt,
        if as_signed(reg_read(c, rs)) < as_signed(sext16(imm)) {
            1u32
        } else {
            0u32
        },
    )
}

/// Set on less than immediate, unsigned: the immediate is first
/// sign-extended, then both operands compare as unsigned values.
pub open spec fn spec_sltiu(c: CoreView, rs: u8, rt: u8, imm: u16) -> CoreView {
    reg_write(
        c,
        rt,
        if reg_read(c, rs) < sext16(imm) {
            1u32
        } else {
            0u32
        },
    )
}

/// Load upper immediate: `rt = imm << 16`.
pub open spec fn spec_lui(c: CoreView, rt: u8, imm: u16) -> CoreView {
    reg_write(c, rt, (imm as u32) << 16)
}

/// Jump register: the program counter becomes the register value less 4,
/// compensating the unconditional advance by 4 at the end of the cycle.
pub open spec fn spec_jr(c: CoreView, rs: u8) -> CoreView {
    reg_write(c, REG_PC, wrap_sub(reg_read(c, rs), 4))
}

/// Conditional move on nonzero: `rd = rs` only when `rt != 0`.
pub open spec fn spec_movn(c: CoreView, rs: u8, rt: u8, rd: u8) -> CoreView {
    if reg_read(c, rt) != 0 {
        reg_write(c, rd, reg_read(c, rs))
    } else {
        c
    }
}

/// Conditional move on zero: `rd = rs` only when `rt == 0`.
pub open spec fn spec_movz(c: CoreView, rs: u8, rt: u8, rd: u8) -> CoreView {
    if reg_read(c, rt) == 0 {
        reg_write(c, rd, reg_read(c, rs))
    } else {
        c
    }
}

/// Unsigned wraparound add: `rd = rs + rt` modulo 2^32, never faults.
pub open spec fn spec_addu(c: CoreView, rs: u8, rt: u8, rd: u8) -> CoreView {
    reg_write(c, rd, wrap_add(reg_read(c, rs), reg_read(c, rt)))
}

/// Unsigned wraparound add of the sign-extended immediate:
/// `rt = rs + sign_extend(imm)` modulo 2^32, never faults.
pub open spec fn spec_addiu(c: CoreView, rs: u8, rt: u8, imm: u16) -> CoreView {
    reg_write(c, rt, wrap_add(reg_read(c, rs), sext16(imm)))
}

/// Unsigned wraparound subtract: `rd = rs - rt` modulo 2^32, never
/// faults.
pub open spec fn spec_subu(c: CoreView, rs: u8, rt: u8, rd: u8) -> CoreView {
    reg_write(c, rd, wrap_sub(reg_read(c, rs), reg_read(c, rt)))
}

/// Signed add: on overflow the destination write is suppressed and an
/// integer-overflow fault is recorded; otherwise `rd = rs + rt`.
pub open spec fn spec_add(c: CoreView, rs: u8, rt: u8, rd: u8) -> CoreView {
    let a = reg_read(c, rs);
    let b = reg_read(c, rt);
    if signed_add_overflows(a, b) {
        signal_fault(c, 0, CAUSE_INTEGER_OVERFLOW)
    } else {
        reg_write(c, rd, to_unsigned(as_signed(a) + as_signed(b)))
    }
}

/// Signed add of the sign-extended immediate: on overflow the
/// destination write is suppressed and an integer-overflow fault is
/// recorded; otherwise `rt = rs + sign_extend(imm)`.
pub open spec fn spec_addi(c: CoreView, rs: u8, rt: u8, imm: u16) -> CoreView {
    let a = reg_read(c, rs);
    let b = sext16(imm);
    if signed_add_overflows(a, b) {
        signal_fault(c, 0, CAUSE_INTEGER_OVERFLOW)
    } else {
        reg_write(c, rt, to_unsigned(as_signed(a) + as_signed(b)))
    }
}

/// Signed subtract: on overflow the destination write is suppressed and
/// an integer-overflow fault is recorded; otherwise `rd = rs - rt`.
pub open spec fn spec_sub(c: CoreView, rs: u8, rt: u8, rd: u8) -> CoreView {
    let a = reg_read(c, rs);
    let b = reg_read(c, rt);
    if signed_sub_overflows(a, b) {
        signal_fault(c, 0, CAUSE_INTEGER_OVERFLOW)
    } else {
        reg_write(c, rd, to_unsigned(as_signed(a) - as_signed(b)))
    }
}

/// Count the set bits of the source register into the destination.
pub open spec fn spec_clz(c: CoreView, rs: u8, rd: u8) -> CoreView {
    reg_write(c, rd, set_bits_below(reg_read(c, rs), 32) as u32)
}

/// Count the cleared bits of the source register into the destination.
pub open spec fn spec_clo(c: CoreView, rs: u8, rd: u8) -> CoreView {
    reg_write(c, rd, clear_bits_below(reg_read(c, rs), 32) as u32)
}

/// Load byte: `rt` receives the byte at the effective address,
/// sign-extended to 32 bits.
pub open spec fn spec_lb(c: CoreView, base: u8, rt: u8, imm: u16) -> CoreView {
    reg_write(c, rt, sext8(c.mem[effective_address(c, base, imm)]))
}

/// Load half: a 2-byte-misaligned effective address records an
/// address-error fault, and the load still proceeds; `rt` receives the
/// half at the effective address, sign-extended to 32 bits.
pub open spec fn spec_lh(c: CoreView, base: u8, rt: u8, imm: u16) -> CoreView {
    let address = effective_address(c, base, imm);
    let c1 = if address % 2 != 0 {
        signal_fault(c, address, CAUSE_ADDRESS_ERROR_LOAD)
    } else {
        c
    };
    reg_write(c1, rt, sext16(half_at(c1.mem, address)))
}

/// Load word: a 4-byte-misaligned effective address records an
/// address-error fault, and the load still proceeds; `rt` receives the
/// word at the effective address.
pub open spec fn spec_lw(c: CoreView, base: u8, rt: u8, imm: u16) -> CoreView {
    let address = effective_address(c, base, imm);
    let c1 = if address % 4 != 0 {
        signal_fault(c, address, CAUSE_ADDRESS_ERROR_LOAD)
    } else {
        c
    };
    reg_write(c1, rt, word_at(c1.mem, address))
}

/// Store word: a 4-byte-misaligned effective address records an
/// address-error fault, and the store still proceeds; the full value of
/// `rt` is stored at the effective address.
pub open spec fn spec_sw(c: CoreView, base: u8, rt: u8, imm: u16) -> CoreView {
    let address = effective_address(c, base, imm);
    let c1 = if address % 4 != 0 {
        signal_fault(c, address, CAUSE_ADDRESS_ERROR_STORE)
    } else {
        c
    };
    CoreView { mem: put_word(c1.mem, address, reg_read(c1, rt)), ..c1 }
}

/// One clock cycle: fetch the word at the program counter, decode it,
/// apply the decoded instruction's semantic function, then advance the
/// program counter by 4 (wrapping).  Control-transfer instructions
/// pre-adjust the program counter inside their own semantics so that the
/// trailing advance nets out to the intended target.  `fuel` bounds
/// nested delay-slot execution.
pub open spec fn spec_clock(c: CoreView, fuel: nat) -> CoreView
    decreases fuel, 2int,
{
    let c1 = spec_dispatch(c, word_at(c.mem, c.pc), fuel);
    CoreView { pc: wrap_add(c1.pc, 4), ..c1 }
}

/// Dispatch one fetched word: by function code for the two reserved
/// primary opcodes, by primary opcode otherwise.  Unrecognized
/// (opcode, function) pairs are no-ops: no state change, no fault.
pub open spec fn spec_dispatch(c: CoreView, word: u32, fuel: nat) -> CoreView
    decreases fuel, 1int,
{
    match spec_decode(word) {
        DecodedInstruction::Register { opcode, rs, rt, rd, funct } => {
            if opcode == 0x00 {
                if funct == 0x0A {
                    spec_movz(c, rs, rt, rd)
                } else if funct == 0x0B {
                    spec_movn(c, rs, rt, rd)
                } else if funct == 0x24 {
                    spec_and(c, rs, rt, rd)
                } else if funct == 0x2A {
                    spec_slt(c, rs, rt, rd)
                } else if funct == 0x08 {
                    spec_jr(c, rs)
                } else if funct == 0x20 {
                    spec_add(c, rs, rt, rd)
                } else if funct == 0x21 {
                    spec_addu(c, rs, rt, rd)
                } else if funct == 0x22 {
                    spec_sub(c, rs, rt, rd)
                } else if funct == 0x23 {
                    spec_subu(c, rs, rt, rd)
                } else if funct == 0x25 {
                    spec_or(c, rs, rt, rd)
                } else if funct == 0x26 {
                    spec_xor(c, rs, rt, rd)
                } else if funct == 0x27 {
                    spec_nor(c, rs, rt, rd)
                } else {
                    c
                }
            } else {
                if funct == 0x1C {
                    spec_clz(c, rs, rd)
                } else if funct == 0x21 {
                    spec_clo(c, rs, rd)
                } else {
                    c
                }
            }
        },
        DecodedInstruction::Immediate { opcode, rs, rt, imm } => {
            if opcode == 0x03 {
                spec_jal(c, word & 0x03FF_FFFF, fuel)
            } else if opcode == 0x07 {
                spec_bgtz(c, rs, imm, fuel)
            } else if opcode == 0x08 {
                spec_addi(c, rs, rt, imm)
            } else if opcode == 0x09 {
                spec_addiu(c, rs, rt, imm)
            } else if opcode == 0x0A {
                spec_slti(c, rs, rt, imm)
            } else if opcode == 0x0B {
                spec_sltiu(c, rs, rt, imm)
            } else if opcode == 0x0C {
                spec_andi(c, rs, rt, imm)
            } else if opcode == 0x0D {
                spec_ori(c, rs, rt, imm)
            } else if opcode == 0x0E {
                spec_xori(c, rs, rt, imm)
            } else if opcode == 0x0F {
                spec_lui(c, rt, imm)
            } else if opcode == 0x20 {
                spec_lb(c, rs, rt, imm)
            } else if opcode == 0x21 {
                spec_lh(c, rs, rt, imm)
            } else if opcode == 0x23 {
                spec_lw(c, rs, rt, imm)
            } else if opcode == 0x2B {
                spec_sw(c, rs, rt, imm)
            } else {
                c
            }
        },
    }
}

/// Branch on nonzero with a mandatory delay slot: the instruction at
/// PC + 4 executes first, as one nested cycle (skipped only when `fuel`
/// is exhausted).  The branch is then taken when the source register
/// holds any nonzero bit pattern — the register value is tested as
/// unsigned, so negative signed values also branch.  The target
/// arithmetic compensates for the nested cycle's advance and for the
/// trailing advance of the surrounding cycle.
pub open spec fn spec_bgtz(c: CoreView, rs: u8, imm: u16, fuel: nat) -> CoreView
    decreases fuel, 0int,
{
    let c1 = CoreView { pc: wrap_add(c.pc, 4), ..c };
    let c2 = if fuel > 0 {
        spec_clock(c1, (fuel - 1) as nat)
    } else {
        c1
    };
    let offset = sext16(((imm as nat * 4) % 0x1_0000) as u16);
    if reg_read(c2, rs) > 0 {
        CoreView { pc: wrap_sub(wrap_add(c2.pc, offset), 8), ..c2 }
    } else {
        c2
    }
}

/// Jump and link with a mandatory delay slot: the instruction at PC + 4
/// executes first, as one nested cycle (skipped only when `fuel` is
/// exhausted); the return-address register then receives PC + 4 as seen
/// after that nested cycle, and the program counter combines its own
/// segment bits with the shifted instruction index by bitwise and.
pub open spec fn spec_jal(c: CoreView, instr_index: u32, fuel: nat) -> CoreView
    decreases fuel, 0int,
{
    let c1 = CoreView { pc: wrap_add(c.pc, 4), ..c };
    let c2 = if fuel > 0 {
        spec_clock(c1, (fuel - 1) as nat)
    } else {
        c1
    };
    let c3 = reg_write(c2, REG_RETURN_ADDRESS, wrap_add(c2.pc, 4));
    CoreView { pc: (c3.pc & 0xC00_0000) & (instr_index << 2), ..c3 }
}

/// The architectural overflow test for a signed add, phrased over the
/// unsigned operands and the wrapped sum as the hardware computes it.
proof fn lemma_signed_add(a: u32, b: u32)
    ensures
        ((a < 0x8000_0000 && b < 0x8000_0000 && wrap_add(a, b) >= 0x8000_0000) || (a >= 0x8000_0000
            && b >= 0x8000_0000 && wrap_add(a, b) < 0x8000_0000)) == signed_add_overflows(a, b),
        !signed_add_overflows(a, b) ==> wrap_add(a, b) == to_unsigned(
            as_signed(a) + as_signed(b),
        ),
{
}

/// The architectural overflow test for a signed subtract, phrased over
/// the unsigned operands and the wrapped difference.
proof fn lemma_signed_sub(a: u32, b: u32)
    ensures
        ((a < 0x8000_0000 && b >= 0x8000_0000 && wrap_sub(a, b) >= 0x8000_0000) || (a
            >= 0x8000_0000 && b < 0x8000_0000 && wrap_sub(a, b) < 0x8000_0000))
            == signed_sub_overflows(a, b),
        !signed_sub_overflows(a, b) ==> wrap_sub(a, b) == to_unsigned(
            as_signed(a) - as_signed(b),
        ),
{
}

/// Sign-extend a 16-bit immediate to 32 bits.
fn sign_extend_16(imm: u16) -> (value: u32)
    ensures
        value == sext16(imm),
{
    if imm < 0x8000 {
        imm as u32
    } else {
        imm as u32 + 0xFFFF_0000
    }
}

/// Sign-extend an 8-bit value to 32 bits.
fn sign_extend_8(byte: u8) -> (value: u32)
    ensures
        value == sext8(byte),
{
    if byte < 0x80 {
        byte as u32
    } else {
        byte as u32 + 0xFFFF_FF00
    }
}

/// Compare two words as signed 32-bit values.
fn lt_signed(a: u32, b: u32) -> (result: bool)
    ensures
        result == (as_signed(a) < as_signed(b)),
{
    if a < 0x8000_0000 && b < 0x8000_0000 {
        a < b
    } else if a >= 0x8000_0000 && b >= 0x8000_0000 {
        a < b
    } else {
        a >= 0x8000_0000
    }
}

/// Count the set bits of a word.
fn count_set_bits(word: u32) -> (count: u32)
    ensures
        count == set_bits_below(word, 32),
{
    let mut count: u32 = 0;
    let mut i: u32 = 0;
    while i < 32
        invariant
            i <= 32,
            count == set_bits_below(word, i as nat),
            count <= i,
        decreases 32 - i,
    {
        if (word >> i) & 1 == 1 {
            count = count + 1;
        }
        i = i + 1;
    }
    count
}

/// Count the cleared bits of a word.
fn count_clear_bits(word: u32) -> (count: u32)
    ensures
        count == clear_bits_below(word, 32),
{
    let mut count: u32 = 0;
    let mut i: u32 = 0;
    while i < 32
        invariant
            i <= 32,
            count == clear_bits_below(word, i as nat),
            count <= i,
        decreases 32 - i,
    {
        if (word >> i) & 1 == 0 {
            count = count + 1;
        }
        i = i + 1;
    }
    count
}

/// The execution engine together with the architectural state it owns
/// exclusively: the register file, the memory image and the fault unit.
#[allow(non_snake_case)]
pub struct CPU {
    GPR: [u32; 32],
    HI: u32,
    LO: u32,
    PC: u32,
    MEM: RAM,
    CP0: ExceptionProcessor,
}

impl View for CPU {
    type V = CoreView;

    closed spec fn view(&self) -> CoreView {
        CoreView {
            gpr: self.GPR@,
            hi: self.HI,
            lo: self.LO,
            pc: self.PC,
            mem: self.MEM@,
            fault: self.CP0@,
        }
    }
}

impl CPU {
    /// A machine whose registers are all zero, executing against `ram`.
    pub fn new(ram: RAM) -> (cpu: CPU)
        ensures
            cpu@ == (CoreView {
                gpr: zero_regs(),
                hi: 0u32,
                lo: 0u32,
                pc: 0u32,
                mem: ram@,
                fault: (FaultView { bad_vaddr: 0u32, status: 0u32, cause: 0u32, epc: 0u32 }),
            }),
    {
        let cpu = CPU {
            GPR: [0; 32],
            HI: 0,
            LO: 0,
            PC: 0,
            MEM: ram,
            CP0: ExceptionProcessor::new(),
        };
        proof {
            assert(cpu.GPR@ =~= zero_regs());
        }
        cpu
    }

    /// Reset to the known start state: zero all general registers, load
    /// the program counter with the text-segment base address, and load
    /// the stack-pointer register with the conventional initial stack
    /// pointer.  HI, LO, memory and the fault registers keep their
    /// values.
    pub fn reset(&mut self)
        ensures
            final(self)@ == (CoreView { gpr: reset_regs(), pc: TEXT_BASE, ..old(self)@ }),
    {
        self.GPR = [0; 32];
        self.PC = TEXT_BASE;
        self.GPR[29] = STACK_POINTER_INIT;
        proof {
            assert(self.GPR@ =~= reset_regs());
        }
    }

    /// Read a register by unified index; see [`reg_read`] for the index
    /// space.  Register 0 reads as 0 under all conditions.
    pub fn read_reg(&self, number: u8) -> (value: u32)
        ensures
            value == reg_read(self@, number),
    {
        if number == 0 {
            0
        } else if number <= 31 {
            self.GPR[number as usize]
        } else if number == 32 {
            self.HI
        } else if number == 33 {
            self.LO
        } else if number == 34 {
            self.PC
        } else {
            0
        }
    }

    /// Write a register by unified index; see [`reg_write`].  Writes to
    /// register 0, HI, LO and out-of-range indices are discarded.
    pub fn write_reg(&mut self, number: u8, value: u32)
        ensures
            final(self)@ == reg_write(old(self)@, number, value),
    {
        if 1 <= number && number <= 31 {
            self.GPR[number as usize] = value;
        } else if number == 34 {
            self.PC = value;
        }
    }

    /// The memory image the engine executes against, for inspection.
    pub fn mem(&self) -> (ram: &RAM)
        ensures
            ram@ == self@.mem,
    {
        &self.MEM
    }

    /// The fault-status registers, for inspection.
    pub fn cp0(&self) -> (cp0: &ExceptionProcessor)
        ensures
            cp0@ == self@.fault,
    {
        &self.CP0
    }

    /// Bitwise and of two registers.
    #[allow(non_snake_case)]
    pub fn AND(&mut self, rs: u8, rt: u8, rd: u8)
        ensures
            final(self)@ == spec_and(old(self)@, rs, rt, rd),
    {
        let value: u32 = self.read_reg(rs) & self.read_reg(rt);
        self.write_reg(rd, value);
    }

    /// Bitwise and with the zero-extended immediate: no sign bit
    /// propagates into the upper half.
    #[allow(non_snake_case)]
    pub fn ANDI(&mut self, rs: u8, rt: u8, imm: u16)
        ensures
            final(self)@ == spec_andi(old(self)@, rs, rt, imm),
    {
        let value: u32 = self.read_reg(rs) & (imm as u32);
        self.write_reg(rt, value);
    }

    /// Bitwise or of two registers.
    #[allow(non_snake_case)]
    pub fn OR(&mut self, rs: u8, rt: u8, rd: u8)
        ensures
            final(self)@ == spec_or(old(self)@, rs, rt, rd),
    {
        let value: u32 = self.read_reg(rs) | self.read_reg(rt);
        self.write_reg(rd, value);
    }

    /// Bitwise or with the zero-extended immediate.
    #[allow(non_snake_case)]
    pub fn ORI(&mut self, rs: u8, rt: u8, imm: u16)
        ensures
            final(self)@ == spec_ori(old(self)@, rs, rt, imm),
    {
        let value: u32 = self.read_reg(rs) | (imm as u32);
        self.write_reg(rt, value);
    }

    /// Bitwise not-or of two registers.
    #[allow(non_snake_case)]
    pub fn NOR(&mut self, rs: u8, rt: u8, rd: u8)
        ensures
            final(self)@ == spec_nor(old(self)@, rs, rt, rd),
    {
        let value: u32 = !(self.read_reg(rs) | self.read_reg(rt));
        self.write_reg(rd, value);
    }

    /// Bitwise exclusive or of two registers.
    #[allow(non_snake_case)]
    pub fn XOR(&mut self, rs: u8, rt: u8, rd: u8)
        ensures
            final(self)@ == spec_xor(old(self)@, rs, rt, rd),
    {
        let value: u32 = self.read_reg(rs) ^ self.read_reg(rt);
        self.write_reg(rd, value);
    }

    /// Bitwise exclusive or with the zero-extended immediate.
    #[allow(non_snake_case)]
    pub fn XORI(&mut self, rs: u8, rt: u8, imm: u16)
        ensures
            final(self)@ == spec_xori(old(self)@, rs, rt, imm),
    {
        let value: u32 = self.read_reg(rs) ^ (imm as u32);
        self.write_reg(rt, value);
    }

    /// Set on less than, comparing the two registers as signed values.
    #[allow(non_snake_case)]
    pub fn SLT(&mut self, rs: u8, rt: u8, rd: u8)
        ensures
            final(self)@ == spec_slt(old(self)@, rs, rt, rd),
    {
        let a: u32 = self.read_reg(rs);
        let b: u32 = self.read_reg(rt);
        let value: u32 = if lt_signed(a, b) {
            1
        } else {
            0
        };
        self.write_reg(rd, value);
    }

    /// Set on less than the sign-extended immediate, comparing as signed
    /// values.
    #[allow(non_snake_case)]
    pub fn SLTI(&mut self, rs: u8, rt: u8, imm: u16)
        ensures
            final(self)@ == spec_slti(old(self)@, rs, rt, imm),
    {
        let a: u32 = self.read_reg(rs);
        let b: u32 = sign_extend_16(imm);
        let value: u32 = if lt_signed(a, b) {
            1
        } else {
            0
        };
        self.write_reg(rt, value);
    }

    /// Set on less than the sign-extended immediate, comparing as
    /// unsigned values.
    #[allow(non_snake_case)]
    pub fn SLTIU(&mut self, rs: u8, rt: u8, imm: u16)
        ensures
            final(self)@ == spec_sltiu(old(self)@, rs, rt, imm),
    {
        let a: u32 = self.read_reg(rs);
        let b: u32 = sign_extend_16(imm);
        let value: u32 = if a < b {
            1
        } else {
            0
        };
        self.write_reg(rt, value);
    }

    /// Load the immediate into the upper half of `rt`.
    #[allow(non_snake_case)]
    pub fn LUI(&mut self, rt: u8, imm: u16)
        ensures
            final(self)@ == spec_lui(old(self)@, rt, imm),
    {
        self.write_reg(rt, (imm as u32) << 16);
    }

    /// Jump to the address held in `rs`, compensating the trailing
    /// advance by 4 of the surrounding cycle.
    #[allow(non_snake_case)]
    pub fn JR(&mut self, rs: u8)
        ensures
            final(self)@ == spec_jr(old(self)@, rs),
    {
        let target: u32 = self.read_reg(rs).wrapping_sub(4);
        self.write_reg(REG_PC, target);
    }

    /// Move `rs` into `rd` only when `rt` is nonzero.
    #[allow(non_snake_case)]
    pub fn MOVN(&mut self, rs: u8, rt: u8, rd: u8)
        ensures
            final(self)@ == spec_movn(old(self)@, rs, rt, rd),
    {
        if self.read_reg(rt) != 0 {
            let value: u32 = self.read_reg(rs);
            self.write_reg(rd, value);
        }
    }

    /// Move `rs` into `rd` only when `rt` is zero.
    #[allow(non_snake_case)]
    pub fn MOVZ(&mut self, rs: u8, rt: u8, rd: u8)
        ensures
            final(self)@ == spec_movz(old(self)@, rs, rt, rd),
    {
        if self.read_reg(rt) == 0 {
            let value: u32 = self.read_reg(rs);
            self.write_reg(rd, value);
        }
    }

    /// Unsigned wraparound add; never faults.
    #[allow(non_snake_case)]
    pub fn ADDU(&mut self, rs: u8, rt: u8, rd: u8)
        ensures
            final(self)@ == spec_addu(old(self)@, rs, rt, rd),
    {
        let result: u32 = self.read_reg(rs).wrapping_add(self.read_reg(rt));
        self.write_reg(rd, result);
    }

    /// Unsigned wraparound add of the sign-extended immediate; never
    /// faults.
    #[allow(non_snake_case)]
    pub fn ADDIU(&mut self, rs: u8, rt: u8, imm: u16)
        ensures
            final(self)@ == spec_addiu(old(self)@, rs, rt, imm),
    {
        let offset: u32 = sign_extend_16(imm);
        let result: u32 = self.read_reg(rs).wrapping_add(offset);
        self.write_reg(rt, result);
    }

    /// Unsigned wraparound subtract; never faults.
    #[allow(non_snake_case)]
    pub fn SUBU(&mut self, rs: u8, rt: u8, rd: u8)
        ensures
            final(self)@ == spec_subu(old(self)@, rs, rt, rd),
    {
        let result: u32 = self.read_reg(rs).wrapping_sub(self.read_reg(rt));
        self.write_reg(rd, result);
    }

    /// Signed add: on overflow, record an integer-overflow fault and
    /// leave the destination register unmodified.
    #[allow(non_snake_case)]
    pub fn ADD(&mut self, rs: u8, rt: u8, rd: u8)
        ensures
            final(self)@ == spec_add(old(self)@, rs, rt, rd),
    {
        let a: u32 = self.read_reg(rs);
        let b: u32 = self.read_reg(rt);
        let result: u32 = a.wrapping_add(b);
        proof {
            lemma_signed_add(a, b);
        }
        let overflow: bool = (a < 0x8000_0000 && b < 0x8000_0000 && result >= 0x8000_0000) || (a
            >= 0x8000_0000 && b >= 0x8000_0000 && result < 0x8000_0000);
        if overflow {
            let epc: u32 = self.PC;
            self.CP0.throw_exception(0, CAUSE_INTEGER_OVERFLOW, epc);
        } else {
            self.write_reg(rd, result);
        }
    }

    /// Signed add of the sign-extended immediate: on overflow, record an
    /// integer-overflow fault and leave the destination unmodified.
    #[allow(non_snake_case)]
    pub fn ADDI(&mut self, rs: u8, rt: u8, imm: u16)
        ensures
            final(self)@ == spec_addi(old(self)@, rs, rt, imm),
    {
        let a: u32 = self.read_reg(rs);
        let b: u32 = sign_extend_16(imm);
        let result: u32 = a.wrapping_add(b);
        proof {
            lemma_signed_add(a, b);
        }
        let overflow: bool = (a < 0x8000_0000 && b < 0x8000_0000 && result >= 0x8000_0000) || (a
            >= 0x8000_0000 && b >= 0x8000_0000 && result < 0x8000_0000);
        if overflow {
            let epc: u32 = self.PC;
            self.CP0.throw_exception(0, CAUSE_INTEGER_OVERFLOW, epc);
        } else {
            self.write_reg(rt, result);
        }
    }

    /// Signed subtract: on overflow, record an integer-overflow fault
    /// and leave the destination register unmodified.
    #[allow(non_snake_case)]
    pub fn SUB(&mut self, rs: u8, rt: u8, rd: u8)
        ensures
            final(self)@ == spec_sub(old(self)@, rs, rt, rd),
    {
        let a: u32 = self.read_reg(rs);
        let b: u32 = self.read_reg(rt);
        let result: u32 = a.wrapping_sub(b);
        proof {
            lemma_signed_sub(a, b);
        }
        let overflow: bool = (a < 0x8000_0000 && b >= 0x8000_0000 && result >= 0x8000_0000) || (a
            >= 0x8000_0000 && b < 0x8000_0000 && result < 0x8000_0000);
        if overflow {
            let epc: u32 = self.PC;
            self.CP0.throw_exception(0, CAUSE_INTEGER_OVERFLOW, epc);
        } else {
            self.write_reg(rd, result);
        }
    }

    /// Count the set bits of `rs` into `rd`.
    #[allow(non_snake_case)]
    pub fn CLZ(&mut self, rs: u8, _rt: u8, rd: u8)
        ensures
            final(self)@ == spec_clz(old(self)@, rs, rd),
    {
        let value: u32 = self.read_reg(rs);
        let count: u32 = count_set_bits(value);
        self.write_reg(rd, count);
    }

    /// Count the cleared bits of `rs` into `rd`.
    #[allow(non_snake_case)]
    pub fn CLO(&mut self, rs: u8, _rt: u8, rd: u8)
        ensures
            final(self)@ == spec_clo(old(self)@, rs, rd),
    {
        let value: u32 = self.read_reg(rs);
        let count: u32 = count_clear_bits(value);
        self.write_reg(rd, count);
    }

    /// Observable system-call trap point: no syscall table exists in this
    /// scope, so the machine state is unchanged.
    #[allow(non_snake_case)]
    pub fn SYSCALL(&mut self)
        ensures
            final(self)@ == old(self)@,
    {
    }

    /// Load a byte from the effective address, sign-extended.
    #[allow(non_snake_case)]
    pub fn LB(&mut self, base: u8, rt: u8, imm: u16)
        ensures
            final(self)@ == spec_lb(old(self)@, base, rt, imm),
    {
        let offset: u32 = sign_extend_16(imm);
        let address: u32 = self.read_reg(base).wrapping_add(offset);
        let byte: u8 = self.MEM.read_byte(address);
        let value: u32 = sign_extend_8(byte);
        self.write_reg(rt, value);
    }

    /// Load a half from the effective address, sign-extended; a
    /// misaligned address records an address-error fault and the load
    /// still proceeds.
    #[allow(non_snake_case)]
    pub fn LH(&mut self, base: u8, rt: u8, imm: u16)
        ensures
            final(self)@ == spec_lh(old(self)@, base, rt, imm),
    {
        let offset: u32 = sign_extend_16(imm);
        let address: u32 = self.read_reg(base).wrapping_add(offset);
        if address % 2 != 0 {
            let epc: u32 = self.PC;
            self.CP0.throw_exception(address, CAUSE_ADDRESS_ERROR_LOAD, epc);
        }
        let half: u16 = self.MEM.read_half(address);
        let value: u32 = sign_extend_16(half);
        self.write_reg(rt, value);
    }

    /// Load a word from the effective address; a misaligned address
    /// records an address-error fault and the load still proceeds.
    #[allow(non_snake_case)]
    pub fn LW(&mut self, base: u8, rt: u8, imm: u16)
        ensures
            final(self)@ == spec_lw(old(self)@, base, rt, imm),
    {
        let offset: u32 = sign_extend_16(imm);
        let address: u32 = self.read_reg(base).wrapping_add(offset);
        if address % 4 != 0 {
            let epc: u32 = self.PC;
            self.CP0.throw_exception(address, CAUSE_ADDRESS_ERROR_LOAD, epc);
        }
        let word: u32 = self.MEM.read_word(address);
        self.write_reg(rt, word);
    }

    /// Store the full value of `rt` at the effective address; a
    /// misaligned address records an address-error fault and the store
    /// still proceeds.
    #[allow(non_snake_case)]
    pub fn SW(&mut self, base: u8, rt: u8, offset: u16)
        ensures
            final(self)@ == spec_sw(old(self)@, base, rt, offset),
    {
        let displacement: u32 = sign_extend_16(offset);
        let address: u32 = self.read_reg(base).wrapping_add(displacement);
        if address % 4 != 0 {
            let epc: u32 = self.PC;
            self.CP0.throw_exception(address, CAUSE_ADDRESS_ERROR_STORE, epc);
        }
        let value: u32 = self.read_reg(rt);
        self.MEM.write_word(address, value);
    }

    /// Branch on a nonzero source register, executing the delay slot at
    /// PC + 4 first; see [`spec_bgtz`].
    #[allow(non_snake_case)]
    fn BGTZ(&mut self, rs: u8, imm: u16, fuel: u32)
        ensures
            final(self)@ == spec_bgtz(old(self)@, rs, imm, fuel as nat),
        decreases fuel, 0int,
    {
        self.PC = self.PC.wrapping_add(4);
        if fuel > 0 {
            self.step_depth(fuel - 1);
        }
        let scaled: u16 = imm.wrapping_mul(4);
        let offset: u32 = sign_extend_16(scaled);
        let value: u32 = self.read_reg(rs);
        if value > 0 {
            self.PC = self.PC.wrapping_add(offset).wrapping_sub(8);
        }
    }

    /// Jump and link, executing the delay slot at PC + 4 first; see
    /// [`spec_jal`].
    #[allow(non_snake_case)]
    fn JAL(&mut self, instr_index: u32, fuel: u32)
        ensures
            final(self)@ == spec_jal(old(self)@, instr_index, fuel as nat),
        decreases fuel, 0int,
    {
        self.PC = self.PC.wrapping_add(4);
        if fuel > 0 {
            self.step_depth(fuel - 1);
        }
        let return_address: u32 = self.PC.wrapping_add(4);
        self.write_reg(REG_RETURN_ADDRESS, return_address);
        let pc_part: u32 = self.PC & 0xC00_0000;
        let target: u32 = pc_part & (instr_index << 2);
        self.PC = target;
    }

    /// One cycle at the given delay-slot fuel: fetch, decode, dispatch,
    /// then advance the program counter by 4.
    fn step_depth(&mut self, fuel: u32)
        ensures
            final(self)@ == spec_clock(old(self)@, fuel as nat),
        decreases fuel, 2int,
    {
        let word: u32 = self.MEM.read_word(self.PC);
        let inst: DecodedInstruction = decode(word);
        match inst {
            DecodedInstruction::Register { opcode, rs, rt, rd, funct } => {
                if opcode == 0x00 {
                    match funct {
                        0x0A => self.MOVZ(rs, rt, rd),
                        0x0B => self.MOVN(rs, rt, rd),
                        0x24 => self.AND(rs, rt, rd),
                        0x2A => self.SLT(rs, rt, rd),
                        0x08 => self.JR(rs),
                        0x20 => self.ADD(rs, rt, rd),
                        0x21 => self.ADDU(rs, rt, rd),
                        0x22 => self.SUB(rs, rt, rd),
                        0x23 => self.SUBU(rs, rt, rd),
                        0x25 => self.OR(rs, rt, rd),
                        0x26 => self.XOR(rs, rt, rd),
                        0x27 => self.NOR(rs, rt, rd),
                        0x0C => self.SYSCALL(),
                        _ => (),
                    }
                } else {
                    match funct {
                        0x1C => self.CLZ(rs, rt, rd),
                        0x21 => self.CLO(rs, rt, rd),
                        _ => (),
                    }
                }
            },
            DecodedInstruction::Immediate { opcode, rs, rt, imm } => {
                match opcode {
                    0x03 => self.JAL(word & 0x03FF_FFFF, fuel),
                    0x07 => self.BGTZ(rs, imm, fuel),
                    0x08 => self.ADDI(rs, rt, imm),
                    0x09 => self.ADDIU(rs, rt, imm),
                    0x0A => self.SLTI(rs, rt, imm),
                    0x0B => self.SLTIU(rs, rt, imm),
                    0x0C => self.ANDI(rs, rt, imm),
                    0x0D => self.ORI(rs, rt, imm),
                    0x0E => self.XORI(rs, rt, imm),
                    0x0F => self.LUI(rt, imm),
                    0x20 => self.LB(rs, rt, imm),
                    0x21 => self.LH(rs, rt, imm),
                    0x23 => self.LW(rs, rt, imm),
                    0x2B => self.SW(rs, rt, imm),
                    _ => (),
                }
            },
        }
        proof {
            assert(self@ == spec_dispatch(old(self)@, word, fuel as nat));
        }
        self.PC = self.PC.wrapping_add(4);
    }

    /// Advance the machine by one clock cycle: fetch the word at the
    /// program counter, decode it, execute it (including any delay slot
    /// a branch or jump demands, up to [`DELAY_SLOT_BOUND`] nested
    /// cycles), and advance the program counter by 4.
    pub fn clock(&mut self)
        ensures
            final(self)@ == spec_clock(old(self)@, DELAY_SLOT_BOUND as nat),
    {
        self.step_depth(DELAY_SLOT_BOUND);
    }
}

/// A write to any general register 1-31 is read back unchanged, and
/// register 0 reads as 0 after a write of any value to any register —
/// for every machine state, register index and value.
pub proof fn lemma_register_write_read(c: CoreView, number: u8, value: u32)
    requires
        c.gpr.len() == 32,
    ensures
        1 <= number <= 31 ==> reg_read(reg_write(c, number, value), number) == value,
        forall|n: u8| reg_read(#[trigger] reg_write(c, n, value), 0) == 0,
{
}

} // verus!
