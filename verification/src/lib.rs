//! Interpreter core for a subset of a 32-bit load/store instruction set:
//! architectural state (register file, program counter, fault-status
//! registers), a flat little-endian byte-addressable memory image, and the
//! fetch-decode-dispatch-execute engine that advances the machine one clock
//! cycle at a time.

pub mod cpu;
pub mod decoder;
pub mod exceptionprocessor;
pub mod ram;
