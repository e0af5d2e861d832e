//! Minimal fault-status holder, the exception coprocessor's register
//! bank: faulting address, status, cause, and the saved faulting program
//! counter.
//!
//! Signaling a fault is observation-only in this scope: the engine records
//! the most recent fault here and execution continues.  There is no
//! handler dispatch, privileged mode or return-from-exception.

use vstd::prelude::*;

verus! {

/// Cause code recorded for a misaligned 2- or 4-byte load.
pub const CAUSE_ADDRESS_ERROR_LOAD: u32 = 4;

/// Cause code recorded for a misaligned 4-byte store.
pub const CAUSE_ADDRESS_ERROR_STORE: u32 = 5;

/// Cause code recorded for signed add/subtract overflow.
pub const CAUSE_INTEGER_OVERFLOW: u32 = 12;

/// Status value recorded while a fault is the most recent event: the
/// exception-level bit.
pub const STATUS_EXCEPTION_LEVEL: u32 = 2;

/// Mathematical model of the fault-status registers.
pub ghost struct FaultView {
    pub bad_vaddr: u32,
    pub status: u32,
    pub cause: u32,
    pub epc: u32,
}

/// Fault-status register bank.
#[allow(non_snake_case)]
pub struct ExceptionProcessor {
    BadVAddr: u32,
    Status: u32,
    Cause: u32,
    EPC: u32,
}

impl View for ExceptionProcessor {
    type V = FaultView;

    closed spec fn view(&self) -> FaultView {
        FaultView {
            bad_vaddr: self.BadVAddr,
            status: self.Status,
            cause: self.Cause,
            epc: self.EPC,
        }
    }
}

impl ExceptionProcessor {
    /// A fresh bank with every register zero: no fault has been observed.
    pub fn new() -> (cp0: ExceptionProcessor)
        ensures
            cp0@ == (FaultView { bad_vaddr: 0u32, status: 0u32, cause: 0u32, epc: 0u32 }),
    {
        ExceptionProcessor { BadVAddr: 0, Status: 0, Cause: 0, EPC: 0 }
    }

    /// Record a fault: the faulting address (0 for faults without one),
    /// its cause code, and the program counter of the faulting
    /// instruction.  The status register is set to the exception-level
    /// bit.  Observation-only: control flow is never redirected.
    pub fn throw_exception(&mut self, bad_vaddr: u32, cause: u32, epc: u32)
        ensures
            final(self)@ == (FaultView { bad_vaddr, status: STATUS_EXCEPTION_LEVEL, cause, epc }),
    {
        self.BadVAddr = bad_vaddr;
        self.Status = STATUS_EXCEPTION_LEVEL;
        self.Cause = cause;
        self.EPC = epc;
    }

    /// The address whose access faulted most recently.
    pub fn bad_vaddr(&self) -> (value: u32)
        ensures
            value == self@.bad_vaddr,
    {
        self.BadVAddr
    }

    /// The recorded status register.
    pub fn status(&self) -> (value: u32)
        ensures
            value == self@.status,
    {
        self.Status
    }

    /// The cause code of the most recent fault.
    pub fn cause(&self) -> (value: u32)
        ensures
            value == self@.cause,
    {
        self.Cause
    }

    /// The program counter of the instruction whose execution faulted
    /// most recently.
    pub fn epc(&self) -> (value: u32)
        ensures
            value == self@.epc,
    {
        self.EPC
    }

    /// Observe a system-call trap.  Reads the call number from register 2
    /// by convention; there is no syscall table in this scope, so the
    /// machine state is left unchanged.
    pub fn syscall(&self, cpu: &mut crate::cpu::CPU)
        ensures
            final(cpu)@ == old(cpu)@,
    {
        let _syscall_number: u32 = cpu.read_reg(2);
    }
}

} // verus!
