//! The closed set of faults the machine can raise. Every fault carries the
//! offending value and is returned to the caller as the error side of a
//! `Result`; nothing is retried or swallowed inside the core.

use vstd::prelude::*;

verus! {

/// One fault raised by the bus, the memory or the CPU.
#[derive(Debug, PartialEq, Eq, Structural)]
pub enum Exception {
    /// An address outside the window `[MEMORY_START_ADDRESS, MEMORY_START_ADDRESS + MEMORY_SIZE]`,
    /// or an access that does not fit inside the memory's capacity.
    AddressNotInMemoryBounds(u64),
    /// A width that is not one of 8, 16, 32 or 64 bits.
    IllegalSizeArgument(usize),
    /// An instruction fetch failed at this address.
    InstructionAccessFaultOnAddress(u64),
    /// A conditional-jump condition nibble outside the defined set.
    UnexpectedCondition(u64),
    /// A 16-bit opcode that matches no defined instruction.
    UnexpectedOpcode(u64),
    /// A division instruction whose divisor register holds zero.
    DivisionByZero,
}

} // verus!
