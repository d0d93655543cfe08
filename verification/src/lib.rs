//! A virtual machine for a fixed-width 64-bit bytecode: a flat, bounds-checked
//! memory behind a bus, a CPU with 32 general-purpose registers that fetches,
//! decodes and executes packed instruction words, and a small lexer for the
//! textual assembly front-end.

use vstd::prelude::*;

pub mod cpu;
pub mod exceptions;
pub mod lexer;
pub mod memory;
pub mod stringutils;
pub mod token;

verus! {

/// Sum of two 64-bit values; the caller must keep the sum in range.
pub fn add(left: u64, right: u64) -> (r: u64)
    requires
        left + right <= u64::MAX,
    ensures
        r == left + right,
{
    left + right
}

} // verus!
