//! The faults that end interpretation.

use vstd::prelude::*;

verus! {

/// A fatal condition met while executing a program. Each carries what a
/// diagnostic needs: the instruction word or the address involved.
#[derive(Clone, Copy, Debug, PartialEq, Eq, Structural)]
pub enum Fault {
    /// No pattern of the table matched this instruction word.
    UnsupportedInstruction(u16),
    /// A return was executed, at this address, with an empty call stack.
    StackUnderflow(u16),
    /// An access of `len` bytes starting at `addr` reaches past the memory.
    OutOfBoundsAccess { addr: usize, len: usize },
}

} // verus!
