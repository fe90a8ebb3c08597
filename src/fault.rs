use vstd::prelude::*;

verus! {

/// A condition that stops the machine: the program did something the
/// machine cannot carry out.
#[derive(Clone, Copy, Debug, PartialEq, Eq, Structural)]
pub enum Fault {
    /// A `0NNN` call into native machine code, which this machine does not provide.
    MachineCodeCall(u16),
    /// A word that encodes no instruction.
    UnknownInstruction(u16),
    /// A subroutine call with all sixteen stack entries in use.
    StackOverflow,
    /// A return with an empty stack.
    StackUnderflow,
    /// A memory access, starting at the given address, that reaches beyond
    /// the end of memory.
    AddressOutOfRange(u16),
    /// A key test on a register whose value names no key.
    InvalidKey(u8),
}

} // verus!
