//! Failures of the virtual machine.

use vstd::prelude::*;

verus! {

/// Why a program could not be loaded or an instruction could not be carried
/// out. Each failure follows from the program bytes and the machine state;
/// none is transient.
#[derive(Clone, Copy, Debug, PartialEq, Eq, Structural)]
pub enum Chip8Error {
    /// The word fetched at `address` matches no instruction.
    UnknownInstruction { address: u16, word: u16 },
    /// A call was made with the call stack already full.
    StackOverflow { program_counter: u16, depth: usize },
    /// A return was made with the call stack empty.
    StackUnderflow { program_counter: u16, depth: usize },
    /// An access of `length` bytes starting at `address` reaches past the
    /// end of memory.
    MemoryOutOfBounds { address: u16, length: u16 },
    /// The program does not fit into memory from `0x200` on.
    ProgramTooLarge { size: usize },
}

} // verus!
