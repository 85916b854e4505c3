use vstd::prelude::*;
use crate::instruction::Instruction;

verus! {

/// Why an instruction, or the construction of a machine, failed.
#[derive(Clone, Copy, Debug, PartialEq, Eq, Structural)]
pub enum EmuErr {
    /// The program does not fit between the program start and the end of memory.
    ProgramLength { pg_len: usize, max_len: usize },
    /// The opcode matched no rule of the dispatch table.
    BadInstruction { pc: u16, instruction: Instruction },
    /// The program counter leaves no room for a two-byte fetch.
    PcOutOfBounds { pc: u16 },
    /// A return found the call stack empty.
    StackUnderflow { sp: usize },
    /// A call found the call stack full.
    StackOverflow { sp: usize },
    /// `ireg + offset` reaches past the end of memory.
    IregOverflow { ireg: u16, offset: u16 },
}

} // verus!
