//! Definitions shared by the running machine: the size of the register file,
//! the faults of a process and what an instruction answers to the loop that
//! dispatched it.

use vstd::prelude::*;
use crate::defs::Word;
use crate::term::lterm::{Category, TagError};

verus! {

/// The number of X registers of a process.
pub const MAX_XREGS: usize = 256;

/// Why an instruction could not be carried out. A fault concerns the one
/// process that ran the instruction and leaves its registers, its stack and
/// its place in the code as they were before the instruction.
#[derive(Clone, Copy, Debug, PartialEq, Eq, Structural)]
pub enum Fault {
    /// The instruction came with `decoded` operands where its opcode takes
    /// `expected`.
    ArityMismatch { opcode: Word, expected: Word, decoded: Word },
    /// An operand was asked for where the instruction has none left, or
    /// where there is no instruction.
    OperandRange,
    /// An operand is of another category than the instruction takes.
    BadTag(TagError),
    /// An X register that the register file does not have.
    RegisterRange { index: Word },
    /// A stack slot below the bottom of the stack.
    StackRange { index: Word },
    /// The destination is neither a register nor a stack slot.
    NotWritable(Category),
    /// The opcode has no handler, or none that is complete.
    NotImplemented { opcode: Word },
}

/// What the dispatch of one instruction answers.
#[derive(Clone, Copy, Debug, PartialEq, Eq, Structural)]
pub enum DispatchResult {
    /// Go on with the next instruction.
    Normal,
    /// There is no instruction left to run.
    Finished,
    /// The process stops with a fault.
    Fault(Fault),
}

} // verus!
