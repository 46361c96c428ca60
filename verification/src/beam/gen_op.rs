//! Opcode numbers and the number of operands that each opcode takes.

use vstd::prelude::*;
use crate::defs::Word;

verus! {

/// `move(src, dst)`
pub const OPCODE_MOVE: Word = 64;

/// `make_fun2(lambda_index)`
pub const OPCODE_MAKE_FUN2: Word = 103;

/// The number of operands declared for an opcode, for the opcodes that have
/// a handler.
pub open spec fn arity_spec(opcode: Word) -> Option<Word> {
    if opcode == OPCODE_MOVE {
        Some(2)
    } else if opcode == OPCODE_MAKE_FUN2 {
        Some(1)
    } else {
        None
    }
}

/// The number of operands declared for an opcode.
pub fn opcode_arity(opcode: Word) -> (r: Option<Word>)
    ensures
        r == arity_spec(opcode),
{
    if opcode == OPCODE_MOVE {
        Some(2)
    } else if opcode == OPCODE_MAKE_FUN2 {
        Some(1)
    } else {
        None
    }
}

} // verus!
