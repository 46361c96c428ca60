//! The heap of a process, of which this layer knows the stack.

use vstd::prelude::*;
use crate::defs::Word;
use crate::rt_defs::Fault;
use crate::term::lterm::LTerm;

verus! {

/// The memory of one process.
pub struct Heap {
    /// The stack, the bottom first. A Y register counts from the other end:
    /// slot 0 is the top of the stack.
    pub stack: Vec<LTerm>,
}

/// The place in a stack of `depth` cells of the slot `index` counted from the
/// top.
pub open spec fn slot_position(depth: nat, index: nat) -> int {
    depth - 1 - index
}

impl Heap {
    /// A heap with an empty stack.
    pub fn new() -> (hp: Heap)
        ensures
            hp.stack@ == Seq::<LTerm>::empty(),
    {
        Heap { stack: Vec::new() }
    }

    /// The number of cells on the stack.
    pub fn stack_depth(&self) -> (n: usize)
        ensures
            n == self.stack@.len(),
    {
        self.stack.len()
    }

    /// Puts a cell on top of the stack.
    pub fn stack_push(&mut self, val: LTerm)
        ensures
            final(self).stack@ == old(self).stack@.push(val),
    {
        self.stack.push(val);
    }

    /// Reads the stack slot `index`, counted from the top of the stack.
    pub fn stack_get_y(&self, index: Word) -> (r: Result<LTerm, Fault>)
        ensures
            r == if index < self.stack@.len() {
                Ok::<LTerm, Fault>(self.stack@[slot_position(self.stack@.len(), index as nat)])
            } else {
                Err::<LTerm, Fault>(Fault::StackRange { index })
            },
    {
        let depth = self.stack.len();
        if index < depth as u64 {
            Ok(self.stack[depth - 1 - index as usize])
        } else {
            Err(Fault::StackRange { index })
        }
    }

    /// Writes the stack slot `index`, counted from the top of the stack.
    pub fn stack_set_y(&mut self, index: Word, val: LTerm) -> (r: Result<(), Fault>)
        ensures
            index < old(self).stack@.len() ==> r == Ok::<(), Fault>(()) && final(self).stack@ == old(
                self,
            ).stack@.update(slot_position(old(self).stack@.len(), index as nat), val),
            index >= old(self).stack@.len() ==> r == Err::<(), Fault>(Fault::StackRange { index })
                && *final(self) == *old(self),
    {
        let depth = self.stack.len();
        if index < depth as u64 {
            self.stack[depth - 1 - index as usize] = val;
            Ok(())
        } else {
            Err(Fault::StackRange { index })
        }
    }
}

} // verus!
