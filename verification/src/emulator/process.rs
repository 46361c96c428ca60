//! A process: the unit of execution, with memory of its own.

use vstd::prelude::*;
use crate::emulator::heap::Heap;
use crate::term::lterm::LTerm;

verus! {

/// One process of the machine.
pub struct Process {
    /// The memory of the process, with its stack.
    pub heap: Heap,
}

impl Process {
    /// A process with an empty stack.
    pub fn new() -> (p: Process)
        ensures
            p.heap.stack@ == Seq::<LTerm>::empty(),
    {
        Process { heap: Heap::new() }
    }
}

} // verus!
