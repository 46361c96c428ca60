//! The execution context: the place in the code, the cursor over the
//! operands of the instruction at that place, and the X registers.
//!
//! Operands come as they stand in the code: a literal, or a reference to a
//! register or to a stack slot. `load` follows such a reference, `store`
//! writes through one. Both treat every source and every destination alike.

use vstd::prelude::*;
use crate::defs::Word;
use crate::emulator::heap::{slot_position, Heap};
use crate::rt_defs::{Fault, MAX_XREGS};
use crate::term::lterm::{LTerm, TermView, NIL_WORD};

verus! {

/// One decoded instruction: the opcode and the operands that came with it.
pub struct Instruction {
    pub opcode: Word,
    pub args: Vec<LTerm>,
}

/// The state of a run of code.
pub struct Context {
    /// The code being run.
    pub code: Vec<Instruction>,
    /// The place of the current instruction in the code.
    pub ip: usize,
    /// The number of operands of the current instruction already fetched.
    pub arg: usize,
    /// The X registers.
    pub regs: Vec<LTerm>,
}

/// The value that the operand `src` stands for: the contents of the register
/// or stack slot it refers to, or itself where it refers to none.
pub open spec fn load_spec(regs: Seq<LTerm>, stack: Seq<LTerm>, src: LTerm) -> Result<LTerm, Fault> {
    match src@ {
        TermView::RegX(i) => if i < regs.len() {
            Ok(regs[i as int])
        } else {
            Err(Fault::RegisterRange { index: i as Word })
        },
        TermView::RegY(i) => if i < stack.len() {
            Ok(stack[slot_position(stack.len(), i)])
        } else {
            Err(Fault::StackRange { index: i as Word })
        },
        _ => Ok(src),
    }
}

/// The registers and the stack after the value of `src` has been written to
/// the place that `dst` refers to.
pub open spec fn store_spec(regs: Seq<LTerm>, stack: Seq<LTerm>, src: LTerm, dst: LTerm) -> Result<
    (Seq<LTerm>, Seq<LTerm>),
    Fault,
> {
    match load_spec(regs, stack, src) {
        Err(fault) => Err(fault),
        Ok(val) => match dst@ {
            TermView::RegX(i) => if i < regs.len() {
                Ok((regs.update(i as int, val), stack))
            } else {
                Err(Fault::RegisterRange { index: i as Word })
            },
            TermView::RegY(i) => if i < stack.len() {
                Ok((regs, stack.update(slot_position(stack.len(), i), val)))
            } else {
                Err(Fault::StackRange { index: i as Word })
            },
            other => Err(Fault::NotWritable(other.category())),
        },
    }
}

impl Context {
    /// The register file is complete.
    pub open spec fn wf(&self) -> bool {
        self.regs@.len() == MAX_XREGS
    }

    /// The operands of the current instruction, where there is one.
    pub open spec fn operands(&self) -> Option<Seq<LTerm>> {
        if self.ip < self.code@.len() {
            Some(self.code@[self.ip as int].args@)
        } else {
            None
        }
    }

    /// The operand that the next fetch gives, where there is one.
    pub open spec fn next_operand(&self) -> Option<LTerm> {
        match self.operands() {
            Some(args) => if self.arg < args.len() {
                Some(args[self.arg as int])
            } else {
                None
            },
            None => None,
        }
    }

    /// A context at the start of `code`, every register holding the empty
    /// list.
    pub fn new(code: Vec<Instruction>) -> (ctx: Context)
        ensures
            ctx.wf(),
            ctx.code == code,
            ctx.ip == 0,
            ctx.arg == 0,
            forall|i: int| 0 <= i < MAX_XREGS ==> (#[trigger] ctx.regs@[i]).value == NIL_WORD,
    {
        let mut regs: Vec<LTerm> = Vec::with_capacity(MAX_XREGS);
        let mut i: usize = 0;
        while i < MAX_XREGS
            invariant
                0 <= i <= MAX_XREGS,
                regs@.len() == i,
                forall|k: int| 0 <= k < i ==> (#[trigger] regs@[k]).value == NIL_WORD,
            decreases MAX_XREGS - i,
        {
            regs.push(LTerm::nil());
            i += 1;
        }
        Context { code, ip: 0, arg: 0, regs }
    }

    /// The opcode of the current instruction, where there is one.
    pub fn current_opcode(&self) -> (r: Option<Word>)
        ensures
            r == if self.ip < self.code@.len() {
                Some(self.code@[self.ip as int].opcode)
            } else {
                None
            },
    {
        if self.ip < self.code.len() {
            Some(self.code[self.ip].opcode)
        } else {
            None
        }
    }

    /// The number of operands that the current instruction was decoded with,
    /// where there is an instruction.
    pub fn decoded_arity(&self) -> (r: Option<usize>)
        ensures
            match self.operands() {
                Some(args) => r is Some && r->Some_0 == args.len(),
                None => r is None,
            },
    {
        if self.ip < self.code.len() {
            Some(self.code[self.ip].args.len())
        } else {
            None
        }
    }

    /// Gives the next operand of the current instruction as it stands in the
    /// code, and moves the cursor past it. Where no operand is left the
    /// cursor stays.
    pub fn fetch_term(&mut self) -> (r: Result<LTerm, Fault>)
        ensures
            final(self).code == old(self).code,
            final(self).ip == old(self).ip,
            final(self).regs == old(self).regs,
            match old(self).next_operand() {
                Some(t) => r == Ok::<LTerm, Fault>(t) && final(self).arg == old(self).arg + 1,
                None => r == Err::<LTerm, Fault>(Fault::OperandRange) && final(self).arg == old(self).arg,
            },
    {
        if self.ip < self.code.len() && self.arg < self.code[self.ip].args.len() {
            let t = self.code[self.ip].args[self.arg];
            self.arg = self.arg + 1;
            Ok(t)
        } else {
            Err(Fault::OperandRange)
        }
    }

    /// Reads the value of an operand: the register or stack slot it refers
    /// to, otherwise the term itself.
    pub fn load(&self, src: LTerm, hp: &Heap) -> (r: Result<LTerm, Fault>)
        ensures
            r == load_spec(self.regs@, hp.stack@, src),
    {
        if let Ok(index) = src.regx_get() {
            if index < self.regs.len() as u64 {
                Ok(self.regs[index as usize])
            } else {
                Err(Fault::RegisterRange { index })
            }
        } else if let Ok(index) = src.regy_get() {
            hp.stack_get_y(index)
        } else {
            Ok(src)
        }
    }

    /// Copies the value of `src`, which may be a literal, a register or a
    /// stack slot, to `dst`, a register or a stack slot. On a fault nothing is
    /// written.
    pub fn store(&mut self, src: LTerm, dst: LTerm, hp: &mut Heap) -> (r: Result<(), Fault>)
        ensures
            final(self).code == old(self).code,
            final(self).ip == old(self).ip,
            final(self).arg == old(self).arg,
            match store_spec(old(self).regs@, old(hp).stack@, src, dst) {
                Ok((regs, stack)) => r == Ok::<(), Fault>(()) && final(self).regs@ == regs && final(hp).stack@
                    == stack,
                Err(fault) => r == Err::<(), Fault>(fault) && *final(self) == *old(self) && *final(hp) == *old(
                    hp,
                ),
            },
    {
        let val = match self.load(src, hp) {
            Ok(v) => v,
            Err(fault) => {
                return Err(fault);
            },
        };
        if let Ok(index) = dst.regx_get() {
            if index < self.regs.len() as u64 {
                self.regs[index as usize] = val;
                Ok(())
            } else {
                Err(Fault::RegisterRange { index })
            }
        } else if let Ok(index) = dst.regy_get() {
            hp.stack_set_y(index, val)
        } else {
            Err(Fault::NotWritable(dst.category()))
        }
    }
}

} // verus!
