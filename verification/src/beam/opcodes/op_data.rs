//! Opcodes that read, write and move data.

use vstd::prelude::*;
use crate::beam::gen_op::{OPCODE_MAKE_FUN2, OPCODE_MOVE};
use crate::beam::opcodes::arity::{check_entry, entry_fault};
use crate::defs::Word;
use crate::emulator::process::Process;
use crate::emulator::runtime_ctx::{store_spec, Context};
use crate::rt_defs::{DispatchResult, Fault};
use crate::term::lterm::{tag_mismatch, Category, LTerm, TermView};

verus! {

/// What `move` does to the registers and the stack of a process, or the
/// fault it stops with.
pub open spec fn move_spec(ctx: Context, p: Process) -> Result<(Seq<LTerm>, Seq<LTerm>), Fault> {
    match entry_fault(ctx, OPCODE_MOVE) {
        Some(fault) => Err(fault),
        None => {
            let args = ctx.operands()->Some_0;
            store_spec(ctx.regs@, p.heap.stack@, args[0], args[1])
        },
    }
}

/// The fault that `make_fun2` stops with.
pub open spec fn make_fun2_spec(ctx: Context) -> Fault {
    match entry_fault(ctx, OPCODE_MAKE_FUN2) {
        Some(fault) => fault,
        None => {
            let args = ctx.operands()->Some_0;
            match args[0]@ {
                TermView::Boxed(_) => Fault::NotImplemented { opcode: OPCODE_MAKE_FUN2 },
                _ => Fault::BadTag(tag_mismatch(Category::Boxed, args[0]@)),
            }
        },
    }
}

/// An instruction that was decoded with another number of operands than
/// `move` takes stops with an arity mismatch, whatever its operands are.
pub proof fn lemma_move_checks_arity(ctx: Context, p: Process)
    requires
        ctx.operands() is Some,
        ctx.operands()->Some_0.len() != 2,
    ensures
        move_spec(ctx, p) == Err::<(Seq<LTerm>, Seq<LTerm>), Fault>(
            Fault::ArityMismatch {
                opcode: OPCODE_MOVE,
                expected: 2,
                decoded: ctx.operands()->Some_0.len() as Word,
            },
        ),
{
}

/// Load a value from `src` and store it into `dst`. Source can be any literal
/// term, a register or a stack cell. Destination can be any register or a
/// stack cell.
///
/// Structure: move(src:src, dst:dst)
pub fn opcode_move(ctx: &mut Context, curr_p: &mut Process) -> (r: DispatchResult)
    ensures
        final(ctx).code == old(ctx).code,
        final(ctx).ip == old(ctx).ip,
        match move_spec(*old(ctx), *old(curr_p)) {
            Ok((regs, stack)) => {
                &&& r == DispatchResult::Normal
                &&& final(ctx).regs@ == regs
                &&& final(curr_p).heap.stack@ == stack
                &&& final(ctx).arg == 2
            },
            Err(fault) => {
                &&& r == DispatchResult::Fault(fault)
                &&& *final(ctx) == *old(ctx)
                &&& *final(curr_p) == *old(curr_p)
            },
        },
{
    match check_entry(ctx, OPCODE_MOVE) {
        Err(fault) => {
            return DispatchResult::Fault(fault);
        },
        Ok(()) => {},
    }
    let src = match ctx.fetch_term() {
        Ok(t) => t,
        Err(fault) => {
            return DispatchResult::Fault(fault);
        },
    };
    let dst = match ctx.fetch_term() {
        Ok(t) => t,
        Err(fault) => {
            ctx.arg = 0;
            return DispatchResult::Fault(fault);
        },
    };
    match ctx.store(src, dst, &mut curr_p.heap) {
        Ok(()) => DispatchResult::Normal,
        Err(fault) => {
            ctx.arg = 0;
            DispatchResult::Fault(fault)
        },
    }
}

/// Takes the boxed reference to a function entry from the operands. Making
/// the closure itself is not implemented: the instruction stops with a fault
/// that says so, after its operand has been found to be a box.
///
/// Structure: make_fun2(lambda_index)
pub fn opcode_make_fun2(ctx: &mut Context, curr_p: &mut Process) -> (r: DispatchResult)
    ensures
        r == DispatchResult::Fault(make_fun2_spec(*old(ctx))),
        *final(ctx) == *old(ctx),
        *final(curr_p) == *old(curr_p),
{
    match check_entry(ctx, OPCODE_MAKE_FUN2) {
        Err(fault) => {
            return DispatchResult::Fault(fault);
        },
        Ok(()) => {},
    }
    let fe_box = match ctx.fetch_term() {
        Ok(t) => t,
        Err(fault) => {
            return DispatchResult::Fault(fault);
        },
    };
    ctx.arg = 0;
    match fe_box.box_ptr() {
        Ok(_) => DispatchResult::Fault(Fault::NotImplemented { opcode: OPCODE_MAKE_FUN2 }),
        Err(mismatch) => DispatchResult::Fault(Fault::BadTag(mismatch)),
    }
}

} // verus!
