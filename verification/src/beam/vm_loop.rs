//! The dispatch of one instruction.

use vstd::prelude::*;
use crate::beam::gen_op::{OPCODE_MAKE_FUN2, OPCODE_MOVE};
use crate::beam::opcodes::op_data::{make_fun2_spec, move_spec, opcode_make_fun2, opcode_move};
use crate::emulator::process::Process;
use crate::emulator::runtime_ctx::Context;
use crate::rt_defs::{DispatchResult, Fault};

verus! {

/// Runs the current instruction of `ctx` for the process `curr_p` and
/// answers how the run goes on. After `Normal` the context stands at the
/// start of the next instruction. After a fault the context and the process
/// are as they were, and so they are where no instruction is left.
pub fn dispatch(ctx: &mut Context, curr_p: &mut Process) -> (r: DispatchResult)
    ensures
        final(ctx).code == old(ctx).code,
        old(ctx).ip >= old(ctx).code@.len() ==> {
            &&& r == DispatchResult::Finished
            &&& *final(ctx) == *old(ctx)
            &&& *final(curr_p) == *old(curr_p)
        },
        old(ctx).ip < old(ctx).code@.len() ==> {
            let opcode = old(ctx).code@[old(ctx).ip as int].opcode;
            if opcode == OPCODE_MOVE {
                match move_spec(*old(ctx), *old(curr_p)) {
                    Ok((regs, stack)) => {
                        &&& r == DispatchResult::Normal
                        &&& final(ctx).regs@ == regs
                        &&& final(curr_p).heap.stack@ == stack
                        &&& final(ctx).ip == old(ctx).ip + 1
                        &&& final(ctx).arg == 0
                    },
                    Err(fault) => {
                        &&& r == DispatchResult::Fault(fault)
                        &&& *final(ctx) == *old(ctx)
                        &&& *final(curr_p) == *old(curr_p)
                    },
                }
            } else {
                &&& r == DispatchResult::Fault(
                    if opcode == OPCODE_MAKE_FUN2 {
                        make_fun2_spec(*old(ctx))
                    } else {
                        Fault::NotImplemented { opcode }
                    },
                )
                &&& *final(ctx) == *old(ctx)
                &&& *final(curr_p) == *old(curr_p)
            }
        },
{
    let opcode = match ctx.current_opcode() {
        Some(op) => op,
        None => {
            return DispatchResult::Finished;
        },
    };
    let result = if opcode == OPCODE_MOVE {
        opcode_move(ctx, curr_p)
    } else if opcode == OPCODE_MAKE_FUN2 {
        opcode_make_fun2(ctx, curr_p)
    } else {
        DispatchResult::Fault(Fault::NotImplemented { opcode })
    };
    match result {
        DispatchResult::Normal => {
            assert(ctx.ip < ctx.code.len());
            ctx.ip = ctx.ip + 1;
            ctx.arg = 0;
        },
        _ => {},
    }
    result
}

} // verus!
