//! The check that an instruction came with as many operands as its opcode
//! declares. It runs before a handler touches anything, so that a defect of
//! the loader or of the code generator shows as a fault of its own and no
//! operand is read that is not there.

use vstd::prelude::*;
use crate::beam::gen_op::{arity_spec, opcode_arity};
use crate::defs::Word;
use crate::emulator::runtime_ctx::Context;
use crate::rt_defs::Fault;

verus! {

/// The fault, if any, of an instruction with the opcode `opcode` that was
/// decoded with `decoded` operands.
pub open spec fn arity_fault(opcode: Word, decoded: nat) -> Option<Fault> {
    match arity_spec(opcode) {
        None => Some(Fault::NotImplemented { opcode }),
        Some(expected) => if decoded == expected {
            None
        } else {
            Some(Fault::ArityMismatch { opcode, expected, decoded: decoded as Word })
        },
    }
}

/// The fault, if any, that keeps the current instruction of `ctx` from
/// being run by the handler of `opcode`: there is no instruction, it has not
/// the declared number of operands, or some of them are fetched already.
pub open spec fn entry_fault(ctx: Context, opcode: Word) -> Option<Fault> {
    match ctx.operands() {
        None => Some(Fault::OperandRange),
        Some(args) => match arity_fault(opcode, args.len()) {
            Some(fault) => Some(fault),
            None => if ctx.arg == 0 {
                None
            } else {
                Some(Fault::OperandRange)
            },
        },
    }
}

/// Checks the number of operands that an instruction was decoded with
/// against the number declared for its opcode.
pub fn check_arity(opcode: Word, decoded: usize) -> (r: Result<(), Fault>)
    ensures
        r == match arity_fault(opcode, decoded as nat) {
            Some(fault) => Err::<(), Fault>(fault),
            None => Ok::<(), Fault>(()),
        },
{
    match opcode_arity(opcode) {
        None => Err(Fault::NotImplemented { opcode }),
        Some(expected) => {
            if decoded as u64 == expected {
                Ok(())
            } else {
                Err(Fault::ArityMismatch { opcode, expected, decoded: decoded as Word })
            }
        },
    }
}

/// Checks that the handler of `opcode` can start on the current instruction
/// of `ctx`.
pub fn check_entry(ctx: &Context, opcode: Word) -> (r: Result<(), Fault>)
    ensures
        r == match entry_fault(*ctx, opcode) {
            Some(fault) => Err::<(), Fault>(fault),
            None => Ok::<(), Fault>(()),
        },
{
    match ctx.decoded_arity() {
        None => Err(Fault::OperandRange),
        Some(decoded) => match check_arity(opcode, decoded) {
            Err(fault) => Err(fault),
            Ok(()) => {
                if ctx.arg == 0 {
                    Ok(())
                } else {
                    Err(Fault::OperandRange)
                }
            },
        },
    }
}

} // verus!
