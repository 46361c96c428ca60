//! The instruction set: opcode numbers, handlers and the dispatch of one
//! instruction.

pub mod gen_op;
pub mod opcodes;
pub mod vm_loop;
