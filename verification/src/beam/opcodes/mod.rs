//! The opcode handlers and what they share.

pub mod arity;
pub mod op_data;
