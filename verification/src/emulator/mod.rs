//! The running machine: the atom table, processes and the execution context.

pub mod atom;
pub mod heap;
pub mod process;
pub mod runtime_ctx;
