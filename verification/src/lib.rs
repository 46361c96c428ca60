//! Execution core of a register-based virtual machine for BEAM-style bytecode:
//! tagged terms, the atom table, load-time terms and their resolution, and the
//! operand fetch/store logic behind opcode dispatch.

pub mod defs;
pub mod rt_defs;
pub mod term;
pub mod emulator;
pub mod beam;
