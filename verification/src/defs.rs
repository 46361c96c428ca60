//! Machine-level definitions shared by every component: the machine word and
//! the limits of the payloads that fit into a tagged word.

use vstd::prelude::*;

verus! {

/// The machine word: every runtime term is exactly one of these.
pub type Word = u64;

/// The machine word read as a signed number.
pub type SWord = i64;

/// The least unsigned word that no longer fits a small integer, whose payload
/// is the word without its 4 tag bits, signed. Values below it are small
/// integers, values from it upwards are arbitrary-precision.
pub const MAX_UNSIG_SMALL: Word = 0x0800_0000_0000_0000;

/// The greatest small integer.
pub const MAX_POS_SMALL: SWord = 0x07ff_ffff_ffff_ffff;

/// The least small integer.
pub const MIN_NEG_SMALL: SWord = -0x0800_0000_0000_0000;

/// The greatest atom index that a tagged word can carry (58 bits).
pub const MAX_ATOM_INDEX: Word = 0x03ff_ffff_ffff_ffff;

/// The greatest register, stack slot or label index that a tagged word can
/// carry (56 bits).
pub const MAX_INDEX: Word = 0x00ff_ffff_ffff_ffff;

/// The greatest length that a header word can carry (62 bits).
pub const MAX_HEADER_ARITY: Word = 0x3fff_ffff_ffff_ffff;

} // verus!
