//! Integers beyond the range of a small integer, as sign and magnitude.

use vstd::prelude::*;
use num::bigint::BigInt;
use num::bigint::Sign;
use num::FromPrimitive;
use crate::defs::Word;

verus! {

/// The base of the digits of a `BigInteger`.
pub const DIGIT_BASE: u64 = 0x1_0000_0000;

/// The number that a sequence of base 2^32 digits stands for, the least
/// significant digit first.
pub open spec fn digits_value(digits: Seq<u32>) -> nat
    decreases digits.len(),
{
    if digits.len() == 0 {
        0
    } else {
        digits[0] as nat + DIGIT_BASE as nat * digits_value(digits.drop_first())
    }
}

/// A magnitude is normalized when it does not end in a zero digit, so that
/// every number has one sequence of digits.
pub open spec fn digits_normalized(digits: Seq<u32>) -> bool {
    digits.len() > 0 ==> digits.last() != 0
}

/// An integer of arbitrary size.
#[derive(Debug, PartialEq, Eq)]
pub struct BigInteger {
    /// Whether the number is below zero.
    pub negative: bool,
    /// The magnitude in base 2^32, the least significant digit first.
    pub digits: Vec<u32>,
}

impl View for BigInteger {
    type V = int;

    open spec fn view(&self) -> int {
        if self.negative {
            -(digits_value(self.digits@) as int)
        } else {
            digits_value(self.digits@) as int
        }
    }
}

impl Clone for BigInteger {
    fn clone(&self) -> (r: Self)
        ensures
            r.negative == self.negative,
            r.digits@ == self.digits@,
    {
        BigInteger { negative: self.negative, digits: self.digits.clone() }
    }
}

impl BigInteger {
    /// Zero has no digits and no sign.
    pub open spec fn wf(&self) -> bool {
        &&& digits_normalized(self.digits@)
        &&& self.negative ==> self.digits@.len() > 0
    }

    /// The arbitrary-precision integer with the value of the word `w`.
    pub fn from_word(w: Word) -> (b: BigInteger)
        ensures
            b@ == w,
            b.wf(),
            !b.negative,
    {
        let (negative, digits) = bigint_parts_from_word(w);
        BigInteger { negative, digits }
    }
}

/// Calls `num::bigint::BigInt::from_u64` and takes the number apart with
/// `BigInt::to_u32_digits`. Trusted: the conversion never fails and keeps the
/// value, so the sign is never minus and the digits, which come without a
/// leading zero digit, stand for `w`.
#[verifier::external_body]
fn bigint_parts_from_word(w: Word) -> (r: (bool, Vec<u32>))
    ensures
        !r.0,
        digits_value(r.1@) == w,
        digits_normalized(r.1@),
{
    let (sign, digits) = BigInt::from_u64(w).unwrap().to_u32_digits();
    (matches!(sign, Sign::Minus), digits)
}

} // verus!
