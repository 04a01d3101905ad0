//! Floating-point numbers as bit patterns.
//!
//! A number in binary64 form is held as its 64 bits. What can be told from
//! the bits alone is told here: sign, zero, not-a-number and order. The
//! arithmetic itself belongs to a [`FloatUnit`] that the embedding program
//! supplies.

use vstd::prelude::*;

verus! {

/// The bit that holds the sign.
pub const SIGN_BIT: u64 = 0x8000_0000_0000_0000;

/// The bits that hold the exponent.
pub const EXPONENT_BITS: u64 = 0x7FF0_0000_0000_0000;

/// The bits that hold the fraction.
pub const FRACTION_BITS: u64 = 0x000F_FFFF_FFFF_FFFF;

/// All bits but the sign.
pub const MAGNITUDE_BITS: u64 = 0x7FFF_FFFF_FFFF_FFFF;

/// The arithmetic on binary64 numbers that the library leaves to the
/// embedding program. Numbers go in and out as bit patterns.
#[derive(Clone, Copy, Debug, PartialEq, Eq, Structural)]
pub enum FloatOp {
    Add,
    Subtract,
    Multiply,
    Divide,
    Rem,
}

/// The unit that computes with binary64 numbers.
pub trait FloatUnit {
    /// The number nearest to an integer.
    fn from_integer(&self, value: i64) -> u64;

    /// The result of `op` on two numbers.
    fn compute(&self, op: FloatOp, lhs: u64, rhs: u64) -> u64;
}

/// The pattern is not a number: all exponent bits set and a fraction that
/// is not zero.
pub open spec fn is_nan(bits: u64) -> bool {
    (bits & EXPONENT_BITS) == EXPONENT_BITS && (bits & FRACTION_BITS) != 0
}

/// The pattern is zero, of either sign.
pub open spec fn is_zero(bits: u64) -> bool {
    (bits & MAGNITUDE_BITS) == 0
}

/// The pattern with its sign turned.
pub open spec fn negated(bits: u64) -> u64 {
    bits ^ SIGN_BIT
}

/// Zero in place of a pattern that is not a number.
pub open spec fn or_zero(bits: u64) -> u64 {
    if is_nan(bits) {
        0
    } else {
        bits
    }
}

/// An integer that orders the patterns of numbers as the numbers are
/// ordered: the magnitude bits, taken negative where the sign is set.
pub open spec fn order_key(bits: u64) -> int {
    if (bits & SIGN_BIT) == 0 {
        (bits & MAGNITUDE_BITS) as int
    } else {
        -((bits & MAGNITUDE_BITS) as int)
    }
}

/// Two patterns are numbers and the same number; the zeros of either sign
/// are the same number.
pub open spec fn float_eq(a: u64, b: u64) -> bool {
    !is_nan(a) && !is_nan(b) && order_key(a) == order_key(b)
}

/// Two patterns are numbers and the first is the smaller.
pub open spec fn float_lt(a: u64, b: u64) -> bool {
    !is_nan(a) && !is_nan(b) && order_key(a) < order_key(b)
}

/// Two patterns are numbers and the first is not the greater.
pub open spec fn float_le(a: u64, b: u64) -> bool {
    !is_nan(a) && !is_nan(b) && order_key(a) <= order_key(b)
}

/// Whether the pattern is not a number.
pub fn check_nan(bits: u64) -> (b: bool)
    ensures
        b == is_nan(bits),
{
    (bits & EXPONENT_BITS) == EXPONENT_BITS && (bits & FRACTION_BITS) != 0
}

/// Whether the pattern is zero.
pub fn check_zero(bits: u64) -> (b: bool)
    ensures
        b == is_zero(bits),
{
    (bits & MAGNITUDE_BITS) == 0
}

/// The pattern with its sign turned.
pub fn negate(bits: u64) -> (r: u64)
    ensures
        r == negated(bits),
{
    bits ^ SIGN_BIT
}

/// Zero in place of a pattern that is not a number.
pub fn zero_if_nan(bits: u64) -> (r: u64)
    ensures
        r == or_zero(bits),
{
    if check_nan(bits) {
        0
    } else {
        bits
    }
}

/// The integer that orders a pattern among the others.
pub fn key_of(bits: u64) -> (key: i128)
    ensures
        key == order_key(bits),
{
    let magnitude = (bits & MAGNITUDE_BITS) as i128;
    if (bits & SIGN_BIT) == 0 {
        magnitude
    } else {
        -magnitude
    }
}

/// Whether two patterns are the same number.
pub fn equal(a: u64, b: u64) -> (r: bool)
    ensures
        r == float_eq(a, b),
{
    !check_nan(a) && !check_nan(b) && key_of(a) == key_of(b)
}

/// Whether the first of two patterns is the smaller number.
pub fn less(a: u64, b: u64) -> (r: bool)
    ensures
        r == float_lt(a, b),
{
    !check_nan(a) && !check_nan(b) && key_of(a) < key_of(b)
}

/// Whether the first of two patterns is not the greater number.
pub fn less_or_equal(a: u64, b: u64) -> (r: bool)
    ensures
        r == float_le(a, b),
{
    !check_nan(a) && !check_nan(b) && key_of(a) <= key_of(b)
}

} // verus!
