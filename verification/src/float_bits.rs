//! Classification of IEEE 754 binary64 values by their bit patterns.
//!
//! Coordinates and sizes are carried through the crate as the 64-bit patterns
//! of the numbers they stand for, so that they can be compared and stored
//! exactly.
use vstd::prelude::*;

verus! {

/// The pattern of positive infinity: the smallest magnitude that is not finite.
pub const INFINITY: u64 = 0x7ff0_0000_0000_0000;

/// The pattern of negative zero: the sign bit alone.
pub const SIGN: u64 = 0x8000_0000_0000_0000;

/// The pattern of positive zero.
pub const ZERO: u64 = 0;

/// The pattern without its sign bit.
pub open spec fn magnitude(bits: u64) -> int {
    if bits < SIGN {
        bits as int
    } else {
        bits - SIGN
    }
}

/// The number is neither an infinity nor a NaN.
pub open spec fn finite(bits: u64) -> bool {
    magnitude(bits) < INFINITY
}

/// The number is finite and greater than zero.
pub open spec fn positive(bits: u64) -> bool {
    0 < bits < INFINITY
}

/// The number is a zero of either sign.
pub open spec fn zero(bits: u64) -> bool {
    magnitude(bits) == 0
}

pub fn is_finite(bits: u64) -> (res: bool)
    ensures
        res == finite(bits),
{
    if bits < SIGN {
        bits < INFINITY
    } else {
        bits - SIGN < INFINITY
    }
}

pub fn is_positive(bits: u64) -> (res: bool)
    ensures
        res == positive(bits),
{
    ZERO < bits && bits < INFINITY
}

pub fn is_zero(bits: u64) -> (res: bool)
    ensures
        res == zero(bits),
{
    bits == ZERO || bits == SIGN
}

} // verus!
