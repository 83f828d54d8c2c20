//! Facts about IEEE-754 binary64 values, read from their bit patterns.
//!
//! Prices and movements travel through the library as the bit patterns of the
//! binary64 values that the market data holds; the arithmetic on them is done by
//! the caller, and the library reads only what is stated here.
use vstd::prelude::*;

verus! {

/// Mask of every bit but the sign.
pub const MAGNITUDE_MASK: u64 = 0x7FFF_FFFF_FFFF_FFFF;

/// Mask of the exponent field.
pub const EXPONENT_MASK: u64 = 0x7FF0_0000_0000_0000;

/// Mask of the fraction field.
pub const FRACTION_MASK: u64 = 0x000F_FFFF_FFFF_FFFF;

/// The sign bit.
pub const SIGN_BIT: u64 = 0x8000_0000_0000_0000;

/// The value is `+0.0` or `-0.0`.
pub open spec fn is_zero_bits(b: u64) -> bool {
    b & MAGNITUDE_MASK == 0
}

/// The value is a NaN.
pub open spec fn is_nan_bits(b: u64) -> bool {
    b & EXPONENT_MASK == EXPONENT_MASK && b & FRACTION_MASK != 0
}

/// Binary64 equality: equal patterns that are not NaN, or two zeros of either sign.
pub open spec fn float_eq_bits(a: u64, b: u64) -> bool {
    (a == b && !is_nan_bits(a)) || (is_zero_bits(a) && is_zero_bits(b))
}

/// Position of a non-NaN value on the number line: binary64 magnitudes are ordered as
/// their patterns are, and the sign bit negates.
pub open spec fn order_value(b: u64) -> int {
    if b & SIGN_BIT == 0 {
        (b & MAGNITUDE_MASK) as int
    } else {
        -((b & MAGNITUDE_MASK) as int)
    }
}

/// Whether the value is a zero of either sign.
pub fn is_zero(b: u64) -> (r: bool)
    ensures
        r == is_zero_bits(b),
{
    b & MAGNITUDE_MASK == 0
}

/// Whether the value is a NaN.
pub fn is_nan(b: u64) -> (r: bool)
    ensures
        r == is_nan_bits(b),
{
    b & EXPONENT_MASK == EXPONENT_MASK && b & FRACTION_MASK != 0
}

/// Binary64 equality of two patterns.
pub fn float_eq(a: u64, b: u64) -> (r: bool)
    ensures
        r == float_eq_bits(a, b),
{
    (a == b && !is_nan(a)) || (is_zero(a) && is_zero(b))
}

/// A key that orders non-NaN values as the number line does; `None` for a NaN.
pub fn order_key(b: u64) -> (r: Option<i64>)
    ensures
        is_nan_bits(b) ==> r is None,
        !is_nan_bits(b) ==> r == Some(order_value(b) as i64),
        !is_nan_bits(b) ==> order_value(b) == r->Some_0 as int,
{
    if is_nan(b) {
        return None;
    }
    let m = b & MAGNITUDE_MASK;
    assert(m <= MAGNITUDE_MASK) by (bit_vector)
        requires
            m == b & 0x7FFF_FFFF_FFFF_FFFFu64,
    ;
    if b & SIGN_BIT == 0 {
        Some(m as i64)
    } else {
        Some(-(m as i64))
    }
}

} // verus!
