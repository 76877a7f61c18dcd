//! Bit patterns of the sample values that the control logic tells apart.

use vstd::prelude::*;

verus! {

/// Pattern of positive zero: the value of a freshly cleared state slot.
pub const ZERO: u32 = 0;

/// Pattern of negative zero, which compares equal to zero.
pub const NEGATIVE_ZERO: u32 = 0x8000_0000;

/// Pattern of the value one.
pub const ONE: u32 = 0x3F80_0000;

/// The pattern encodes zero, of either sign.
pub open spec fn is_zero(bits: u32) -> bool {
    bits == ZERO || bits == NEGATIVE_ZERO
}

/// The pattern encodes one.
pub open spec fn is_one(bits: u32) -> bool {
    bits == ONE
}

} // verus!
