//! Dry/wet mixer.
//!
//! Between its two ends the mix is a linear crossfade, which the caller
//! computes and hands in. The ends are not left to rounding: a wet amount of
//! zero returns the dry sample bit for bit, a wet amount of one the filtered
//! sample bit for bit.

use vstd::prelude::*;
use crate::sample::{is_one, is_zero, NEGATIVE_ZERO, ONE, ZERO};

verus! {

/// What the mixer gives for a dry sample, a filtered sample, a wet amount and
/// the crossfade `blend` of the two samples at that amount.
pub open spec fn mixed(dry: u32, filtered: u32, wet: u32, blend: u32) -> u32 {
    if is_zero(wet) {
        dry
    } else if is_one(wet) {
        filtered
    } else {
        blend
    }
}

/// Mixes one sample. `blend` is the crossfade of `dry` and `filtered` at `wet`;
/// it is used only where `wet` is neither zero nor one.
pub fn mix(dry: u32, filtered: u32, wet: u32, blend: u32) -> (out: u32)
    ensures
        out == mixed(dry, filtered, wet, blend),
        is_zero(wet) ==> out == dry,
        is_one(wet) ==> out == filtered,
        !is_zero(wet) && !is_one(wet) ==> out == blend,
{
    if wet == ZERO || wet == NEGATIVE_ZERO {
        dry
    } else if wet == ONE {
        filtered
    } else {
        blend
    }
}

/// With a wet amount of zero the output is the dry sample, whatever was done
/// to the signal on the way.
pub proof fn lemma_dry_end_is_identity(dry: u32, filtered: u32, wet: u32, blend: u32)
    requires
        is_zero(wet),
    ensures
        mixed(dry, filtered, wet, blend) == dry,
{
}

/// With a wet amount of one the output is the filtered sample, and two dry
/// samples that differ give the same output.
pub proof fn lemma_wet_end_ignores_dry(
    dry: u32,
    other_dry: u32,
    filtered: u32,
    wet: u32,
    blend: u32,
    other_blend: u32,
)
    requires
        is_one(wet),
    ensures
        mixed(dry, filtered, wet, blend) == filtered,
        mixed(dry, filtered, wet, blend) == mixed(other_dry, filtered, wet, other_blend),
{
}

} // verus!
