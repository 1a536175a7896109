//! Densities as bit patterns.
//!
//! A density is a single-precision number between zero and one. The library
//! carries it as the 32-bit pattern of that number and never computes with
//! the number itself. This works because of one property of the encoding: on
//! the patterns with a clear sign bit that stand for a number, the unsigned
//! order of the patterns is the order of the numbers. Comparing a density
//! with the iso level, or clamping one into range, is therefore integer
//! comparison.

use vstd::prelude::*;

verus! {

/// Pattern of zero: empty space.
pub const EMPTY: u32 = 0;

/// Pattern of one half: the level at which the contour is drawn.
pub const ISO_LEVEL: u32 = 0x3F00_0000;

/// Pattern of one: fully solid.
pub const SOLID: u32 = 0x3F80_0000;

/// Pattern of positive infinity, the largest pattern with a clear sign bit
/// that stands for a number.
pub const INFINITE: u32 = 0x7F80_0000;

/// Pattern of negative zero, the smallest pattern with the sign bit set.
pub const NEGATIVE_ZERO: u32 = 0x8000_0000;

/// Pattern of negative infinity, the largest pattern with the sign bit set
/// that stands for a number.
pub const NEGATIVE_INFINITE: u32 = 0xFF80_0000;

/// Whether `bits` is the pattern of a density: a number from zero to one.
pub open spec fn is_density(bits: u32) -> bool {
    bits <= SOLID
}

/// Whether `bits` stands for a number at all, finite or infinite.
pub open spec fn is_number(bits: u32) -> bool {
    bits <= INFINITE || NEGATIVE_ZERO <= bits <= NEGATIVE_INFINITE
}

/// The density nearest to the number that `bits` stands for: the number
/// itself where it lies between zero and one, one above that, zero below.
/// Both zeros give `EMPTY`. Meaningful only where `is_number(bits)`.
pub open spec fn clamped(bits: u32) -> u32 {
    if bits <= SOLID {
        bits
    } else if bits <= INFINITE {
        SOLID
    } else {
        EMPTY
    }
}

/// Whether the number that `bits` stands for is at or above the iso level.
/// A pattern that stands for no number is not.
pub open spec fn at_or_above_iso(bits: u32) -> bool {
    ISO_LEVEL <= bits <= INFINITE
}

/// Whether the number that `bits` stands for is above zero.
/// A pattern that stands for no number is not.
pub open spec fn above_zero(bits: u32) -> bool {
    EMPTY < bits <= INFINITE
}

/// Clamps the number that `bits` stands for into the range of densities.
/// Returns `None` exactly when `bits` stands for no number.
pub fn clamp_density(bits: u32) -> (clamp: Option<u32>)
    ensures
        clamp == (if is_number(bits) {
            Some(clamped(bits))
        } else {
            None
        }),
        clamp matches Some(d) ==> is_density(d),
{
    if bits <= SOLID {
        Some(bits)
    } else if bits <= INFINITE {
        Some(SOLID)
    } else if NEGATIVE_ZERO <= bits && bits <= NEGATIVE_INFINITE {
        Some(EMPTY)
    } else {
        None
    }
}

/// Tests a pattern against the iso level.
pub fn is_at_or_above_iso(bits: u32) -> (above: bool)
    ensures
        above == at_or_above_iso(bits),
{
    ISO_LEVEL <= bits && bits <= INFINITE
}

/// Tests whether a pattern stands for a number above zero.
pub fn is_above_zero(bits: u32) -> (above: bool)
    ensures
        above == above_zero(bits),
{
    EMPTY < bits && bits <= INFINITE
}

/// Clamping is idempotent and leaves every density as it is.
pub proof fn lemma_clamped_is_density(bits: u32)
    ensures
        is_density(clamped(bits)),
        clamped(clamped(bits)) == clamped(bits),
        is_density(bits) ==> clamped(bits) == bits,
{
}

/// On densities the order of patterns decides the side of the iso level:
/// a density is at or above it exactly when its pattern is no smaller.
pub proof fn lemma_density_iso(bits: u32)
    requires
        is_density(bits),
    ensures
        at_or_above_iso(bits) <==> bits >= ISO_LEVEL,
        above_zero(bits) <==> bits != EMPTY,
{
}

} // verus!
