//! Losses, carried as the bit patterns of 64-bit floats, and the engine's
//! ordering policy over them: comparable losses in their numeric order, and
//! any loss that cannot be compared (a NaN pattern) after every comparable
//! one.

use vstd::prelude::*;

verus! {

/// The bit pattern of the largest finite 64-bit float, the seed of the
/// minimum-loss scan.
pub const F64_MAX_BITS: u64 = 0x7fef_ffff_ffff_ffff;

/// Whether a 64-bit float pattern is a NaN — exponent all ones and mantissa
/// nonzero. Such a loss is incomparable, never an error: it sorts last.
pub open spec fn spec_is_nan(bits: u64) -> bool {
    (bits >> 52) & 0x7ff == 0x7ff && bits & 0xf_ffff_ffff_ffff != 0
}

/// The rank of a loss pattern in the engine's total order: sign and
/// magnitude unfolded into an unsigned key that rises with the value, and
/// every NaN given the topmost rank.
pub open spec fn spec_rank(bits: u64) -> u64 {
    if spec_is_nan(bits) {
        0xffff_ffff_ffff_ffffu64
    } else if bits >> 63 == 1 {
        !bits
    } else {
        bits ^ 0x8000_0000_0000_0000u64
    }
}

/// The minimum-scan test "strictly below": both losses comparable and the
/// first of smaller rank. This agrees with the float `<` (false whenever a
/// NaN is involved) except that the rank order tells -0.0 from +0.0, which
/// float comparison calls equal.
pub open spec fn spec_loss_below(a: u64, b: u64) -> bool {
    !spec_is_nan(a) && !spec_is_nan(b) && spec_rank(a) < spec_rank(b)
}

/// The convergence test "strictly above": both losses comparable and the
/// first of larger rank. This agrees with the float `>` (false whenever a
/// NaN is involved) except that the rank order tells -0.0 from +0.0, which
/// float comparison calls equal.
pub open spec fn spec_loss_above(a: u64, b: u64) -> bool {
    !spec_is_nan(a) && !spec_is_nan(b) && spec_rank(a) > spec_rank(b)
}

/// Whether the pattern is an incomparable (NaN) loss.
pub fn is_nan_bits(bits: u64) -> (r: bool)
    ensures
        r == spec_is_nan(bits),
{
    (bits >> 52u64) & 0x7ff == 0x7ff && bits & 0xf_ffff_ffff_ffff != 0
}

/// The rank of a loss pattern in the engine's order; ranks compare as the
/// losses do, with every NaN ranked above everything comparable.
pub fn rank_of(bits: u64) -> (r: u64)
    ensures
        r == spec_rank(bits),
{
    if is_nan_bits(bits) {
        0xffff_ffff_ffff_ffffu64
    } else if bits >> 63u64 == 1 {
        !bits
    } else {
        bits ^ 0x8000_0000_0000_0000u64
    }
}

/// The topmost rank is held exactly by the NaN patterns: whatever sorts at
/// or after a NaN is itself a NaN.
pub proof fn lemma_rank_top_is_nan(bits: u64)
    by (bit_vector)
    ensures
        (spec_rank(bits) == 0xffff_ffff_ffff_ffffu64) <==> spec_is_nan(bits),
{
}

/// The float `<` over loss patterns: false whenever a NaN is involved.
pub fn loss_below(a: u64, b: u64) -> (r: bool)
    ensures
        r == spec_loss_below(a, b),
{
    !is_nan_bits(a) && !is_nan_bits(b) && rank_of(a) < rank_of(b)
}

/// The float `>` over loss patterns: false whenever a NaN is involved.
pub fn loss_above(a: u64, b: u64) -> (r: bool)
    ensures
        r == spec_loss_above(a, b),
{
    !is_nan_bits(a) && !is_nan_bits(b) && rank_of(a) > rank_of(b)
}

} // verus!
