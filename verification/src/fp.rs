//! Real-valued figures (error probabilities, complexity, variances) are
//! produced and consumed by the external cost/noise model.  This crate never
//! computes with them: it stores each one as the raw bit pattern of an
//! IEEE-754 double, a plain `u64`.  For non-negative doubles the unsigned
//! order of the bit patterns coincides with the numeric order, so comparing
//! an error probability against the sentinel needs no floating point.

use vstd::prelude::*;

verus! {

/// Bit pattern of the double `1.0`, the reserved error-probability sentinel
/// for "no solution found".
pub const F64_ONE_BITS: u64 = 0x3FF0_0000_0000_0000;

/// Bit pattern of a quiet IEEE-754 NaN, used for figures that a conversion
/// leaves undefined.
pub const F64_NAN_BITS: u64 = 0x7FF8_0000_0000_0000;

/// Bit pattern of the double `0.0`.
pub const F64_ZERO_BITS: u64 = 0;

/// A bit pattern encodes an error probability when the double it denotes
/// lies in `[0.0, 1.0]`; on bit patterns that range is exactly
/// `0 ..= F64_ONE_BITS`.
pub open spec fn is_probability_bits(bits: u64) -> bool {
    bits <= F64_ONE_BITS
}

/// A probability is the sentinel exactly when it is `1.0`.
pub open spec fn is_sentinel_bits(bits: u64) -> bool {
    bits == F64_ONE_BITS
}

} // verus!
