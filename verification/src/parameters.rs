//! Candidate parameter tuples that the external search walks: GLWE macro
//! parameters describing a partition's "large" representation, and the
//! decomposition parameters of keyswitch and bootstrap operations.

use vstd::prelude::*;
use vstd::arithmetic::power2::pow2;
use vstd::bits::lemma_u64_shl_is_mul;

verus! {

/// GLWE parameters: the polynomial size is carried as its log2.
#[derive(Debug, Clone, Copy, PartialEq, Eq, Structural)]
pub struct GlweParameters {
    pub log2_polynomial_size: u64,
    pub glwe_dimension: u64,
}

/// A partition's "large" representation (GLWE parameters) together with the
/// internal LWE dimension of its "small" post-keyswitch representation.
#[derive(Debug, Clone, Copy, PartialEq, Eq, Structural)]
pub struct MacroParameters {
    pub glwe_params: GlweParameters,
    pub internal_dim: u64,
}

/// Decomposition of a blind rotation (bootstrap): level count and log2 base.
#[derive(Debug, Clone, Copy, PartialEq, Eq, Structural)]
pub struct BrDecompositionParameters {
    pub level: u64,
    pub log2_base: u64,
}

/// Decomposition of a keyswitch: level count and log2 base.
#[derive(Debug, Clone, Copy, PartialEq, Eq, Structural)]
pub struct KsDecompositionParameters {
    pub level: u64,
    pub log2_base: u64,
}

impl GlweParameters {
    /// The polynomial size stays representable and the sample-extracted
    /// dimension fits in a `u64`.
    pub open spec fn wf(self) -> bool {
        self.log2_polynomial_size < 64
        && self.glwe_dimension * pow2(self.log2_polynomial_size as nat) <= u64::MAX
    }

    /// The LWE dimension of a sample extracted from a GLWE ciphertext:
    /// polynomial size times GLWE dimension.
    pub open spec fn spec_sample_extract_lwe_dimension(self) -> nat {
        (self.glwe_dimension as nat) * pow2(self.log2_polynomial_size as nat)
    }

    /// The LWE dimension of a sample extracted from a GLWE ciphertext.
    pub fn sample_extract_lwe_dimension(&self) -> (r: u64)
        requires
            self.wf(),
        ensures
            r == self.spec_sample_extract_lwe_dimension(),
    {
        proof {
            vstd::bits::lemma_u64_pow2_no_overflow(self.log2_polynomial_size as nat);
            lemma_u64_shl_is_mul(1u64, self.log2_polynomial_size);
        }
        let polynomial_size: u64 = 1u64 << self.log2_polynomial_size;
        self.glwe_dimension * polynomial_size
    }
}

} // verus!
