//! Solve configuration: security level, error-probability ceiling, partition
//! strategy, target hardware, encoding and optional search-space
//! restrictions.

use crate::restriction::{KeysetRestriction, RangeRestriction};
use vstd::prelude::*;

verus! {

/// How ciphertexts encode cleartext values.
#[derive(Debug, Clone, Copy, PartialEq, Eq, Structural)]
pub enum Encoding {
    Auto,
    Native,
    Crt,
}

/// How operators are grouped into partitions before a multi-parameter solve.
#[derive(Debug, Clone, Copy, PartialEq, Eq, Structural)]
pub enum MultiParamStrategy {
    /// One partition per distinct declared output precision.
    ByPrecision,
    /// A maximal split: partitions further distinguished by the operators'
    /// accumulated squared-norm bounds, not only their precision.
    ByPrecisionAndNorm2,
}

/// The hardware the cost model targets.
#[derive(Debug, Clone, Copy, PartialEq, Eq, Structural)]
pub enum ProcessingUnit {
    Cpu,
    Gpu,
}

/// Configuration of one solve call.  The error-probability ceiling and the
/// default log-norm2 belong to the external cost model and are carried as
/// IEEE-754 bit patterns (see [`crate::fp`]).
#[derive(Debug, Clone)]
pub struct Options {
    pub security_level: u64,
    pub maximum_acceptable_error_probability_bits: u64,
    pub key_sharing: bool,
    pub multi_param_strategy: MultiParamStrategy,
    pub default_log_norm2_woppbs_bits: u64,
    pub use_gpu_constraints: bool,
    pub encoding: Encoding,
    pub cache_on_disk: bool,
    pub ciphertext_modulus_log: u32,
    pub fft_precision: u32,
    pub range_restriction: Option<RangeRestriction>,
    pub keyset_restriction: Option<KeysetRestriction>,
}

/// The processing unit a solve under these options targets.
pub fn processing_unit(options: &Options) -> (r: ProcessingUnit)
    ensures
        r == (if options.use_gpu_constraints {
            ProcessingUnit::Gpu
        } else {
            ProcessingUnit::Cpu
        }),
{
    if options.use_gpu_constraints {
        ProcessingUnit::Gpu
    } else {
        ProcessingUnit::Cpu
    }
}

} // verus!
