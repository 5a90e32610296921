//! Search-space restrictions: a capability answering five membership
//! queries, each a pure predicate over a partition index and a candidate
//! parameter tuple.  Three variants exist — unrestricted, range-restricted
//! and keyset-restricted — and any two restrictions compose into a
//! conjunction that allows a candidate only when both constituents do.

use crate::parameters::{
    BrDecompositionParameters, GlweParameters, KsDecompositionParameters, MacroParameters,
};
use vstd::prelude::*;

verus! {

/// A restriction narrowing the candidate parameters the external search may
/// walk.  Every query is pure; the spec functions are the single source of
/// truth and each exec method returns exactly its spec value.
pub trait SearchSpaceRestriction: Sized {
    /// Whether the GLWE parameters are available for the partition.
    spec fn spec_available_glwe(&self, partition: usize, glwe_params: GlweParameters) -> bool;

    /// Whether the macro parameters are available for the partition.
    spec fn spec_available_macro(&self, partition: usize, macro_parameters: MacroParameters) -> bool;

    /// Whether the bootstrap decomposition is available for the partition
    /// under the macro parameters.
    spec fn spec_available_micro_pbs(
        &self,
        partition: usize,
        macro_parameters: MacroParameters,
        pbs_parameters: BrDecompositionParameters,
    ) -> bool;

    /// Whether the keyswitch decomposition is available between the two
    /// partitions under their macro parameters.
    spec fn spec_available_micro_ks(
        &self,
        from_partition: usize,
        from_macro: MacroParameters,
        to_partition: usize,
        to_macro: MacroParameters,
        ks_parameters: KsDecompositionParameters,
    ) -> bool;

    /// Whether the cross-partition conversion keyswitch decomposition is
    /// available between the two partitions under their macro parameters.
    spec fn spec_available_micro_fks(
        &self,
        from_partition: usize,
        from_macro: MacroParameters,
        to_partition: usize,
        to_macro: MacroParameters,
        ks_parameters: KsDecompositionParameters,
    ) -> bool;

    /// Exec mirror of [`Self::spec_available_glwe`].
    fn is_available_glwe(&self, partition: usize, glwe_params: GlweParameters) -> (r: bool)
        requires
            glwe_params.wf(),
        ensures
            r == self.spec_available_glwe(partition, glwe_params),
    ;

    /// Exec mirror of [`Self::spec_available_macro`].
    fn is_available_macro(&self, partition: usize, macro_parameters: MacroParameters) -> (r: bool)
        requires
            macro_parameters.glwe_params.wf(),
        ensures
            r == self.spec_available_macro(partition, macro_parameters),
    ;

    /// Exec mirror of [`Self::spec_available_micro_pbs`].
    fn is_available_micro_pbs(
        &self,
        partition: usize,
        macro_parameters: MacroParameters,
        pbs_parameters: BrDecompositionParameters,
    ) -> (r: bool)
        requires
            macro_parameters.glwe_params.wf(),
        ensures
            r == self.spec_available_micro_pbs(partition, macro_parameters, pbs_parameters),
    ;

    /// Exec mirror of [`Self::spec_available_micro_ks`].
    fn is_available_micro_ks(
        &self,
        from_partition: usize,
        from_macro: MacroParameters,
        to_partition: usize,
        to_macro: MacroParameters,
        ks_parameters: KsDecompositionParameters,
    ) -> (r: bool)
        requires
            from_macro.glwe_params.wf(),
            to_macro.glwe_params.wf(),
        ensures
            r == self.spec_available_micro_ks(
                from_partition,
                from_macro,
                to_partition,
                to_macro,
                ks_parameters,
            ),
    ;

    /// Exec mirror of [`Self::spec_available_micro_fks`].
    fn is_available_micro_fks(
        &self,
        from_partition: usize,
        from_macro: MacroParameters,
        to_partition: usize,
        to_macro: MacroParameters,
        ks_parameters: KsDecompositionParameters,
    ) -> (r: bool)
        requires
            from_macro.glwe_params.wf(),
            to_macro.glwe_params.wf(),
        ensures
            r == self.spec_available_micro_fks(
                from_partition,
                from_macro,
                to_partition,
                to_macro,
                ks_parameters,
            ),
    ;
}

/// The unrestricted search space: every query answers yes.
#[derive(Debug, Clone, Copy, PartialEq, Eq, Structural)]
pub struct NoSearchSpaceRestriction;

impl SearchSpaceRestriction for NoSearchSpaceRestriction {
    open spec fn spec_available_glwe(&self, partition: usize, glwe_params: GlweParameters) -> bool {
        true
    }

    open spec fn spec_available_macro(
        &self,
        partition: usize,
        macro_parameters: MacroParameters,
    ) -> bool {
        true
    }

    open spec fn spec_available_micro_pbs(
        &self,
        partition: usize,
        macro_parameters: MacroParameters,
        pbs_parameters: BrDecompositionParameters,
    ) -> bool {
        true
    }

    open spec fn spec_available_micro_ks(
        &self,
        from_partition: usize,
        from_macro: MacroParameters,
        to_partition: usize,
        to_macro: MacroParameters,
        ks_parameters: KsDecompositionParameters,
    ) -> bool {
        true
    }

    open spec fn spec_available_micro_fks(
        &self,
        from_partition: usize,
        from_macro: MacroParameters,
        to_partition: usize,
        to_macro: MacroParameters,
        ks_parameters: KsDecompositionParameters,
    ) -> bool {
        true
    }

    fn is_available_glwe(&self, partition: usize, glwe_params: GlweParameters) -> (r: bool) {
        true
    }

    fn is_available_macro(&self, partition: usize, macro_parameters: MacroParameters) -> (r: bool) {
        true
    }

    fn is_available_micro_pbs(
        &self,
        partition: usize,
        macro_parameters: MacroParameters,
        pbs_parameters: BrDecompositionParameters,
    ) -> (r: bool) {
        true
    }

    fn is_available_micro_ks(
        &self,
        from_partition: usize,
        from_macro: MacroParameters,
        to_partition: usize,
        to_macro: MacroParameters,
        ks_parameters: KsDecompositionParameters,
    ) -> (r: bool) {
        true
    }

    fn is_available_micro_fks(
        &self,
        from_partition: usize,
        from_macro: MacroParameters,
        to_partition: usize,
        to_macro: MacroParameters,
        ks_parameters: KsDecompositionParameters,
    ) -> (r: bool) {
        true
    }
}

/// Membership of `x` in the allowed set `v`, where `v` is a caller-supplied
/// list of allowed values.
pub open spec fn allowed(v: Seq<u64>, x: u64) -> bool {
    v.contains(x)
}

/// Exec membership test for an allowed-value list.
fn contains_u64(v: &Vec<u64>, x: u64) -> (r: bool)
    ensures
        r == allowed(v@, x),
{
    let n = v.len();
    let mut i: usize = 0;
    while i < n
        invariant
            i <= n,
            n == v@.len(),
            forall|k: int| 0 <= k < i ==> v@[k] != x,
        decreases n - i,
    {
        if v[i] == x {
            return true;
        }
        i += 1;
    }
    false
}

/// A range restriction: each discrete parameter field must belong to the
/// caller-supplied allowed set for that field.
#[derive(Debug, Clone, PartialEq)]
pub struct RangeRestriction {
    pub glwe_log_polynomial_sizes: Vec<u64>,
    pub glwe_dimensions: Vec<u64>,
    pub internal_lwe_dimensions: Vec<u64>,
    pub pbs_level_count: Vec<u64>,
    pub pbs_base_log: Vec<u64>,
    pub ks_level_count: Vec<u64>,
    pub ks_base_log: Vec<u64>,
}

impl SearchSpaceRestriction for RangeRestriction {
    open spec fn spec_available_glwe(&self, partition: usize, glwe_params: GlweParameters) -> bool {
        &&& allowed(self.glwe_log_polynomial_sizes@, glwe_params.log2_polynomial_size)
        &&& allowed(self.glwe_dimensions@, glwe_params.glwe_dimension)
    }

    open spec fn spec_available_macro(
        &self,
        partition: usize,
        macro_parameters: MacroParameters,
    ) -> bool {
        &&& self.spec_available_glwe(partition, macro_parameters.glwe_params)
        &&& allowed(self.internal_lwe_dimensions@, macro_parameters.internal_dim)
    }

    open spec fn spec_available_micro_pbs(
        &self,
        partition: usize,
        macro_parameters: MacroParameters,
        pbs_parameters: BrDecompositionParameters,
    ) -> bool {
        &&& self.spec_available_macro(partition, macro_parameters)
        &&& allowed(self.pbs_level_count@, pbs_parameters.level)
        &&& allowed(self.pbs_base_log@, pbs_parameters.log2_base)
    }

    open spec fn spec_available_micro_ks(
        &self,
        from_partition: usize,
        from_macro: MacroParameters,
        to_partition: usize,
        to_macro: MacroParameters,
        ks_parameters: KsDecompositionParameters,
    ) -> bool {
        &&& allowed(self.ks_level_count@, ks_parameters.level)
        &&& allowed(self.ks_base_log@, ks_parameters.log2_base)
    }

    open spec fn spec_available_micro_fks(
        &self,
        from_partition: usize,
        from_macro: MacroParameters,
        to_partition: usize,
        to_macro: MacroParameters,
        ks_parameters: KsDecompositionParameters,
    ) -> bool {
        &&& allowed(self.ks_level_count@, ks_parameters.level)
        &&& allowed(self.ks_base_log@, ks_parameters.log2_base)
    }

    fn is_available_glwe(&self, partition: usize, glwe_params: GlweParameters) -> (r: bool) {
        contains_u64(&self.glwe_log_polynomial_sizes, glwe_params.log2_polynomial_size)
            && contains_u64(&self.glwe_dimensions, glwe_params.glwe_dimension)
    }

    fn is_available_macro(&self, partition: usize, macro_parameters: MacroParameters) -> (r: bool) {
        self.is_available_glwe(partition, macro_parameters.glwe_params) && contains_u64(
            &self.internal_lwe_dimensions,
            macro_parameters.internal_dim,
        )
    }

    fn is_available_micro_pbs(
        &self,
        partition: usize,
        macro_parameters: MacroParameters,
        pbs_parameters: BrDecompositionParameters,
    ) -> (r: bool) {
        self.is_available_macro(partition, macro_parameters) && contains_u64(
            &self.pbs_level_count,
            pbs_parameters.level,
        ) && contains_u64(&self.pbs_base_log, pbs_parameters.log2_base)
    }

    fn is_available_micro_ks(
        &self,
        from_partition: usize,
        from_macro: MacroParameters,
        to_partition: usize,
        to_macro: MacroParameters,
        ks_parameters: KsDecompositionParameters,
    ) -> (r: bool) {
        contains_u64(&self.ks_level_count, ks_parameters.level) && contains_u64(
            &self.ks_base_log,
            ks_parameters.log2_base,
        )
    }

    fn is_available_micro_fks(
        &self,
        from_partition: usize,
        from_macro: MacroParameters,
        to_partition: usize,
        to_macro: MacroParameters,
        ks_parameters: KsDecompositionParameters,
    ) -> (r: bool) {
        contains_u64(&self.ks_level_count, ks_parameters.level) && contains_u64(
            &self.ks_base_log,
            ks_parameters.log2_base,
        )
    }
}


/// The dimensions of one deployed secret LWE key.
#[derive(Debug, Clone, Copy, PartialEq, Eq, Structural)]
pub struct LweSecretKeyInfo {
    pub lwe_dimension: u64,
}

/// The parameters of one deployed LWE bootstrap key.
#[derive(Debug, Clone, Copy, PartialEq, Eq, Structural)]
pub struct LweBootstrapKeyInfo {
    pub level_count: u64,
    pub base_log: u64,
    pub glwe_dimension: u64,
    pub polynomial_size: u64,
    pub input_lwe_dimension: u64,
}

/// The parameters of one deployed LWE keyswitch key.
#[derive(Debug, Clone, Copy, PartialEq, Eq, Structural)]
pub struct LweKeyswitchKeyInfo {
    pub level_count: u64,
    pub base_log: u64,
    pub input_lwe_dimension: u64,
    pub output_lwe_dimension: u64,
}

/// The description of an already-provisioned keyset.
#[derive(Debug, Clone, PartialEq)]
pub struct KeysetInfo {
    pub lwe_secret_keys: Vec<LweSecretKeyInfo>,
    pub lwe_bootstrap_keys: Vec<LweBootstrapKeyInfo>,
    pub lwe_keyswitch_keys: Vec<LweKeyswitchKeyInfo>,
}

/// A restriction derived from a deployed keyset: a candidate is available
/// only when it matches a key that already exists in the keyset.
#[derive(Debug, Clone, PartialEq)]
pub struct KeysetRestriction {
    pub info: KeysetInfo,
}

impl KeysetInfo {
    /// A secret key of the sample-extracted dimension of the GLWE parameters
    /// exists.
    pub open spec fn has_secret_key_for(self, glwe_params: GlweParameters) -> bool {
        exists|i: int|
            0 <= i < self.lwe_secret_keys@.len() && (#[trigger] self.lwe_secret_keys@[i]).lwe_dimension
                == glwe_params.spec_sample_extract_lwe_dimension()
    }

    /// A bootstrap key matching the macro parameters exists: same GLWE
    /// dimension, same polynomial size, and its input dimension is the
    /// partition's internal dimension.
    pub open spec fn bootstrap_key_matches_macro(
        self,
        i: int,
        macro_parameters: MacroParameters,
    ) -> bool {
        &&& self.lwe_bootstrap_keys@[i].glwe_dimension
            == macro_parameters.glwe_params.glwe_dimension
        &&& self.lwe_bootstrap_keys@[i].polynomial_size == vstd::arithmetic::power2::pow2(
            macro_parameters.glwe_params.log2_polynomial_size as nat,
        )
        &&& self.lwe_bootstrap_keys@[i].input_lwe_dimension == macro_parameters.internal_dim
    }

    /// Some bootstrap key matches the macro parameters.
    pub open spec fn has_bootstrap_key_for(self, macro_parameters: MacroParameters) -> bool {
        exists|i: int|
            0 <= i < self.lwe_bootstrap_keys@.len() && #[trigger] self.bootstrap_key_matches_macro(
                i,
                macro_parameters,
            )
    }

    /// Some bootstrap key matches the macro parameters and the bootstrap
    /// decomposition.
    pub open spec fn has_bootstrap_key_for_pbs(
        self,
        macro_parameters: MacroParameters,
        pbs_parameters: BrDecompositionParameters,
    ) -> bool {
        exists|i: int|
            0 <= i < self.lwe_bootstrap_keys@.len() && #[trigger] self.bootstrap_key_matches_macro(
                i,
                macro_parameters,
            ) && self.lwe_bootstrap_keys@[i].level_count == pbs_parameters.level
                && self.lwe_bootstrap_keys@[i].base_log == pbs_parameters.log2_base
    }

    /// Some keyswitch key runs from `input_dim` to `output_dim` with the
    /// given decomposition.
    pub open spec fn has_keyswitch_key(
        self,
        input_dim: nat,
        output_dim: nat,
        ks_parameters: KsDecompositionParameters,
    ) -> bool {
        exists|i: int|
            0 <= i < self.lwe_keyswitch_keys@.len() && (#[trigger] self.lwe_keyswitch_keys@[i]).input_lwe_dimension
                == input_dim && self.lwe_keyswitch_keys@[i].output_lwe_dimension == output_dim
                && self.lwe_keyswitch_keys@[i].level_count == ks_parameters.level
                && self.lwe_keyswitch_keys@[i].base_log == ks_parameters.log2_base
    }
}

impl KeysetRestriction {
    /// Exec search for a matching secret key.
    fn find_secret_key(&self, extracted_dim: u64) -> (r: bool)
        ensures
            r == exists|i: int|
                0 <= i < self.info.lwe_secret_keys@.len() && (
                #[trigger] self.info.lwe_secret_keys@[i]).lwe_dimension == extracted_dim,
    {
        let n = self.info.lwe_secret_keys.len();
        let mut i: usize = 0;
        while i < n
            invariant
                i <= n,
                n == self.info.lwe_secret_keys@.len(),
                forall|k: int|
                    0 <= k < i ==> (#[trigger] self.info.lwe_secret_keys@[k]).lwe_dimension
                        != extracted_dim,
            decreases n - i,
        {
            if self.info.lwe_secret_keys[i].lwe_dimension == extracted_dim {
                return true;
            }
            i += 1;
        }
        false
    }

    /// Exec search for a bootstrap key matching the macro parameters and,
    /// when asked, the bootstrap decomposition.
    fn find_bootstrap_key(
        &self,
        macro_parameters: MacroParameters,
        pbs_parameters: Option<&BrDecompositionParameters>,
    ) -> (r: bool)
        requires
            macro_parameters.glwe_params.wf(),
        ensures
            pbs_parameters is None ==> r == self.info.has_bootstrap_key_for(macro_parameters),
            pbs_parameters matches Some(p) ==> r == self.info.has_bootstrap_key_for_pbs(
                macro_parameters,
                *p,
            ),
    {
        proof {
            vstd::bits::lemma_u64_pow2_no_overflow(
                macro_parameters.glwe_params.log2_polynomial_size as nat,
            );
            vstd::bits::lemma_u64_shl_is_mul(
                1u64,
                macro_parameters.glwe_params.log2_polynomial_size,
            );
        }
        let polynomial_size: u64 = 1u64 << macro_parameters.glwe_params.log2_polynomial_size;
        let n = self.info.lwe_bootstrap_keys.len();
        let mut i: usize = 0;
        while i < n
            invariant
                i <= n,
                n == self.info.lwe_bootstrap_keys@.len(),
                polynomial_size == vstd::arithmetic::power2::pow2(
                    macro_parameters.glwe_params.log2_polynomial_size as nat,
                ),
                forall|k: int|
                    0 <= k < i ==> !(#[trigger] self.info.bootstrap_key_matches_macro(
                        k,
                        macro_parameters,
                    ) && (pbs_parameters matches Some(p) ==> self.info.lwe_bootstrap_keys@[k].level_count
                        == p.level && self.info.lwe_bootstrap_keys@[k].base_log == p.log2_base)),
            decreases n - i,
        {
            let b = &self.info.lwe_bootstrap_keys[i];
            let macro_match = b.glwe_dimension == macro_parameters.glwe_params.glwe_dimension
                && b.polynomial_size == polynomial_size && b.input_lwe_dimension
                == macro_parameters.internal_dim;
            let full_match = match pbs_parameters {
                None => macro_match,
                Some(p) => macro_match && b.level_count == p.level && b.base_log == p.log2_base,
            };
            if full_match {
                proof {
                    assert(self.info.bootstrap_key_matches_macro(i as int, macro_parameters));
                }
                return true;
            }
            i += 1;
        }
        false
    }

    /// Exec search for a keyswitch key with the given end points and
    /// decomposition.
    fn find_keyswitch_key(
        &self,
        input_dim: u64,
        output_dim: u64,
        ks_parameters: &KsDecompositionParameters,
    ) -> (r: bool)
        ensures
            r == self.info.has_keyswitch_key(input_dim as nat, output_dim as nat, *ks_parameters),
    {
        let n = self.info.lwe_keyswitch_keys.len();
        let mut i: usize = 0;
        while i < n
            invariant
                i <= n,
                n == self.info.lwe_keyswitch_keys@.len(),
                forall|k: int|
                    0 <= k < i ==> !((#[trigger] self.info.lwe_keyswitch_keys@[k]).input_lwe_dimension
                        == input_dim && self.info.lwe_keyswitch_keys@[k].output_lwe_dimension
                        == output_dim && self.info.lwe_keyswitch_keys@[k].level_count
                        == ks_parameters.level && self.info.lwe_keyswitch_keys@[k].base_log
                        == ks_parameters.log2_base),
            decreases n - i,
    {
            let k = &self.info.lwe_keyswitch_keys[i];
            if k.input_lwe_dimension == input_dim && k.output_lwe_dimension == output_dim
                && k.level_count == ks_parameters.level && k.base_log == ks_parameters.log2_base {
                return true;
            }
            i += 1;
        }
        false
    }
}

impl SearchSpaceRestriction for KeysetRestriction {
    open spec fn spec_available_glwe(&self, partition: usize, glwe_params: GlweParameters) -> bool {
        self.info.has_secret_key_for(glwe_params)
    }

    open spec fn spec_available_macro(
        &self,
        partition: usize,
        macro_parameters: MacroParameters,
    ) -> bool {
        self.info.has_bootstrap_key_for(macro_parameters)
    }

    open spec fn spec_available_micro_pbs(
        &self,
        partition: usize,
        macro_parameters: MacroParameters,
        pbs_parameters: BrDecompositionParameters,
    ) -> bool {
        self.info.has_bootstrap_key_for_pbs(macro_parameters, pbs_parameters)
    }

    open spec fn spec_available_micro_ks(
        &self,
        from_partition: usize,
        from_macro: MacroParameters,
        to_partition: usize,
        to_macro: MacroParameters,
        ks_parameters: KsDecompositionParameters,
    ) -> bool {
        self.info.has_keyswitch_key(
            from_macro.glwe_params.spec_sample_extract_lwe_dimension(),
            to_macro.internal_dim as nat,
            ks_parameters,
        )
    }

    open spec fn spec_available_micro_fks(
        &self,
        from_partition: usize,
        from_macro: MacroParameters,
        to_partition: usize,
        to_macro: MacroParameters,
        ks_parameters: KsDecompositionParameters,
    ) -> bool {
        self.info.has_keyswitch_key(
            from_macro.glwe_params.spec_sample_extract_lwe_dimension(),
            to_macro.glwe_params.spec_sample_extract_lwe_dimension(),
            ks_parameters,
        )
    }

    fn is_available_glwe(&self, partition: usize, glwe_params: GlweParameters) -> (r: bool) {
        self.find_secret_key(glwe_params.sample_extract_lwe_dimension())
    }

    fn is_available_macro(&self, partition: usize, macro_parameters: MacroParameters) -> (r: bool) {
        self.find_bootstrap_key(macro_parameters, None)
    }

    fn is_available_micro_pbs(
        &self,
        partition: usize,
        macro_parameters: MacroParameters,
        pbs_parameters: BrDecompositionParameters,
    ) -> (r: bool) {
        self.find_bootstrap_key(macro_parameters, Some(&pbs_parameters))
    }

    fn is_available_micro_ks(
        &self,
        from_partition: usize,
        from_macro: MacroParameters,
        to_partition: usize,
        to_macro: MacroParameters,
        ks_parameters: KsDecompositionParameters,
    ) -> (r: bool) {
        self.find_keyswitch_key(
            from_macro.glwe_params.sample_extract_lwe_dimension(),
            to_macro.internal_dim,
            &ks_parameters,
        )
    }

    fn is_available_micro_fks(
        &self,
        from_partition: usize,
        from_macro: MacroParameters,
        to_partition: usize,
        to_macro: MacroParameters,
        ks_parameters: KsDecompositionParameters,
    ) -> (r: bool) {
        self.find_keyswitch_key(
            from_macro.glwe_params.sample_extract_lwe_dimension(),
            to_macro.glwe_params.sample_extract_lwe_dimension(),
            &ks_parameters,
        )
    }
}

/// The conjunction of two restrictions: a candidate is available only when
/// both constituents allow it.
#[derive(Debug, Clone, PartialEq)]
pub struct CombinedRestriction<A, B> {
    pub first: A,
    pub second: B,
}

impl<A: SearchSpaceRestriction, B: SearchSpaceRestriction> SearchSpaceRestriction
    for CombinedRestriction<A, B> {
    open spec fn spec_available_glwe(&self, partition: usize, glwe_params: GlweParameters) -> bool {
        &&& self.first.spec_available_glwe(partition, glwe_params)
        &&& self.second.spec_available_glwe(partition, glwe_params)
    }

    open spec fn spec_available_macro(
        &self,
        partition: usize,
        macro_parameters: MacroParameters,
    ) -> bool {
        &&& self.first.spec_available_macro(partition, macro_parameters)
        &&& self.second.spec_available_macro(partition, macro_parameters)
    }

    open spec fn spec_available_micro_pbs(
        &self,
        partition: usize,
        macro_parameters: MacroParameters,
        pbs_parameters: BrDecompositionParameters,
    ) -> bool {
        &&& self.first.spec_available_micro_pbs(partition, macro_parameters, pbs_parameters)
        &&& self.second.spec_available_micro_pbs(partition, macro_parameters, pbs_parameters)
    }

    open spec fn spec_available_micro_ks(
        &self,
        from_partition: usize,
        from_macro: MacroParameters,
        to_partition: usize,
        to_macro: MacroParameters,
        ks_parameters: KsDecompositionParameters,
    ) -> bool {
        &&& self.first.spec_available_micro_ks(
            from_partition,
            from_macro,
            to_partition,
            to_macro,
            ks_parameters,
        )
        &&& self.second.spec_available_micro_ks(
            from_partition,
            from_macro,
            to_partition,
            to_macro,
            ks_parameters,
        )
    }

    open spec fn spec_available_micro_fks(
        &self,
        from_partition: usize,
        from_macro: MacroParameters,
        to_partition: usize,
        to_macro: MacroParameters,
        ks_parameters: KsDecompositionParameters,
    ) -> bool {
        &&& self.first.spec_available_micro_fks(
            from_partition,
            from_macro,
            to_partition,
            to_macro,
            ks_parameters,
        )
        &&& self.second.spec_available_micro_fks(
            from_partition,
            from_macro,
            to_partition,
            to_macro,
            ks_parameters,
        )
    }

    fn is_available_glwe(&self, partition: usize, glwe_params: GlweParameters) -> (r: bool) {
        self.first.is_available_glwe(partition, glwe_params) && self.second.is_available_glwe(
            partition,
            glwe_params,
        )
    }

    fn is_available_macro(&self, partition: usize, macro_parameters: MacroParameters) -> (r: bool) {
        self.first.is_available_macro(partition, macro_parameters)
            && self.second.is_available_macro(partition, macro_parameters)
    }

    fn is_available_micro_pbs(
        &self,
        partition: usize,
        macro_parameters: MacroParameters,
        pbs_parameters: BrDecompositionParameters,
    ) -> (r: bool) {
        self.first.is_available_micro_pbs(partition, macro_parameters, pbs_parameters)
            && self.second.is_available_micro_pbs(partition, macro_parameters, pbs_parameters)
    }

    fn is_available_micro_ks(
        &self,
        from_partition: usize,
        from_macro: MacroParameters,
        to_partition: usize,
        to_macro: MacroParameters,
        ks_parameters: KsDecompositionParameters,
    ) -> (r: bool) {
        self.first.is_available_micro_ks(
            from_partition,
            from_macro,
            to_partition,
            to_macro,
            ks_parameters,
        ) && self.second.is_available_micro_ks(
            from_partition,
            from_macro,
            to_partition,
            to_macro,
            ks_parameters,
        )
    }

    fn is_available_micro_fks(
        &self,
        from_partition: usize,
        from_macro: MacroParameters,
        to_partition: usize,
        to_macro: MacroParameters,
        ks_parameters: KsDecompositionParameters,
    ) -> (r: bool) {
        self.first.is_available_micro_fks(
            from_partition,
            from_macro,
            to_partition,
            to_macro,
            ks_parameters,
        ) && self.second.is_available_micro_fks(
            from_partition,
            from_macro,
            to_partition,
            to_macro,
            ks_parameters,
        )
    }
}


/// `tighter` tightens `wider` when, field by field, every value `tighter`
/// allows is also allowed by `wider`.
pub open spec fn range_tightens(tighter: RangeRestriction, wider: RangeRestriction) -> bool {
    &&& forall|x: u64|
        allowed(tighter.glwe_log_polynomial_sizes@, x) ==> allowed(
            wider.glwe_log_polynomial_sizes@,
            x,
        )
    &&& forall|x: u64|
        allowed(tighter.glwe_dimensions@, x) ==> allowed(wider.glwe_dimensions@, x)
    &&& forall|x: u64|
        allowed(tighter.internal_lwe_dimensions@, x) ==> allowed(wider.internal_lwe_dimensions@, x)
    &&& forall|x: u64| allowed(tighter.pbs_level_count@, x) ==> allowed(wider.pbs_level_count@, x)
    &&& forall|x: u64| allowed(tighter.pbs_base_log@, x) ==> allowed(wider.pbs_base_log@, x)
    &&& forall|x: u64| allowed(tighter.ks_level_count@, x) ==> allowed(wider.ks_level_count@, x)
    &&& forall|x: u64| allowed(tighter.ks_base_log@, x) ==> allowed(wider.ks_base_log@, x)
}

/// Restriction monotonicity against the full search space: whatever any
/// restriction makes available is available in the unrestricted space, so
/// the feasible region of a restricted search is always a subset of the
/// feasible region of an unrestricted search.
pub proof fn lemma_restriction_within_unrestricted<R: SearchSpaceRestriction>(
    r: R,
    unrestricted: NoSearchSpaceRestriction,
    partition: usize,
    glwe_params: GlweParameters,
    macro_parameters: MacroParameters,
    pbs_parameters: BrDecompositionParameters,
    to_partition: usize,
    to_macro: MacroParameters,
    ks_parameters: KsDecompositionParameters,
)
    ensures
        r.spec_available_glwe(partition, glwe_params) ==> unrestricted.spec_available_glwe(
            partition,
            glwe_params,
        ),
        r.spec_available_macro(partition, macro_parameters) ==> unrestricted.spec_available_macro(
            partition,
            macro_parameters,
        ),
        r.spec_available_micro_pbs(partition, macro_parameters, pbs_parameters)
            ==> unrestricted.spec_available_micro_pbs(
            partition,
            macro_parameters,
            pbs_parameters,
        ),
        r.spec_available_micro_ks(
            partition,
            macro_parameters,
            to_partition,
            to_macro,
            ks_parameters,
        ) ==> unrestricted.spec_available_micro_ks(
            partition,
            macro_parameters,
            to_partition,
            to_macro,
            ks_parameters,
        ),
        r.spec_available_micro_fks(
            partition,
            macro_parameters,
            to_partition,
            to_macro,
            ks_parameters,
        ) ==> unrestricted.spec_available_micro_fks(
            partition,
            macro_parameters,
            to_partition,
            to_macro,
            ks_parameters,
        ),
{
}

/// Restriction monotonicity between range restrictions: tightening any
/// range field never makes more candidates available, on any of the five
/// queries, so it never increases feasibility.
pub proof fn lemma_range_tightening_monotone(
    tighter: RangeRestriction,
    wider: RangeRestriction,
    partition: usize,
    glwe_params: GlweParameters,
    macro_parameters: MacroParameters,
    pbs_parameters: BrDecompositionParameters,
    to_partition: usize,
    to_macro: MacroParameters,
    ks_parameters: KsDecompositionParameters,
)
    requires
        range_tightens(tighter, wider),
    ensures
        tighter.spec_available_glwe(partition, glwe_params) ==> wider.spec_available_glwe(
            partition,
            glwe_params,
        ),
        tighter.spec_available_macro(partition, macro_parameters) ==> wider.spec_available_macro(
            partition,
            macro_parameters,
        ),
        tighter.spec_available_micro_pbs(partition, macro_parameters, pbs_parameters)
            ==> wider.spec_available_micro_pbs(partition, macro_parameters, pbs_parameters),
        tighter.spec_available_micro_ks(
            partition,
            macro_parameters,
            to_partition,
            to_macro,
            ks_parameters,
        ) ==> wider.spec_available_micro_ks(
            partition,
            macro_parameters,
            to_partition,
            to_macro,
            ks_parameters,
        ),
        tighter.spec_available_micro_fks(
            partition,
            macro_parameters,
            to_partition,
            to_macro,
            ks_parameters,
        ) ==> wider.spec_available_micro_fks(
            partition,
            macro_parameters,
            to_partition,
            to_macro,
            ks_parameters,
        ),
{
}

/// A conjunction is itself monotone: it never makes a candidate available
/// that either constituent refuses.
pub proof fn lemma_combined_within_constituents<A: SearchSpaceRestriction, B: SearchSpaceRestriction>(
    combined: CombinedRestriction<A, B>,
    partition: usize,
    glwe_params: GlweParameters,
)
    ensures
        combined.spec_available_glwe(partition, glwe_params)
            ==> combined.first.spec_available_glwe(partition, glwe_params)
            && combined.second.spec_available_glwe(partition, glwe_params),
{
}

} // verus!
