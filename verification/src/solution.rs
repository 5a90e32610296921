//! Solve results and the key-assignment builder.  A solve either succeeds
//! with concrete parameters, or reports recoverable infeasibility through a
//! sentinel value whose error probability reads exactly 1.0 — never through
//! a fault.  All real-valued figures are carried as IEEE-754 bit patterns
//! (see [`crate::fp`]).

use crate::dag::Dag;
use crate::fp::{F64_NAN_BITS, F64_ONE_BITS};
use crate::keys::{
    BootstrapKey, CircuitBoostrapKey, CircuitKeys, InstructionKeys, KeySwitchKey,
    PrivateFunctionalPackingBoostrapKey, SecretLweKey, NO_KEY_ID,
};
use crate::parameters::{BrDecompositionParameters, KsDecompositionParameters};
use vstd::prelude::*;

verus! {

/// The result of a single-parameter-set solve without graph information.
#[derive(Debug, Clone, Copy, PartialEq, Eq, Structural)]
pub struct Solution {
    pub input_lwe_dimension: u64,
    pub internal_ks_output_lwe_dimension: u64,
    pub ks_decomposition_level_count: u64,
    pub ks_decomposition_base_log: u64,
    pub glwe_polynomial_size: u64,
    pub glwe_dimension: u64,
    pub br_decomposition_level_count: u64,
    pub br_decomposition_base_log: u64,
    pub complexity_bits: u64,
    pub noise_max_bits: u64,
    pub p_error_bits: u64,
}

impl Solution {
    /// The reserved sentinel: an error probability of exactly 1.0 marks
    /// "no solution found".
    pub open spec fn spec_is_sentinel(self) -> bool {
        self.p_error_bits == F64_ONE_BITS
    }
}

impl Default for Solution {
    /// All-zero figures: the zero bit pattern reads as the double `0.0`.
    fn default() -> (r: Self)
        ensures
            r.input_lwe_dimension == 0,
            r.internal_ks_output_lwe_dimension == 0,
            r.ks_decomposition_level_count == 0,
            r.ks_decomposition_base_log == 0,
            r.glwe_polynomial_size == 0,
            r.glwe_dimension == 0,
            r.br_decomposition_level_count == 0,
            r.br_decomposition_base_log == 0,
            r.complexity_bits == 0,
            r.noise_max_bits == 0,
            r.p_error_bits == 0,
    {
        Solution {
            input_lwe_dimension: 0,
            internal_ks_output_lwe_dimension: 0,
            ks_decomposition_level_count: 0,
            ks_decomposition_base_log: 0,
            glwe_polynomial_size: 0,
            glwe_dimension: 0,
            br_decomposition_level_count: 0,
            br_decomposition_base_log: 0,
            complexity_bits: 0,
            noise_max_bits: 0,
            p_error_bits: 0,
        }
    }
}

/// The sentinel single-parameter solution: error probability 1.0, every
/// other figure zero.
pub open spec fn spec_no_solution() -> Solution {
    Solution {
        input_lwe_dimension: 0,
        internal_ks_output_lwe_dimension: 0,
        ks_decomposition_level_count: 0,
        ks_decomposition_base_log: 0,
        glwe_polynomial_size: 0,
        glwe_dimension: 0,
        br_decomposition_level_count: 0,
        br_decomposition_base_log: 0,
        complexity_bits: 0,
        noise_max_bits: 0,
        p_error_bits: F64_ONE_BITS,
    }
}

/// The sentinel single-parameter solution: error probability 1.0, every
/// other figure zero.
pub fn no_solution() -> (r: Solution)
    ensures
        r == spec_no_solution(),
        r.spec_is_sentinel(),
{
    Solution { p_error_bits: F64_ONE_BITS, ..Default::default() }
}

/// Settles a single-parameter bootstrap solve: the external search's
/// outcome is returned, or the full sentinel when the search found
/// nothing.  A non-sentinel result respects the configured
/// error-probability ceiling; infeasibility is reported structurally,
/// never as a fault.
pub fn optimize_bootstrap(
    options: &crate::options::Options,
    search_outcome: Option<Solution>,
) -> (r: Solution)
    requires
        search_outcome matches Some(s) ==> s.p_error_bits <= F64_ONE_BITS && (s.p_error_bits
            < F64_ONE_BITS ==> s.p_error_bits
            <= options.maximum_acceptable_error_probability_bits),
    ensures
        search_outcome matches Some(s) ==> r == s,
        search_outcome is None ==> r == spec_no_solution(),
        !r.spec_is_sentinel() ==> r.p_error_bits
            <= options.maximum_acceptable_error_probability_bits,
{
    match search_outcome {
        Some(s) => s,
        None => no_solution(),
    }
}

/// The result of a single-parameter solve over a graph, including the
/// alternate ("WoP") bootstrapping figures when that strategy was selected.
#[derive(Debug, Clone, PartialEq)]
pub struct DagSolution {
    pub input_lwe_dimension: u64,
    pub internal_ks_output_lwe_dimension: u64,
    pub ks_decomposition_level_count: u64,
    pub ks_decomposition_base_log: u64,
    pub glwe_polynomial_size: u64,
    pub glwe_dimension: u64,
    pub br_decomposition_level_count: u64,
    pub br_decomposition_base_log: u64,
    pub complexity_bits: u64,
    pub noise_max_bits: u64,
    pub p_error_bits: u64,
    pub global_p_error_bits: u64,
    pub use_wop_pbs: bool,
    pub cb_decomposition_level_count: u64,
    pub cb_decomposition_base_log: u64,
    pub pp_decomposition_level_count: u64,
    pub pp_decomposition_base_log: u64,
    pub crt_decomposition: Vec<u64>,
}

impl DagSolution {
    /// The reserved sentinel: an error probability of exactly 1.0 marks
    /// "no solution found".
    pub open spec fn spec_is_sentinel(self) -> bool {
        self.p_error_bits == F64_ONE_BITS
    }
}

impl Default for DagSolution {
    /// All-zero figures: the zero bit pattern reads as the double `0.0`.
    fn default() -> (r: Self)
        ensures
            r.input_lwe_dimension == 0,
            r.internal_ks_output_lwe_dimension == 0,
            r.ks_decomposition_level_count == 0,
            r.ks_decomposition_base_log == 0,
            r.glwe_polynomial_size == 0,
            r.glwe_dimension == 0,
            r.br_decomposition_level_count == 0,
            r.br_decomposition_base_log == 0,
            r.complexity_bits == 0,
            r.noise_max_bits == 0,
            r.p_error_bits == 0,
            r.global_p_error_bits == 0,
            !r.use_wop_pbs,
            r.cb_decomposition_level_count == 0,
            r.cb_decomposition_base_log == 0,
            r.pp_decomposition_level_count == 0,
            r.pp_decomposition_base_log == 0,
            r.crt_decomposition@.len() == 0,
    {
        DagSolution {
            input_lwe_dimension: 0,
            internal_ks_output_lwe_dimension: 0,
            ks_decomposition_level_count: 0,
            ks_decomposition_base_log: 0,
            glwe_polynomial_size: 0,
            glwe_dimension: 0,
            br_decomposition_level_count: 0,
            br_decomposition_base_log: 0,
            complexity_bits: 0,
            noise_max_bits: 0,
            p_error_bits: 0,
            global_p_error_bits: 0,
            use_wop_pbs: false,
            cb_decomposition_level_count: 0,
            cb_decomposition_base_log: 0,
            pp_decomposition_level_count: 0,
            pp_decomposition_base_log: 0,
            crt_decomposition: Vec::new(),
        }
    }
}

/// The sentinel graph solution: error probability 1.0, every other field
/// its default — all figures zero, the alternate strategy off, and no CRT
/// decomposition.
pub open spec fn is_no_dag_solution(s: DagSolution) -> bool {
    &&& s.p_error_bits == F64_ONE_BITS
    &&& s.input_lwe_dimension == 0
    &&& s.internal_ks_output_lwe_dimension == 0
    &&& s.ks_decomposition_level_count == 0
    &&& s.ks_decomposition_base_log == 0
    &&& s.glwe_polynomial_size == 0
    &&& s.glwe_dimension == 0
    &&& s.br_decomposition_level_count == 0
    &&& s.br_decomposition_base_log == 0
    &&& s.complexity_bits == 0
    &&& s.noise_max_bits == 0
    &&& s.global_p_error_bits == 0
    &&& !s.use_wop_pbs
    &&& s.cb_decomposition_level_count == 0
    &&& s.cb_decomposition_base_log == 0
    &&& s.pp_decomposition_level_count == 0
    &&& s.pp_decomposition_base_log == 0
    &&& s.crt_decomposition@ == Seq::<u64>::empty()
}

/// The sentinel graph solution: error probability 1.0, every other field
/// its default.
pub fn no_dag_solution() -> (r: DagSolution)
    ensures
        is_no_dag_solution(r),
        r.spec_is_sentinel(),
{
    let r = DagSolution { p_error_bits: F64_ONE_BITS, ..Default::default() };
    proof {
        assert(r.crt_decomposition@ =~= Seq::<u64>::empty());
    }
    r
}

/// Lifts a single-parameter solution to a graph solution: the figures are
/// copied, the global error probability is left undefined (NaN bits) and
/// the alternate bootstrapping strategy is off.
pub fn convert_to_dag_solution(sol: &Solution) -> (r: DagSolution)
    ensures
        r.input_lwe_dimension == sol.input_lwe_dimension,
        r.internal_ks_output_lwe_dimension == sol.internal_ks_output_lwe_dimension,
        r.ks_decomposition_level_count == sol.ks_decomposition_level_count,
        r.ks_decomposition_base_log == sol.ks_decomposition_base_log,
        r.glwe_polynomial_size == sol.glwe_polynomial_size,
        r.glwe_dimension == sol.glwe_dimension,
        r.br_decomposition_level_count == sol.br_decomposition_level_count,
        r.br_decomposition_base_log == sol.br_decomposition_base_log,
        r.complexity_bits == sol.complexity_bits,
        r.noise_max_bits == sol.noise_max_bits,
        r.p_error_bits == sol.p_error_bits,
        r.global_p_error_bits == F64_NAN_BITS,
        !r.use_wop_pbs,
        r.cb_decomposition_level_count == 0,
        r.cb_decomposition_base_log == 0,
        r.pp_decomposition_level_count == 0,
        r.pp_decomposition_base_log == 0,
        r.crt_decomposition@.len() == 0,
        r.spec_is_sentinel() == sol.spec_is_sentinel(),
{
    DagSolution {
        input_lwe_dimension: sol.input_lwe_dimension,
        internal_ks_output_lwe_dimension: sol.internal_ks_output_lwe_dimension,
        ks_decomposition_level_count: sol.ks_decomposition_level_count,
        ks_decomposition_base_log: sol.ks_decomposition_base_log,
        glwe_polynomial_size: sol.glwe_polynomial_size,
        glwe_dimension: sol.glwe_dimension,
        br_decomposition_level_count: sol.br_decomposition_level_count,
        br_decomposition_base_log: sol.br_decomposition_base_log,
        complexity_bits: sol.complexity_bits,
        noise_max_bits: sol.noise_max_bits,
        p_error_bits: sol.p_error_bits,
        global_p_error_bits: F64_NAN_BITS,
        use_wop_pbs: false,
        cb_decomposition_level_count: 0,
        cb_decomposition_base_log: 0,
        pp_decomposition_level_count: 0,
        pp_decomposition_base_log: 0,
        crt_decomposition: Vec::new(),
    }
}


/// A multi-parameter solve result: the complete keyset, one key-binding
/// record per operator, the CRT decomposition, the cost and error figures,
/// and the explicit feasibility flag with its explanation.
#[derive(Debug, PartialEq)]
pub struct CircuitSolution {
    pub circuit_keys: CircuitKeys,
    pub instructions_keys: Vec<InstructionKeys>,
    pub crt_decomposition: Vec<u64>,
    pub complexity_bits: u64,
    pub p_error_bits: u64,
    pub global_p_error_bits: u64,
    pub is_feasible: bool,
    pub error_msg: String,
}

impl CircuitSolution {
    /// The sentinel invariant: an infeasible solution carries error
    /// probability exactly 1.0 and the message that no parameters satisfy
    /// the constraints; a feasible one carries error probability strictly
    /// less than 1.0.
    pub open spec fn feasibility_wf(self) -> bool {
        &&& self.p_error_bits <= F64_ONE_BITS
        &&& self.is_feasible <==> self.p_error_bits < F64_ONE_BITS
        &&& (!self.is_feasible ==> self.error_msg@
            == "No crypto-parameters for the given constraints"@)
    }

    /// Key consistency: every identifier referenced by any emitted
    /// instruction record exists in the corresponding key vector.
    pub open spec fn keys_consistent(self) -> bool {
        forall|i: int|
            0 <= i < self.instructions_keys@.len() ==> (
            #[trigger] self.instructions_keys@[i]).consistent_with(self.circuit_keys)
    }

    /// What a multi-parameter solve accepts from the external search: the
    /// sentinel invariant, key consistency, unique key identifiers, and a
    /// feasible result under the configured ceiling.
    pub open spec fn spec_admissible(self, options: crate::options::Options) -> bool {
        &&& self.feasibility_wf()
        &&& self.keys_consistent()
        &&& self.circuit_keys.ids_unique()
        &&& (self.is_feasible ==> self.p_error_bits
            <= options.maximum_acceptable_error_probability_bits)
    }

    /// Exec mirror of [`Self::spec_admissible`]: callers gate an external
    /// search outcome with this test before handing it to
    /// [`Dag::optimize_multi`].
    pub fn check_admissible(&self, options: &crate::options::Options) -> (r: bool)
        ensures
            r == self.spec_admissible(*options),
    {
        if self.p_error_bits > F64_ONE_BITS {
            return false;
        }
        if self.is_feasible != (self.p_error_bits < F64_ONE_BITS) {
            return false;
        }
        if !self.is_feasible {
            let expected = String::from_str("No crypto-parameters for the given constraints");
            if !self.error_msg.eq(&expected) {
                return false;
            }
        }
        if self.is_feasible && self.p_error_bits
            > options.maximum_acceptable_error_probability_bits {
            return false;
        }
        if !self.circuit_keys.check_ids_unique() {
            return false;
        }
        let n = self.instructions_keys.len();
        let mut i: usize = 0;
        while i < n
            invariant
                i <= n,
                n == self.instructions_keys@.len(),
                forall|k: int|
                    0 <= k < i ==> (#[trigger] self.instructions_keys@[k]).consistent_with(
                        self.circuit_keys,
                    ),
            decreases n - i,
        {
            if !self.instructions_keys[i].check_consistent_with(&self.circuit_keys) {
                return false;
            }
            i += 1;
        }
        true
    }
}

/// The key bindings shared by every operator in the single-partition case:
/// input and output under the big key, the single keyswitch and bootstrap
/// key, and the alternate-strategy keys only when that strategy is active.
pub open spec fn spec_single_partition_instruction(ik: InstructionKeys, use_wop: bool) -> bool {
    &&& ik.input_key == 0
    &&& ik.output_key == 0
    &&& ik.tlu_keyswitch_key == 0
    &&& ik.tlu_bootstrap_key == 0
    &&& ik.tlu_circuit_bootstrap_key == (if use_wop {
        0u64
    } else {
        NO_KEY_ID
    })
    &&& ik.tlu_private_functional_packing_key == (if use_wop {
        0u64
    } else {
        NO_KEY_ID
    })
    &&& ik.extra_conversion_keys@.len() == 0
}

/// The big ("canonical") secret key of a single-partition solution.
fn big_secret_key(sol: &DagSolution) -> (k: SecretLweKey)
    ensures
        k.identifier == 0,
        k.polynomial_size == sol.glwe_polynomial_size,
        k.glwe_dimension == sol.glwe_dimension,
        k.description@ == "big representation"@,
{
    SecretLweKey {
        identifier: 0,
        polynomial_size: sol.glwe_polynomial_size,
        glwe_dimension: sol.glwe_dimension,
        description: String::from_str("big representation"),
    }
}

/// The small (post-keyswitch) secret key of a single-partition solution.
fn small_secret_key(sol: &DagSolution) -> (k: SecretLweKey)
    ensures
        k.identifier == 1,
        k.polynomial_size == sol.internal_ks_output_lwe_dimension,
        k.glwe_dimension == 1,
        k.description@ == "small representation"@,
{
    SecretLweKey {
        identifier: 1,
        polynomial_size: sol.internal_ks_output_lwe_dimension,
        glwe_dimension: 1,
        description: String::from_str("small representation"),
    }
}

/// Turns a solved single-parameter assignment into a complete circuit
/// solution: exactly one big and one small secret key, one keyswitch and
/// one bootstrap key linking them, the alternate-strategy keys exactly when
/// that strategy was selected, and one identical key-binding record per
/// operator of the graph.  The keyset is structurally well formed even when
/// the assignment is the infeasibility sentinel; feasibility and the
/// explanatory message follow the sentinel invariant.
pub fn convert_to_circuit_solution(sol: &DagSolution, dag: &Dag) -> (r: CircuitSolution)
    requires
        sol.p_error_bits <= F64_ONE_BITS,
    ensures
        r.feasibility_wf(),
        r.keys_consistent(),
        r.circuit_keys.ids_unique(),
        r.is_feasible == (sol.p_error_bits < F64_ONE_BITS),
        r.complexity_bits == sol.complexity_bits,
        r.p_error_bits == sol.p_error_bits,
        r.global_p_error_bits == sol.global_p_error_bits,
        r.crt_decomposition@ == sol.crt_decomposition@,
        r.instructions_keys@.len() == dag.operators@.len(),
        forall|i: int|
            0 <= i < r.instructions_keys@.len() ==> spec_single_partition_instruction(
                #[trigger] r.instructions_keys@[i],
                sol.use_wop_pbs,
            ),
        r.circuit_keys.secret_keys@.len() == 2,
        r.circuit_keys.secret_keys@[0].identifier == 0,
        r.circuit_keys.secret_keys@[0].polynomial_size == sol.glwe_polynomial_size,
        r.circuit_keys.secret_keys@[0].glwe_dimension == sol.glwe_dimension,
        r.circuit_keys.secret_keys@[0].description@ == "big representation"@,
        r.circuit_keys.secret_keys@[1].identifier == 1,
        r.circuit_keys.secret_keys@[1].polynomial_size == sol.internal_ks_output_lwe_dimension,
        r.circuit_keys.secret_keys@[1].glwe_dimension == 1,
        r.circuit_keys.secret_keys@[1].description@ == "small representation"@,
        r.circuit_keys.keyswitch_keys@.len() == 1,
        r.circuit_keys.keyswitch_keys@[0].identifier == 0,
        r.circuit_keys.keyswitch_keys@[0].input_key.identifier == 0,
        r.circuit_keys.keyswitch_keys@[0].output_key.identifier == 1,
        r.circuit_keys.keyswitch_keys@[0].ks_decomposition_parameter == (KsDecompositionParameters {
            level: sol.ks_decomposition_level_count,
            log2_base: sol.ks_decomposition_base_log,
        }),
        r.circuit_keys.keyswitch_keys@[0].description@ == "tlu keyswitch"@,
        r.circuit_keys.bootstrap_keys@.len() == 1,
        r.circuit_keys.bootstrap_keys@[0].identifier == 0,
        r.circuit_keys.bootstrap_keys@[0].input_key.identifier == 1,
        r.circuit_keys.bootstrap_keys@[0].output_key.identifier == 0,
        r.circuit_keys.bootstrap_keys@[0].br_decomposition_parameter == (BrDecompositionParameters {
            level: sol.br_decomposition_level_count,
            log2_base: sol.br_decomposition_base_log,
        }),
        r.circuit_keys.bootstrap_keys@[0].description@ == "tlu bootstrap"@,
        r.circuit_keys.conversion_keyswitch_keys@.len() == 0,
        sol.use_wop_pbs ==> r.circuit_keys.circuit_bootstrap_keys@.len() == 1
            && r.circuit_keys.circuit_bootstrap_keys@[0].identifier == 0
            && r.circuit_keys.circuit_bootstrap_keys@[0].representation_key.identifier == 0
            && r.circuit_keys.circuit_bootstrap_keys@[0].br_decomposition_parameter == (
        BrDecompositionParameters {
            level: sol.cb_decomposition_level_count,
            log2_base: sol.cb_decomposition_base_log,
        }) && r.circuit_keys.circuit_bootstrap_keys@[0].description@
            == "circuit bootstrap for woppbs"@,
        !sol.use_wop_pbs ==> r.circuit_keys.circuit_bootstrap_keys@.len() == 0,
        sol.use_wop_pbs ==> r.circuit_keys.private_functional_packing_keys@.len() == 1
            && r.circuit_keys.private_functional_packing_keys@[0].identifier == 0
            && r.circuit_keys.private_functional_packing_keys@[0].representation_key.identifier
            == 0 && r.circuit_keys.private_functional_packing_keys@[0].br_decomposition_parameter
            == (BrDecompositionParameters {
            level: sol.pp_decomposition_level_count,
            log2_base: sol.pp_decomposition_base_log,
        }) && r.circuit_keys.private_functional_packing_keys@[0].description@
            == "private functional packing for woppbs"@,
        !sol.use_wop_pbs ==> r.circuit_keys.private_functional_packing_keys@.len() == 0,
        r.is_feasible ==> r.error_msg@ == ""@,
        !r.is_feasible ==> r.error_msg@ == "No crypto-parameters for the given constraints"@,
{
    let keyswitch_key = KeySwitchKey {
        identifier: 0,
        input_key: big_secret_key(sol),
        output_key: small_secret_key(sol),
        ks_decomposition_parameter: KsDecompositionParameters {
            level: sol.ks_decomposition_level_count,
            log2_base: sol.ks_decomposition_base_log,
        },
        description: String::from_str("tlu keyswitch"),
    };
    let bootstrap_key = BootstrapKey {
        identifier: 0,
        input_key: small_secret_key(sol),
        output_key: big_secret_key(sol),
        br_decomposition_parameter: BrDecompositionParameters {
            level: sol.br_decomposition_level_count,
            log2_base: sol.br_decomposition_base_log,
        },
        description: String::from_str("tlu bootstrap"),
    };
    let mut circuit_bootstrap_keys: Vec<CircuitBoostrapKey> = Vec::new();
    let mut private_functional_packing_keys: Vec<PrivateFunctionalPackingBoostrapKey> = Vec::new();
    if sol.use_wop_pbs {
        circuit_bootstrap_keys.push(
            CircuitBoostrapKey {
                identifier: 0,
                representation_key: big_secret_key(sol),
                br_decomposition_parameter: BrDecompositionParameters {
                    level: sol.cb_decomposition_level_count,
                    log2_base: sol.cb_decomposition_base_log,
                },
                description: String::from_str("circuit bootstrap for woppbs"),
            },
        );
        private_functional_packing_keys.push(
            PrivateFunctionalPackingBoostrapKey {
                identifier: 0,
                representation_key: big_secret_key(sol),
                br_decomposition_parameter: BrDecompositionParameters {
                    level: sol.pp_decomposition_level_count,
                    log2_base: sol.pp_decomposition_base_log,
                },
                description: String::from_str("private functional packing for woppbs"),
            },
        );
    }
    let tlu_circuit_bootstrap_key: u64 = if sol.use_wop_pbs {
        0
    } else {
        NO_KEY_ID
    };
    let tlu_private_functional_packing_key: u64 = if sol.use_wop_pbs {
        0
    } else {
        NO_KEY_ID
    };
    let n = dag.len();
    let mut instructions_keys: Vec<InstructionKeys> = Vec::new();
    let mut i: usize = 0;
    while i < n
        invariant
            i <= n,
            instructions_keys@.len() == i,
            forall|k: int|
                0 <= k < i ==> spec_single_partition_instruction(
                    #[trigger] instructions_keys@[k],
                    sol.use_wop_pbs,
                ),
            tlu_circuit_bootstrap_key == (if sol.use_wop_pbs {
                0u64
            } else {
                NO_KEY_ID
            }),
            tlu_private_functional_packing_key == (if sol.use_wop_pbs {
                0u64
            } else {
                NO_KEY_ID
            }),
        decreases n - i,
    {
        instructions_keys.push(
            InstructionKeys {
                input_key: 0,
                tlu_keyswitch_key: 0,
                tlu_bootstrap_key: 0,
                tlu_circuit_bootstrap_key,
                tlu_private_functional_packing_key,
                output_key: 0,
                extra_conversion_keys: Vec::new(),
            },
        );
        i += 1;
    }
    let mut secret_keys: Vec<SecretLweKey> = Vec::new();
    secret_keys.push(big_secret_key(sol));
    secret_keys.push(small_secret_key(sol));
    let mut keyswitch_keys: Vec<KeySwitchKey> = Vec::new();
    keyswitch_keys.push(keyswitch_key);
    let mut bootstrap_keys: Vec<BootstrapKey> = Vec::new();
    bootstrap_keys.push(bootstrap_key);
    let circuit_keys = CircuitKeys {
        secret_keys,
        keyswitch_keys,
        bootstrap_keys,
        conversion_keyswitch_keys: Vec::new(),
        circuit_bootstrap_keys,
        private_functional_packing_keys,
    };
    let is_feasible = sol.p_error_bits < F64_ONE_BITS;
    let error_msg = if is_feasible {
        String::from_str("")
    } else {
        String::from_str("No crypto-parameters for the given constraints")
    };
    let r = CircuitSolution {
        circuit_keys,
        instructions_keys,
        crt_decomposition: vstd::slice::slice_to_vec(sol.crt_decomposition.as_slice()),
        complexity_bits: sol.complexity_bits,
        p_error_bits: sol.p_error_bits,
        global_p_error_bits: sol.global_p_error_bits,
        is_feasible,
        error_msg,
    };
    proof {
        assert forall|i2: int| 0 <= i2 < r.instructions_keys@.len() implies (
        #[trigger] r.instructions_keys@[i2]).consistent_with(r.circuit_keys) by {
            assert(spec_single_partition_instruction(r.instructions_keys@[i2], sol.use_wop_pbs));
            assert(r.circuit_keys.secret_keys@[0].identifier == 0);
            assert(r.circuit_keys.has_secret_key_id(0));
            assert(r.circuit_keys.keyswitch_keys@[0].identifier == 0);
            assert(r.circuit_keys.has_keyswitch_key_id(0));
            assert(r.circuit_keys.bootstrap_keys@[0].identifier == 0);
            assert(r.circuit_keys.has_bootstrap_key_id(0));
            if sol.use_wop_pbs {
                assert(r.circuit_keys.circuit_bootstrap_keys@[0].identifier == 0);
                assert(r.circuit_keys.has_circuit_bootstrap_key_id(0));
                assert(r.circuit_keys.private_functional_packing_keys@[0].identifier == 0);
                assert(r.circuit_keys.has_packing_key_id(0));
            }
        }
    }
    r
}

/// Reads a full circuit solution back into the flat single-parameter form:
/// the two secret keys give the big and small dimensions, the first
/// keyswitch and bootstrap keys give the decompositions, and the
/// alternate-strategy figures are taken from its keys when they exist.
/// The noise bound is left undefined (NaN bits).
pub fn dag_solution_from_circuit_solution(sol: &CircuitSolution) -> (r: DagSolution)
    requires
        sol.circuit_keys.secret_keys@.len() == 2,
        sol.circuit_keys.keyswitch_keys@.len() >= 1,
        sol.circuit_keys.bootstrap_keys@.len() >= 1,
        sol.circuit_keys.circuit_bootstrap_keys@.len() > 0
            ==> sol.circuit_keys.circuit_bootstrap_keys@.len() == 1
            && sol.circuit_keys.private_functional_packing_keys@.len() == 1,
        sol.circuit_keys.secret_keys@[0].polynomial_size
            * sol.circuit_keys.secret_keys@[0].glwe_dimension <= u64::MAX,
        sol.circuit_keys.secret_keys@[1].polynomial_size
            * sol.circuit_keys.secret_keys@[1].glwe_dimension <= u64::MAX,
    ensures
        r.input_lwe_dimension == sol.circuit_keys.secret_keys@[0].polynomial_size
            * sol.circuit_keys.secret_keys@[0].glwe_dimension,
        r.internal_ks_output_lwe_dimension == sol.circuit_keys.secret_keys@[1].polynomial_size
            * sol.circuit_keys.secret_keys@[1].glwe_dimension,
        r.ks_decomposition_level_count
            == sol.circuit_keys.keyswitch_keys@[0].ks_decomposition_parameter.level,
        r.ks_decomposition_base_log
            == sol.circuit_keys.keyswitch_keys@[0].ks_decomposition_parameter.log2_base,
        r.glwe_polynomial_size == sol.circuit_keys.secret_keys@[0].polynomial_size,
        r.glwe_dimension == sol.circuit_keys.secret_keys@[0].glwe_dimension,
        r.br_decomposition_level_count
            == sol.circuit_keys.bootstrap_keys@[0].br_decomposition_parameter.level,
        r.br_decomposition_base_log
            == sol.circuit_keys.bootstrap_keys@[0].br_decomposition_parameter.log2_base,
        r.complexity_bits == sol.complexity_bits,
        r.noise_max_bits == F64_NAN_BITS,
        r.p_error_bits == sol.p_error_bits,
        r.global_p_error_bits == sol.global_p_error_bits,
        r.use_wop_pbs == (sol.circuit_keys.circuit_bootstrap_keys@.len() > 0),
        sol.circuit_keys.circuit_bootstrap_keys@.len() > 0 ==> r.cb_decomposition_level_count
            == sol.circuit_keys.circuit_bootstrap_keys@[0].br_decomposition_parameter.level
            && r.cb_decomposition_base_log
            == sol.circuit_keys.circuit_bootstrap_keys@[0].br_decomposition_parameter.log2_base
            && r.pp_decomposition_level_count
            == sol.circuit_keys.private_functional_packing_keys@[0].br_decomposition_parameter.level
            && r.pp_decomposition_base_log
            == sol.circuit_keys.private_functional_packing_keys@[0].br_decomposition_parameter.log2_base,
        sol.circuit_keys.circuit_bootstrap_keys@.len() == 0 ==> r.cb_decomposition_level_count == 0
            && r.cb_decomposition_base_log == 0 && r.pp_decomposition_level_count == 0
            && r.pp_decomposition_base_log == 0,
        r.crt_decomposition@ == sol.crt_decomposition@,
{
    let keys = &sol.circuit_keys;
    let big_key = &keys.secret_keys[0];
    let small_key = &keys.secret_keys[1];
    let input_lwe_dimension = big_key.polynomial_size * big_key.glwe_dimension;
    let internal_ks_output_lwe_dimension = small_key.polynomial_size * small_key.glwe_dimension;
    let keyswitch_key = &keys.keyswitch_keys[0];
    let bootstrap_key = &keys.bootstrap_keys[0];
    let mut cb_decomposition_level_count: u64 = 0;
    let mut cb_decomposition_base_log: u64 = 0;
    let mut pp_decomposition_level_count: u64 = 0;
    let mut pp_decomposition_base_log: u64 = 0;
    let use_wop_pbs = keys.circuit_bootstrap_keys.len() > 0;
    if use_wop_pbs {
        let cb_decomp = &keys.circuit_bootstrap_keys[0].br_decomposition_parameter;
        cb_decomposition_level_count = cb_decomp.level;
        cb_decomposition_base_log = cb_decomp.log2_base;
        let pp_switch_decomp = &keys.private_functional_packing_keys[0].br_decomposition_parameter;
        pp_decomposition_level_count = pp_switch_decomp.level;
        pp_decomposition_base_log = pp_switch_decomp.log2_base;
    }
    DagSolution {
        input_lwe_dimension,
        internal_ks_output_lwe_dimension,
        ks_decomposition_level_count: keyswitch_key.ks_decomposition_parameter.level,
        ks_decomposition_base_log: keyswitch_key.ks_decomposition_parameter.log2_base,
        glwe_polynomial_size: big_key.polynomial_size,
        glwe_dimension: big_key.glwe_dimension,
        br_decomposition_level_count: bootstrap_key.br_decomposition_parameter.level,
        br_decomposition_base_log: bootstrap_key.br_decomposition_parameter.log2_base,
        complexity_bits: sol.complexity_bits,
        noise_max_bits: F64_NAN_BITS,
        p_error_bits: sol.p_error_bits,
        global_p_error_bits: sol.global_p_error_bits,
        use_wop_pbs,
        cb_decomposition_level_count,
        cb_decomposition_base_log,
        pp_decomposition_level_count,
        pp_decomposition_base_log,
        crt_decomposition: vstd::slice::slice_to_vec(sol.crt_decomposition.as_slice()),
    }
}

/// The sentinel multi-parameter solution: infeasible, error probability
/// 1.0, zero complexity, an empty (hence trivially consistent) keyset, no
/// instruction records, no CRT decomposition, and the explanation that no
/// parameters satisfy the constraints.
pub open spec fn is_no_circuit_solution(cs: CircuitSolution) -> bool {
    &&& !cs.is_feasible
    &&& cs.p_error_bits == F64_ONE_BITS
    &&& cs.global_p_error_bits == F64_ONE_BITS
    &&& cs.complexity_bits == 0
    &&& cs.instructions_keys@.len() == 0
    &&& cs.crt_decomposition@ == Seq::<u64>::empty()
    &&& cs.circuit_keys.secret_keys@.len() == 0
    &&& cs.circuit_keys.keyswitch_keys@.len() == 0
    &&& cs.circuit_keys.bootstrap_keys@.len() == 0
    &&& cs.circuit_keys.conversion_keyswitch_keys@.len() == 0
    &&& cs.circuit_keys.circuit_bootstrap_keys@.len() == 0
    &&& cs.circuit_keys.private_functional_packing_keys@.len() == 0
    &&& cs.error_msg@ == "No crypto-parameters for the given constraints"@
}

/// The sentinel multi-parameter solution.
pub fn no_circuit_solution() -> (r: CircuitSolution)
    ensures
        is_no_circuit_solution(r),
        r.feasibility_wf(),
        r.keys_consistent(),
        r.circuit_keys.ids_unique(),
{
    let r = CircuitSolution {
        circuit_keys: CircuitKeys {
            secret_keys: Vec::new(),
            keyswitch_keys: Vec::new(),
            bootstrap_keys: Vec::new(),
            conversion_keyswitch_keys: Vec::new(),
            circuit_bootstrap_keys: Vec::new(),
            private_functional_packing_keys: Vec::new(),
        },
        instructions_keys: Vec::new(),
        crt_decomposition: Vec::new(),
        complexity_bits: 0,
        p_error_bits: F64_ONE_BITS,
        global_p_error_bits: F64_ONE_BITS,
        is_feasible: false,
        error_msg: String::from_str("No crypto-parameters for the given constraints"),
    };
    proof {
        assert(r.crt_decomposition@ =~= Seq::<u64>::empty());
    }
    r
}

impl Dag {
    /// Settles a single-parameter solve: a composed unit is never searched
    /// and yields the full default-valued sentinel; otherwise the external
    /// search's outcome is returned, or that sentinel when the search found
    /// nothing.  A returned non-sentinel solution always respects the
    /// configured error-probability ceiling.
    pub fn optimize(
        &self,
        options: &crate::options::Options,
        search_outcome: Option<DagSolution>,
    ) -> (r: DagSolution)
        requires
            search_outcome matches Some(s) ==> s.p_error_bits <= F64_ONE_BITS && (
            s.p_error_bits < F64_ONE_BITS ==> s.p_error_bits
                <= options.maximum_acceptable_error_probability_bits),
        ensures
            self.spec_is_composed() ==> is_no_dag_solution(r),
            (!self.spec_is_composed() && search_outcome is None) ==> is_no_dag_solution(r),
            search_outcome matches Some(s) ==> (!self.spec_is_composed() ==> r == s),
            !r.spec_is_sentinel() ==> r.p_error_bits
                <= options.maximum_acceptable_error_probability_bits,
    {
        if self.is_composed() {
            return no_dag_solution();
        }
        match search_outcome {
            Some(s) => s,
            None => no_dag_solution(),
        }
    }

    /// Settles a multi-parameter solve: an admissible outcome of the
    /// external search is returned as is, or the full sentinel circuit
    /// solution when the search found nothing.  Either way the result
    /// satisfies the sentinel invariant (including the infeasibility
    /// message), key consistency and key-identifier uniqueness, and a
    /// feasible result respects the configured error-probability ceiling.
    pub fn optimize_multi(
        &self,
        options: &crate::options::Options,
        search_outcome: Option<CircuitSolution>,
    ) -> (r: CircuitSolution)
        requires
            search_outcome matches Some(s) ==> s.spec_admissible(*options),
        ensures
            r.feasibility_wf(),
            r.keys_consistent(),
            r.circuit_keys.ids_unique(),
            search_outcome matches Some(s) ==> r == s,
            search_outcome is None ==> is_no_circuit_solution(r),
            r.is_feasible ==> r.p_error_bits
                <= options.maximum_acceptable_error_probability_bits,
    {
        match search_outcome {
            Some(s) => s,
            None => no_circuit_solution(),
        }
    }
}


} // verus!
