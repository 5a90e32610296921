use circuit_optimizer::dag::Dag;
use circuit_optimizer::fp::{F64_NAN_BITS, F64_ONE_BITS};
use circuit_optimizer::json::{keyset_restriction_from_json, range_restriction_from_json};
use circuit_optimizer::keys::{vec_into, NO_KEY_ID};
use circuit_optimizer::operator::{location_from_string, location_unknown, Location};
use circuit_optimizer::options::{
    processing_unit, Encoding, MultiParamStrategy, Options, ProcessingUnit,
};
use circuit_optimizer::partition::get_external_partition;
use circuit_optimizer::restriction::{
    CombinedRestriction, KeysetInfo, KeysetRestriction, LweBootstrapKeyInfo, LweKeyswitchKeyInfo,
    LweSecretKeyInfo, NoSearchSpaceRestriction, RangeRestriction, SearchSpaceRestriction,
};
use circuit_optimizer::parameters::{
    BrDecompositionParameters, GlweParameters, KsDecompositionParameters, MacroParameters,
};
use circuit_optimizer::keys::{check_virtual_keyset, KeysetError};
use circuit_optimizer::solution::{
    convert_to_circuit_solution, convert_to_dag_solution, dag_solution_from_circuit_solution,
    no_circuit_solution, no_dag_solution, no_solution, optimize_bootstrap, DagSolution, Solution,
};

fn options() -> Options {
    Options {
        security_level: 128,
        maximum_acceptable_error_probability_bits: 0.05f64.to_bits(),
        key_sharing: true,
        multi_param_strategy: MultiParamStrategy::ByPrecision,
        default_log_norm2_woppbs_bits: 8.0f64.to_bits(),
        use_gpu_constraints: false,
        encoding: Encoding::Auto,
        cache_on_disk: false,
        ciphertext_modulus_log: 64,
        fft_precision: 53,
        range_restriction: None,
        keyset_restriction: None,
    }
}

fn feasible_solution() -> DagSolution {
    DagSolution {
        input_lwe_dimension: 2048,
        internal_ks_output_lwe_dimension: 750,
        ks_decomposition_level_count: 5,
        ks_decomposition_base_log: 3,
        glwe_polynomial_size: 2048,
        glwe_dimension: 1,
        br_decomposition_level_count: 1,
        br_decomposition_base_log: 23,
        complexity_bits: 1.0e9f64.to_bits(),
        noise_max_bits: 0.0f64.to_bits(),
        p_error_bits: 0.001f64.to_bits(),
        global_p_error_bits: 0.002f64.to_bits(),
        use_wop_pbs: false,
        cb_decomposition_level_count: 0,
        cb_decomposition_base_log: 0,
        pp_decomposition_level_count: 0,
        pp_decomposition_base_log: 0,
        crt_decomposition: vec![],
    }
}

#[test]
fn sentinel_bits_match_the_doubles() {
    assert_eq!(F64_ONE_BITS, 1.0f64.to_bits());
    assert!(f64::from_bits(F64_NAN_BITS).is_nan());
    assert_eq!(no_solution().p_error_bits, 1.0f64.to_bits());
    assert_eq!(no_dag_solution().p_error_bits, 1.0f64.to_bits());
}

#[test]
fn probability_order_matches_bit_order() {
    // for probabilities in [0, 1] the unsigned order of the IEEE-754 bit
    // patterns is the numeric order, which is what feasibility checks use
    let ps = [0.0f64, 1.0e-30, 0.001, 0.05, 0.999, 1.0];
    for w in ps.windows(2) {
        assert!(w[0].to_bits() < w[1].to_bits());
        assert!(w[1].to_bits() <= F64_ONE_BITS);
    }
}

#[test]
fn optimize_bootstrap_behaviour() {
    let mut s = no_solution();
    s.p_error_bits = 0.01f64.to_bits();
    s.glwe_polynomial_size = 1024;
    let r = optimize_bootstrap(&options(), Some(s));
    assert_eq!(r.glwe_polynomial_size, 1024);
    assert!(r.p_error_bits <= options().maximum_acceptable_error_probability_bits);
    // the fallback is the full default-valued sentinel
    let r = optimize_bootstrap(&options(), None);
    assert_eq!(r, no_solution());
    assert_eq!(r.p_error_bits, 1.0f64.to_bits());
    assert_eq!(r.glwe_polynomial_size, 0);
    assert_eq!(r.complexity_bits, 0);
    assert_eq!(r.ks_decomposition_level_count, 0);
    assert_eq!(r.br_decomposition_base_log, 0);
}

#[test]
fn graph_sentinel_is_fully_default() {
    let r = no_dag_solution();
    assert_eq!(r.p_error_bits, 1.0f64.to_bits());
    assert_eq!(r.input_lwe_dimension, 0);
    assert_eq!(r.internal_ks_output_lwe_dimension, 0);
    assert_eq!(r.ks_decomposition_level_count, 0);
    assert_eq!(r.ks_decomposition_base_log, 0);
    assert_eq!(r.glwe_polynomial_size, 0);
    assert_eq!(r.glwe_dimension, 0);
    assert_eq!(r.br_decomposition_level_count, 0);
    assert_eq!(r.br_decomposition_base_log, 0);
    assert_eq!(r.complexity_bits, 0);
    assert_eq!(r.noise_max_bits, 0);
    assert_eq!(r.global_p_error_bits, 0);
    assert!(!r.use_wop_pbs);
    assert_eq!(r.cb_decomposition_level_count, 0);
    assert_eq!(r.cb_decomposition_base_log, 0);
    assert_eq!(r.pp_decomposition_level_count, 0);
    assert_eq!(r.pp_decomposition_base_log, 0);
    assert!(r.crt_decomposition.is_empty());
}

#[test]
fn convert_to_dag_solution_copies_figures() {
    let s = Solution {
        input_lwe_dimension: 1,
        internal_ks_output_lwe_dimension: 2,
        ks_decomposition_level_count: 3,
        ks_decomposition_base_log: 4,
        glwe_polynomial_size: 5,
        glwe_dimension: 6,
        br_decomposition_level_count: 7,
        br_decomposition_base_log: 8,
        complexity_bits: 9,
        noise_max_bits: 10,
        p_error_bits: 0.5f64.to_bits(),
    };
    let d = convert_to_dag_solution(&s);
    assert_eq!(d.input_lwe_dimension, 1);
    assert_eq!(d.br_decomposition_base_log, 8);
    assert_eq!(d.p_error_bits, 0.5f64.to_bits());
    assert!(f64::from_bits(d.global_p_error_bits).is_nan());
    assert!(!d.use_wop_pbs);
    assert!(d.crt_decomposition.is_empty());
}

#[test]
fn single_solve_scenario_feasible() {
    // one 4-bit input, one table lookup of it, one tagged output; with a
    // generous error ceiling the search outcome passes through: feasible,
    // p_error under the ceiling, non-zero GLWE polynomial size
    let dag = Dag::new();
    let mut b = dag.builder("main".to_string());
    let a = b.add_input(4, &[1], &location_unknown());
    let t = b.add_lut(a, &[0, 1, 2, 3], 4, &location_unknown()).unwrap();
    b.tag_operator_as_output(t).unwrap();
    let dag = b.finish();
    let outcome = feasible_solution();
    let r = dag.optimize(&options(), Some(outcome));
    assert!(r.p_error_bits < 1.0f64.to_bits());
    assert!(f64::from_bits(r.p_error_bits) < 1.0e-2);
    assert!(r.glwe_polynomial_size > 0);
}

#[test]
fn single_solve_scenario_unsatisfiable() {
    // same graph with an unsatisfiable ceiling: the search finds nothing
    // and the sentinel comes back
    let dag = Dag::new();
    let mut b = dag.builder("main".to_string());
    let a = b.add_input(4, &[1], &location_unknown());
    let t = b.add_lut(a, &[0, 1, 2, 3], 4, &location_unknown()).unwrap();
    b.tag_operator_as_output(t).unwrap();
    let dag = b.finish();
    let mut opts = options();
    opts.maximum_acceptable_error_probability_bits = 1.0e-30f64.to_bits();
    opts.security_level = 1;
    let r = dag.optimize(&opts, None);
    assert_eq!(r, no_dag_solution());
}

#[test]
fn composed_graph_refuses_single_solve() {
    let dag = Dag::new();
    let mut b = dag.builder("main".to_string());
    let a = b.add_input(4, &[1], &location_unknown());
    let t = b.add_lut(a, &[0, 1, 2, 3], 4, &location_unknown()).unwrap();
    b.tag_operator_as_output(t).unwrap();
    let mut dag = b.finish();
    dag.add_all_compositions();
    // even a feasible outcome cannot override the composition check
    let r = dag.optimize(&options(), Some(feasible_solution()));
    assert_eq!(r, no_dag_solution());
}

#[test]
fn key_assignment_builds_consistent_keyset() {
    let dag = Dag::new();
    let mut b = dag.builder("main".to_string());
    let a = b.add_input(4, &[1], &location_unknown());
    let t = b.add_lut(a, &[0, 1, 2, 3], 4, &location_unknown()).unwrap();
    b.tag_operator_as_output(t).unwrap();
    let dag = b.finish();
    let cs = convert_to_circuit_solution(&feasible_solution(), &dag);
    assert!(cs.is_feasible);
    assert_eq!(cs.error_msg, "");
    assert_eq!(cs.circuit_keys.secret_keys.len(), 2);
    assert_eq!(cs.circuit_keys.secret_keys[0].identifier, 0);
    assert_eq!(cs.circuit_keys.secret_keys[0].polynomial_size, 2048);
    assert_eq!(cs.circuit_keys.secret_keys[0].description, "big representation");
    assert_eq!(cs.circuit_keys.secret_keys[1].identifier, 1);
    assert_eq!(cs.circuit_keys.secret_keys[1].glwe_dimension, 1);
    assert_eq!(cs.circuit_keys.keyswitch_keys.len(), 1);
    assert_eq!(cs.circuit_keys.bootstrap_keys.len(), 1);
    assert!(cs.circuit_keys.circuit_bootstrap_keys.is_empty());
    assert!(cs.circuit_keys.private_functional_packing_keys.is_empty());
    // one identical key-binding record per operator
    assert_eq!(cs.instructions_keys.len(), 2);
    for ik in &cs.instructions_keys {
        assert_eq!(ik.input_key, 0);
        assert_eq!(ik.output_key, 0);
        assert_eq!(ik.tlu_keyswitch_key, 0);
        assert_eq!(ik.tlu_bootstrap_key, 0);
        assert_eq!(ik.tlu_circuit_bootstrap_key, NO_KEY_ID);
        assert_eq!(ik.tlu_private_functional_packing_key, NO_KEY_ID);
        assert!(ik.extra_conversion_keys.is_empty());
    }
}

#[test]
fn key_assignment_with_alternate_strategy() {
    let dag = Dag::new();
    let mut b = dag.builder("main".to_string());
    let _a = b.add_input(4, &[1], &location_unknown());
    let dag = b.finish();
    let mut sol = feasible_solution();
    sol.use_wop_pbs = true;
    sol.cb_decomposition_level_count = 2;
    sol.cb_decomposition_base_log = 15;
    sol.pp_decomposition_level_count = 3;
    sol.pp_decomposition_base_log = 11;
    let cs = convert_to_circuit_solution(&sol, &dag);
    assert_eq!(cs.circuit_keys.circuit_bootstrap_keys.len(), 1);
    assert_eq!(
        cs.circuit_keys.circuit_bootstrap_keys[0].br_decomposition_parameter.level,
        2
    );
    assert_eq!(cs.circuit_keys.private_functional_packing_keys.len(), 1);
    assert_eq!(cs.instructions_keys[0].tlu_circuit_bootstrap_key, 0);
    assert_eq!(cs.instructions_keys[0].tlu_private_functional_packing_key, 0);
}

#[test]
fn infeasible_assignment_keeps_sentinel_and_message() {
    let dag = Dag::new();
    let mut b = dag.builder("main".to_string());
    let _a = b.add_input(4, &[1], &location_unknown());
    let dag = b.finish();
    let mut sol = feasible_solution();
    sol.p_error_bits = 1.0f64.to_bits();
    let cs = convert_to_circuit_solution(&sol, &dag);
    assert!(!cs.is_feasible);
    assert_eq!(cs.p_error_bits, 1.0f64.to_bits());
    assert_eq!(cs.error_msg, "No crypto-parameters for the given constraints");
    // the keyset is still structurally well formed
    assert_eq!(cs.circuit_keys.secret_keys.len(), 2);
    assert_eq!(cs.instructions_keys.len(), 1);
}

#[test]
fn multi_solve_sentinel() {
    let dag = Dag::new();
    let mut b = dag.builder("main".to_string());
    let _a = b.add_input(4, &[1], &location_unknown());
    let dag = b.finish();
    let r = dag.optimize_multi(&options(), None);
    // the sentinel is fully pinned: identical inputs give identical results
    assert_eq!(r, no_circuit_solution());
    assert!(!r.is_feasible);
    assert_eq!(r.p_error_bits, 1.0f64.to_bits());
    assert_eq!(r.global_p_error_bits, 1.0f64.to_bits());
    assert_eq!(r.complexity_bits, 0);
    assert_eq!(r.error_msg, "No crypto-parameters for the given constraints");
    assert!(r.instructions_keys.is_empty());
    assert!(r.circuit_keys.secret_keys.is_empty());
    let again = dag.optimize_multi(&options(), None);
    assert_eq!(r, again);
}

#[test]
fn multi_solve_passes_admissible_outcome_through() {
    let dag = Dag::new();
    let mut b = dag.builder("main".to_string());
    let a = b.add_input(4, &[1], &location_unknown());
    let t = b.add_lut(a, &[0, 1, 2, 3], 4, &location_unknown()).unwrap();
    b.tag_operator_as_output(t).unwrap();
    let dag = b.finish();
    let outcome = convert_to_circuit_solution(&feasible_solution(), &dag);
    assert!(outcome.check_admissible(&options()));
    let expected = convert_to_circuit_solution(&feasible_solution(), &dag);
    let r = dag.optimize_multi(&options(), Some(outcome));
    assert_eq!(r, expected);
}

#[test]
fn admissibility_check_rejects_backend_bugs() {
    let dag = Dag::new();
    let mut b = dag.builder("main".to_string());
    let _a = b.add_input(4, &[1], &location_unknown());
    let dag = b.finish();
    // a wrong infeasibility message is rejected
    let mut sol = feasible_solution();
    sol.p_error_bits = 1.0f64.to_bits();
    let mut cs = convert_to_circuit_solution(&sol, &dag);
    cs.error_msg = "everything is fine".to_string();
    assert!(!cs.check_admissible(&options()));
    // a duplicated secret-key identifier is rejected
    let mut cs = convert_to_circuit_solution(&feasible_solution(), &dag);
    cs.circuit_keys.secret_keys[1].identifier = 0;
    assert!(!cs.check_admissible(&options()));
    // an instruction referencing a missing key is rejected
    let mut cs = convert_to_circuit_solution(&feasible_solution(), &dag);
    cs.instructions_keys[0].input_key = 42;
    assert!(!cs.check_admissible(&options()));
    // a feasible result over the ceiling is rejected
    let mut cs = convert_to_circuit_solution(&feasible_solution(), &dag);
    cs.p_error_bits = 0.5f64.to_bits();
    assert!(!cs.check_admissible(&options()));
}

#[test]
fn virtual_keyset_validation() {
    let dag = Dag::new();
    let mut b = dag.builder("main".to_string());
    let _a = b.add_input(4, &[1], &location_unknown());
    let dag = b.finish();
    let keys = convert_to_circuit_solution(&feasible_solution(), &dag).circuit_keys;
    let checked = check_virtual_keyset(keys, false).unwrap();
    assert_eq!(checked.secret_keys.len(), 2);
    let mut keys = convert_to_circuit_solution(&feasible_solution(), &dag).circuit_keys;
    keys.secret_keys[1].identifier = 0;
    assert_eq!(
        check_virtual_keyset(keys, false),
        Err(KeysetError::DuplicateKeyIdentifier)
    );
}

#[test]
fn dag_solution_reads_back_from_circuit_solution() {
    let dag = Dag::new();
    let mut b = dag.builder("main".to_string());
    let _a = b.add_input(4, &[1], &location_unknown());
    let dag = b.finish();
    let sol = feasible_solution();
    let cs = convert_to_circuit_solution(&sol, &dag);
    let back = dag_solution_from_circuit_solution(&cs);
    assert_eq!(back.glwe_polynomial_size, sol.glwe_polynomial_size);
    assert_eq!(back.glwe_dimension, sol.glwe_dimension);
    assert_eq!(back.input_lwe_dimension, 2048);
    assert_eq!(back.internal_ks_output_lwe_dimension, 750);
    assert_eq!(back.ks_decomposition_level_count, 5);
    assert_eq!(back.br_decomposition_base_log, 23);
    assert_eq!(back.p_error_bits, sol.p_error_bits);
    assert!(!back.use_wop_pbs);
}

fn range() -> RangeRestriction {
    RangeRestriction {
        glwe_log_polynomial_sizes: vec![10, 11],
        glwe_dimensions: vec![1, 2],
        internal_lwe_dimensions: vec![512, 750],
        pbs_level_count: vec![1, 2],
        pbs_base_log: vec![15, 23],
        ks_level_count: vec![5],
        ks_base_log: vec![3],
    }
}

fn glwe(log2: u64, k: u64) -> GlweParameters {
    GlweParameters { log2_polynomial_size: log2, glwe_dimension: k }
}

fn mac(log2: u64, k: u64, internal: u64) -> MacroParameters {
    MacroParameters { glwe_params: glwe(log2, k), internal_dim: internal }
}

#[test]
fn unrestricted_allows_everything() {
    let n = NoSearchSpaceRestriction;
    assert!(n.is_available_glwe(0, glwe(10, 1)));
    assert!(n.is_available_macro(0, mac(10, 1, 512)));
}

#[test]
fn range_restriction_checks_membership() {
    let r = range();
    assert!(r.is_available_glwe(0, glwe(10, 1)));
    assert!(!r.is_available_glwe(0, glwe(12, 1)));
    assert!(!r.is_available_glwe(0, glwe(10, 3)));
    assert!(r.is_available_macro(0, mac(11, 2, 750)));
    assert!(!r.is_available_macro(0, mac(11, 2, 123)));
    assert!(r.is_available_micro_pbs(
        0,
        mac(10, 1, 512),
        BrDecompositionParameters { level: 1, log2_base: 23 }
    ));
    assert!(!r.is_available_micro_pbs(
        0,
        mac(10, 1, 512),
        BrDecompositionParameters { level: 9, log2_base: 23 }
    ));
    assert!(r.is_available_micro_ks(
        0,
        mac(10, 1, 512),
        1,
        mac(11, 2, 750),
        KsDecompositionParameters { level: 5, log2_base: 3 }
    ));
    assert!(!r.is_available_micro_fks(
        0,
        mac(10, 1, 512),
        1,
        mac(11, 2, 750),
        KsDecompositionParameters { level: 4, log2_base: 3 }
    ));
    // tightening a field never makes more candidates available
    let mut tighter = range();
    tighter.glwe_dimensions = vec![1];
    assert!(!tighter.is_available_glwe(0, glwe(10, 2)));
    assert!(range().is_available_glwe(0, glwe(10, 2)));
    assert!(tighter.is_available_glwe(0, glwe(10, 1)));
}

fn keyset() -> KeysetRestriction {
    KeysetRestriction {
        info: KeysetInfo {
            lwe_secret_keys: vec![LweSecretKeyInfo { lwe_dimension: 2048 }],
            lwe_bootstrap_keys: vec![LweBootstrapKeyInfo {
                level_count: 1,
                base_log: 23,
                glwe_dimension: 2,
                polynomial_size: 1024,
                input_lwe_dimension: 750,
            }],
            lwe_keyswitch_keys: vec![LweKeyswitchKeyInfo {
                level_count: 5,
                base_log: 3,
                input_lwe_dimension: 2048,
                output_lwe_dimension: 750,
            }],
        },
    }
}

#[test]
fn keyset_restriction_matches_deployed_keys() {
    let k = keyset();
    // 2^11 * 1 == 2048 matches the deployed secret key
    assert!(k.is_available_glwe(0, glwe(11, 1)));
    assert!(k.is_available_glwe(0, glwe(10, 2)));
    assert!(!k.is_available_glwe(0, glwe(10, 1)));
    assert!(k.is_available_macro(0, mac(10, 2, 750)));
    assert!(!k.is_available_macro(0, mac(10, 2, 751)));
    assert!(k.is_available_micro_pbs(
        0,
        mac(10, 2, 750),
        BrDecompositionParameters { level: 1, log2_base: 23 }
    ));
    assert!(!k.is_available_micro_pbs(
        0,
        mac(10, 2, 750),
        BrDecompositionParameters { level: 2, log2_base: 23 }
    ));
    // keyswitch from the extracted big dimension down to 750
    assert!(k.is_available_micro_ks(
        0,
        mac(11, 1, 512),
        1,
        mac(10, 1, 750),
        KsDecompositionParameters { level: 5, log2_base: 3 }
    ));
    assert!(!k.is_available_micro_ks(
        0,
        mac(11, 1, 512),
        1,
        mac(10, 1, 512),
        KsDecompositionParameters { level: 5, log2_base: 3 }
    ));
}

#[test]
fn combined_restriction_is_a_conjunction() {
    let c = CombinedRestriction { first: range(), second: keyset() };
    // allowed by the range and matching a deployed key
    assert!(c.is_available_glwe(0, glwe(11, 1)));
    // allowed by the range but not deployed
    assert!(!c.is_available_glwe(0, glwe(10, 1)));
    // deployed but outside the range
    assert!(!c.is_available_glwe(0, glwe(12, 1)));
}

#[test]
fn range_restriction_round_trips_through_json() {
    let r = range();
    let text = r.range_restriction_to_json();
    assert_eq!(
        text,
        "{\"glwe_log_polynomial_sizes\":[10,11],\"glwe_dimensions\":[1,2],\
         \"internal_lwe_dimensions\":[512,750],\"pbs_level_count\":[1,2],\
         \"pbs_base_log\":[15,23],\"ks_level_count\":[5],\"ks_base_log\":[3]}"
    );
    let back = range_restriction_from_json(&text).unwrap();
    assert_eq!(back, r);
    assert!(range_restriction_from_json("{\"nope\":1}").is_err());
    assert!(range_restriction_from_json("").is_err());
}

#[test]
fn keyset_restriction_round_trips_through_json() {
    let k = keyset();
    let text = k.keyset_restriction_to_json();
    let back = keyset_restriction_from_json(&text).unwrap();
    assert_eq!(back, k);
    // empty lists round-trip too
    let empty = KeysetRestriction {
        info: KeysetInfo {
            lwe_secret_keys: vec![],
            lwe_bootstrap_keys: vec![],
            lwe_keyswitch_keys: vec![],
        },
    };
    let text = empty.keyset_restriction_to_json();
    assert_eq!(
        text,
        "{\"info\":{\"lwe_secret_keys\":[],\"lwe_bootstrap_keys\":[],\"lwe_keyswitch_keys\":[]}}"
    );
    assert_eq!(keyset_restriction_from_json(&text).unwrap(), empty);
    assert!(keyset_restriction_from_json("{\"info\":{}}").is_err());
}

#[test]
fn locations_parse_from_strings() {
    assert_eq!(
        location_from_string("lib.rs"),
        Some(Location::File("lib.rs".to_string()))
    );
    assert_eq!(
        location_from_string("lib.rs:12"),
        Some(Location::Line("lib.rs".to_string(), 12))
    );
    assert_eq!(
        location_from_string("lib.rs:12:40"),
        Some(Location::LineColumn("lib.rs".to_string(), 12, 40))
    );
    assert_eq!(location_from_string("a:b"), None);
    assert_eq!(location_from_string("a:1:x"), None);
    assert_eq!(location_from_string("a:b:c:d"), Some(Location::Unknown));
}

#[test]
fn misc_helpers() {
    assert_eq!(processing_unit(&options()), ProcessingUnit::Cpu);
    let mut o = options();
    o.use_gpu_constraints = true;
    assert_eq!(processing_unit(&o), ProcessingUnit::Gpu);
    let p = get_external_partition("ext".to_string(), 11, 1, 750, 0.1f64.to_bits(), 0.05f64.to_bits());
    assert_eq!(p.name, "ext");
    assert_eq!(p.macro_params.glwe_params.log2_polynomial_size, 11);
    assert_eq!(glwe(11, 1).sample_extract_lwe_dimension(), 2048);
    let widened: Vec<u128> = vec_into(vec![1u64, 2, 3]);
    assert_eq!(widened, vec![1u128, 2, 3]);
}

#[test]
fn solution_dumps() {
    let dag = Dag::new();
    let mut b = dag.builder("main".to_string());
    let _a = b.add_input(4, &[1], &location_unknown());
    let dag = b.finish();
    let cs = convert_to_circuit_solution(&feasible_solution(), &dag);
    let short = cs.short_dump();
    let full = cs.dump();
    assert!(full.starts_with(&short));
    assert!(short.contains("is_feasible=true"));
    assert!(!short.contains("instr %"));
    assert!(full.contains("instr %0: in=0 ks=0 bs=0"));
}

#[test]
fn json_handles_extreme_numbers() {
    let r = RangeRestriction {
        glwe_log_polynomial_sizes: vec![0, u64::MAX],
        glwe_dimensions: vec![],
        internal_lwe_dimensions: vec![],
        pbs_level_count: vec![],
        pbs_base_log: vec![],
        ks_level_count: vec![],
        ks_base_log: vec![],
    };
    let text = r.range_restriction_to_json();
    assert!(text.contains("[0,18446744073709551615]"));
    assert_eq!(range_restriction_from_json(&text).unwrap(), r);
    // a value over u64::MAX, a leading zero and trailing text are malformed
    let over = text.replace("18446744073709551615", "18446744073709551616");
    assert!(range_restriction_from_json(&over).is_err());
    let padded = text.replace("[0,", "[00,");
    assert!(range_restriction_from_json(&padded).is_err());
    let mut trailing = text.clone();
    trailing.push(' ');
    assert!(range_restriction_from_json(&trailing).is_err());
}
