use circuit_optimizer::dag::{Dag, GraphError};
use circuit_optimizer::operator::{location_unknown, number, vector, Location, OperatorIndex};

fn loc() -> Location {
    location_unknown()
}

#[test]
fn builder_appends_dense_indices() {
    let dag = Dag::new();
    let mut b = dag.builder("main".to_string());
    let a = b.add_input(4, &[1], &loc());
    let t = b.add_lut(a, &[0, 1, 2, 3], 4, &loc()).unwrap();
    let d = b.add_dot(&[a, t], number(2), &loc()).unwrap();
    assert_eq!(a.index, 0);
    assert_eq!(t.index, 1);
    assert_eq!(d.index, 2);
    let dag = b.finish();
    assert_eq!(dag.len(), 3);
    assert_eq!(dag.get_circuit_count(), 1);
}

#[test]
fn builder_rejects_forward_references() {
    let dag = Dag::new();
    let mut b = dag.builder("main".to_string());
    let missing = OperatorIndex { index: 7 };
    assert_eq!(
        b.add_lut(missing, &[0, 1], 2, &loc()),
        Err(GraphError::InvalidOperatorIndex)
    );
    assert_eq!(
        b.add_round_op(missing, 2, &loc()),
        Err(GraphError::InvalidOperatorIndex)
    );
    assert_eq!(
        b.add_dot(&[missing], number(1), &loc()),
        Err(GraphError::InvalidOperatorIndex)
    );
    // nothing was appended by the rejected calls
    assert_eq!(b.finish().len(), 0);
}

#[test]
fn builder_rejects_empty_dot_and_weight_mismatch() {
    let dag = Dag::new();
    let mut b = dag.builder("main".to_string());
    let a = b.add_input(4, &[1], &loc());
    assert_eq!(
        b.add_dot(&[], number(1), &loc()),
        Err(GraphError::InvalidOperatorIndex)
    );
    assert_eq!(
        b.add_dot(&[a], vector(&[1, 2]), &loc()),
        Err(GraphError::WeightsMismatch)
    );
    assert!(b.add_dot(&[a], vector(&[3]), &loc()).is_ok());
}

#[test]
fn tag_as_output_is_idempotent() {
    let dag = Dag::new();
    let mut b = dag.builder("main".to_string());
    let a = b.add_input(4, &[1], &loc());
    b.tag_operator_as_output(a).unwrap();
    b.tag_operator_as_output(a).unwrap();
    let dag = b.finish();
    assert_eq!(dag.get_output_indices().len(), 1);
    assert_eq!(
        Dag::new()
            .builder("m".to_string())
            .tag_operator_as_output(OperatorIndex { index: 0 }),
        Err(GraphError::InvalidOperatorIndex)
    );
}

#[test]
fn add_all_compositions_wires_cross_product() {
    // 2 declared outputs, 3 declared inputs -> exactly 6 edges
    let dag = Dag::new();
    let mut b = dag.builder("main".to_string());
    let i1 = b.add_input(4, &[1], &loc());
    let i2 = b.add_input(4, &[1], &loc());
    let i3 = b.add_input(4, &[1], &loc());
    let t1 = b.add_lut(i1, &[0, 1], 4, &loc()).unwrap();
    let t2 = b.add_lut(i2, &[0, 1], 4, &loc()).unwrap();
    let _ = i3;
    b.tag_operator_as_output(t1).unwrap();
    b.tag_operator_as_output(t2).unwrap();
    let mut dag = b.finish();
    assert!(!dag.is_composed());
    dag.add_all_compositions();
    assert_eq!(dag.composition_count(), 6);
    assert!(dag.is_composed());
}

#[test]
fn add_composition_resolves_slots_and_rejects_bad_ones() {
    let dag = Dag::new();
    let mut b = dag.builder("f".to_string());
    let a = b.add_input(4, &[1], &loc());
    let t = b.add_lut(a, &[0, 1], 4, &loc()).unwrap();
    b.tag_operator_as_output(t).unwrap();
    let mut b = b.finish().builder("g".to_string());
    let _x = b.add_input(4, &[1], &loc());
    let mut dag = b.finish();
    assert_eq!(dag.get_circuit_count(), 2);
    assert_eq!(
        dag.add_composition(&"nope".to_string(), 0, &"g".to_string(), 0),
        Err(GraphError::UnknownCircuit)
    );
    assert_eq!(
        dag.add_composition(&"f".to_string(), 1, &"g".to_string(), 0),
        Err(GraphError::OutputIndexOutOfRange)
    );
    assert_eq!(
        dag.add_composition(&"f".to_string(), 0, &"g".to_string(), 3),
        Err(GraphError::InputIndexOutOfRange)
    );
    assert_eq!(
        dag.add_composition(&"f".to_string(), 0, &"g".to_string(), 0),
        Ok(())
    );
    assert_eq!(dag.composition_count(), 1);
}

#[test]
fn input_and_output_listings() {
    let dag = Dag::new();
    let mut b = dag.builder("main".to_string());
    let a = b.add_input(4, &[1], &loc());
    let z = b.add_zero_noise(4, &[1], &loc());
    let t = b.add_lut(a, &[0, 1], 4, &loc()).unwrap();
    let _ = z;
    b.tag_operator_as_output(t).unwrap();
    let dag = b.finish();
    let ins = dag.get_input_indices();
    assert_eq!(ins.len(), 1);
    assert_eq!(ins[0].index, 0);
    let outs = dag.get_output_indices();
    assert_eq!(outs.len(), 1);
    assert_eq!(outs[0].index, 2);
}

#[test]
fn partition_cut_by_precision_and_by_norm() {
    // precisions {4, 4, 8}: by-precision gives exactly 2 partitions;
    // differing norm bounds on the precision-4 operators give 3 under the
    // maximal policy.
    let dag = Dag::new();
    let mut b = dag.builder("main".to_string());
    let a = b.add_input(4, &[1], &loc());
    let _d = b.add_dot(&[a], number(2), &loc()).unwrap(); // precision 4, norm 4
    let _i8 = b.add_input(8, &[1], &loc());
    let dag = b.finish();
    let by_precision = dag.partition_cut_by_precision();
    assert_eq!(by_precision.partition_count(), 2);
    let maximal = dag.partition_cut_maximal();
    assert_eq!(maximal.partition_count(), 3);
}

#[test]
fn norm2_bounds_accumulate_squared_weights() {
    let dag = Dag::new();
    let mut b = dag.builder("main".to_string());
    let a = b.add_input(4, &[1], &loc());
    let z = b.add_zero_noise(4, &[1], &loc());
    let t = b.add_lut(a, &[0, 1], 4, &loc()).unwrap();
    let d = b.add_dot(&[a, t], vector(&[3, 4]), &loc()).unwrap();
    let r = b.add_round_op(d, 2, &loc()).unwrap();
    let dag = b.finish();
    let norms = dag.op_norm2_bounds();
    assert_eq!(norms[a.index], 1);
    assert_eq!(norms[z.index], 0);
    assert_eq!(norms[t.index], 1);
    assert_eq!(norms[d.index], 9 + 16);
    assert_eq!(norms[r.index], 25);
}

#[test]
fn dump_is_deterministic_and_structural() {
    let dag = Dag::new();
    let mut b = dag.builder("main".to_string());
    let a = b.add_input(4, &[1], &loc());
    let t = b.add_lut(a, &[0, 1], 3, &loc()).unwrap();
    b.tag_operator_as_output(t).unwrap();
    let dag = b.finish();
    let text = dag.dump();
    assert_eq!(
        text,
        "%0: input p=4 shape=[1] inputs=[]\n%1: table_lookup p=3 shape=[1] inputs=[0] out\n"
    );
    assert_eq!(text, dag.dump());
}

#[test]
fn builder_dump_shows_only_its_circuit() {
    let dag = Dag::new();
    let mut b = dag.builder("f".to_string());
    let _a = b.add_input(4, &[1], &loc());
    let mut b = b.finish().builder("g".to_string());
    let _x = b.add_input(6, &[2], &loc());
    assert_eq!(b.dump(), "%1: input p=6 shape=[2] inputs=[]\n");
}
