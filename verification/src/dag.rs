//! The circuit graph: a dense, append-only sequence of operators, the set of
//! operators tagged as outputs, circuit membership for multi-circuit units,
//! and declared composition edges between circuits.
//!
//! Structural invariant: every operator references only operators that were
//! appended strictly before it, so the graph is acyclic by construction and
//! indices are stable for the graph's lifetime.

use crate::operator::{LevelledComplexity, Location, Operator, OperatorIndex, OperatorKind, Weights};
use crate::partition::ExternalPartition;
use vstd::prelude::*;

verus! {

/// A declared data edge: the ciphertext of an output-tagged operator feeds
/// an input operator without re-encryption.
#[derive(Debug, Clone, Copy, PartialEq, Eq, Structural)]
pub struct CompositionEdge {
    pub from: usize,
    pub to: usize,
}

/// A caller or configuration bug detected while building a graph: these are
/// contract violations, not optimization outcomes.
#[derive(Debug, Clone, Copy, PartialEq, Eq, Structural)]
pub enum GraphError {
    /// A referenced operator index does not exist (yet).
    InvalidOperatorIndex,
    /// A dot or linear-noise operator declared one weight per input but the
    /// weight count differs from the input count.
    WeightsMismatch,
    /// A referenced circuit name does not exist in the unit.
    UnknownCircuit,
    /// An output slot is out of range for the named circuit.
    OutputIndexOutOfRange,
    /// An input slot is out of range for the named circuit.
    InputIndexOutOfRange,
}

/// A multi-circuit unit: operator arena, circuit names, per-operator circuit
/// membership, output tags and composition edges.
#[derive(Debug)]
pub struct Dag {
    pub operators: Vec<Operator>,
    pub circuit_names: Vec<String>,
    pub op_circuit: Vec<usize>,
    pub is_output: Vec<bool>,
    pub compositions: Vec<CompositionEdge>,
}

impl Dag {
    /// The operators of the unit, in insertion order.
    pub open spec fn ops(self) -> Seq<Operator> {
        self.operators@
    }

    /// A composition edge is well formed when it runs from an output-tagged
    /// operator to an input operator.
    pub open spec fn edge_wf(self, e: CompositionEdge) -> bool {
        &&& e.from < self.operators@.len()
        &&& e.to < self.operators@.len()
        &&& self.is_output@[e.from as int]
        &&& self.operators@[e.to as int].spec_is_input()
    }

    /// Well-formedness of the whole unit: parallel vectors agree, circuit
    /// names are distinct, every operator references only operators that
    /// stand strictly before it, and every composition edge is well formed.
    pub open spec fn wf(self) -> bool {
        &&& self.op_circuit@.len() == self.operators@.len()
        &&& self.is_output@.len() == self.operators@.len()
        &&& forall|i: int|
            0 <= i < self.op_circuit@.len() ==> (#[trigger] self.op_circuit@[i])
                < self.circuit_names@.len()
        &&& forall|i: int, j: int|
            0 <= i < j < self.circuit_names@.len() ==> (#[trigger] self.circuit_names@[i])@
                != (#[trigger] self.circuit_names@[j])@
        &&& forall|i: int|
            0 <= i < self.operators@.len() ==> (#[trigger] self.operators@[i]).inputs_before(i)
        &&& forall|e: int|
            0 <= e < self.compositions@.len() ==> self.edge_wf(#[trigger] self.compositions@[e])
    }

    /// A fresh unit with no circuits and no operators.
    pub fn new() -> (r: Dag)
        ensures
            r.wf(),
            r.operators@.len() == 0,
            r.circuit_names@.len() == 0,
            r.compositions@.len() == 0,
    {
        Dag {
            operators: Vec::new(),
            circuit_names: Vec::new(),
            op_circuit: Vec::new(),
            is_output: Vec::new(),
            compositions: Vec::new(),
        }
    }

    /// The number of operators in the unit.
    pub fn len(&self) -> (r: usize)
        ensures
            r == self.operators@.len(),
    {
        self.operators.len()
    }

    /// The number of named circuits in the unit.
    pub fn get_circuit_count(&self) -> (r: usize)
        ensures
            r == self.circuit_names@.len(),
    {
        self.circuit_names.len()
    }

    /// A unit is composed when at least one composition edge was declared.
    pub open spec fn spec_is_composed(self) -> bool {
        self.compositions@.len() > 0
    }

    /// Exec mirror of [`Self::spec_is_composed`].
    pub fn is_composed(&self) -> (r: bool)
        ensures
            r == self.spec_is_composed(),
    {
        self.compositions.len() > 0
    }

    /// The number of declared composition edges.
    pub fn composition_count(&self) -> (r: usize)
        ensures
            r == self.compositions@.len(),
    {
        self.compositions.len()
    }

    /// The position of the first circuit whose name reads `name`, if any.
    pub open spec fn spec_find_circuit(self, name: Seq<char>) -> Option<int> {
        self.spec_find_circuit_from(name, 0)
    }

    pub open spec fn spec_find_circuit_from(self, name: Seq<char>, i: int) -> Option<int>
        decreases self.circuit_names@.len() - i,
    {
        if i < 0 || i >= self.circuit_names@.len() {
            None
        } else if self.circuit_names@[i]@ == name {
            Some(i)
        } else {
            self.spec_find_circuit_from(name, i + 1)
        }
    }

    /// Looks a circuit up by name.
    fn find_circuit(&self, name: &String) -> (r: Option<usize>)
        ensures
            match r {
                Some(c) => self.spec_find_circuit(name@) == Some(c as int),
                None => self.spec_find_circuit(name@) is None,
            },
    {
        let n = self.circuit_names.len();
        let mut i: usize = 0;
        while i < n
            invariant
                i <= n,
                n == self.circuit_names@.len(),
                self.spec_find_circuit(name@) == self.spec_find_circuit_from(name@, i as int),
            decreases n - i,
        {
            if self.circuit_names[i].eq(name) {
                return Some(i);
            }
            i += 1;
        }
        None
    }
}

/// A fresh, empty unit.
pub fn empty() -> (r: Dag)
    ensures
        r.wf(),
        r.operators@.len() == 0,
        r.circuit_names@.len() == 0,
        r.compositions@.len() == 0,
{
    Dag::new()
}

/// Appends one operator for circuit `circuit` and changes nothing else:
/// the new operator is not output-tagged and no edges are touched.
pub open spec fn appended_op(pre: Dag, post: Dag, circuit: usize) -> bool {
    &&& post.operators@.len() == pre.operators@.len() + 1
    &&& post.operators@ == pre.operators@.push(post.operators@.last())
    &&& post.op_circuit@ == pre.op_circuit@.push(circuit)
    &&& post.is_output@ == pre.is_output@.push(false)
    &&& post.circuit_names@ == pre.circuit_names@
    &&& post.compositions@ == pre.compositions@
}

/// A builder appending operators to one named circuit of a unit.
#[derive(Debug)]
pub struct DagBuilder {
    pub dag: Dag,
    pub circuit: usize,
}

impl DagBuilder {
    /// The builder's unit is well formed and the builder's circuit exists.
    pub open spec fn wf(self) -> bool {
        &&& self.dag.wf()
        &&& (self.circuit as int) < self.dag.circuit_names@.len()
    }

    /// The name of the circuit this builder appends to.
    pub open spec fn spec_circuit_name(self) -> Seq<char> {
        self.dag.circuit_names@[self.circuit as int]@
    }

    /// Hands the finished unit back.
    pub fn finish(self) -> (r: Dag)
        ensures
            r == self.dag,
    {
        self.dag
    }
}

impl Dag {
    /// Opens a builder for the named circuit, creating the name on first
    /// use.  Operators and edges are untouched.
    pub fn builder(self, circuit: String) -> (r: DagBuilder)
        requires
            self.wf(),
        ensures
            r.wf(),
            r.dag.operators@ == self.operators@,
            r.dag.op_circuit@ == self.op_circuit@,
            r.dag.is_output@ == self.is_output@,
            r.dag.compositions@ == self.compositions@,
            r.spec_circuit_name() == circuit@,
            self.spec_find_circuit(circuit@) is Some ==> r.dag.circuit_names@
                == self.circuit_names@,
            self.spec_find_circuit(circuit@) is None ==> r.dag.circuit_names@
                == self.circuit_names@.push(circuit),
    {
        let found = self.find_circuit(&circuit);
        match found {
            Some(c) => {
                proof {
                    self.lemma_find_circuit_sound(circuit@, 0);
                }
                DagBuilder { dag: self, circuit: c }
            },
            None => {
                proof {
                    self.lemma_find_circuit_none(circuit@, 0);
                }
                let mut dag = self;
                let c = dag.circuit_names.len();
                dag.circuit_names.push(circuit);
                DagBuilder { dag, circuit: c }
            },
        }
    }

    /// A found position indeed carries the name.
    proof fn lemma_find_circuit_sound(self, name: Seq<char>, i: int)
        ensures
            self.spec_find_circuit_from(name, i) matches Some(c) ==> i <= c
                < self.circuit_names@.len() && self.circuit_names@[c]@ == name,
        decreases self.circuit_names@.len() - i,
    {
        if 0 <= i < self.circuit_names@.len() {
            if self.circuit_names@[i]@ != name {
                self.lemma_find_circuit_sound(name, i + 1);
            }
        }
    }

    /// A missing name is carried by no position.
    proof fn lemma_find_circuit_none(self, name: Seq<char>, i: int)
        requires
            self.spec_find_circuit_from(name, i) is None,
            0 <= i,
        ensures
            forall|j: int|
                i <= j < self.circuit_names@.len() ==> (#[trigger] self.circuit_names@[j])@
                    != name,
        decreases self.circuit_names@.len() - i,
    {
        if i < self.circuit_names@.len() {
            self.lemma_find_circuit_none(name, i + 1);
        }
    }
}


/// Maps operator indices to their raw positions.
fn indices_of(inputs: &[OperatorIndex]) -> (r: Vec<usize>)
    ensures
        r@ == inputs@.map_values(|oi: OperatorIndex| oi.index),
{
    let n = inputs.len();
    let mut v: Vec<usize> = Vec::new();
    let mut j: usize = 0;
    while j < n
        invariant
            j <= n,
            n == inputs@.len(),
            v@ == inputs@.take(j as int).map_values(|oi: OperatorIndex| oi.index),
        decreases n - j,
    {
        v.push(inputs[j].index);
        proof {
            assert(inputs@.take(j + 1 as int) =~= inputs@.take(j as int).push(inputs@[j as int]));
            assert(inputs@.take(j + 1 as int).map_values(|oi: OperatorIndex| oi.index) =~= inputs@.take(
                j as int,
            ).map_values(|oi: OperatorIndex| oi.index).push(inputs@[j as int].index));
        }
        j += 1;
    }
    proof {
        assert(inputs@.take(n as int) =~= inputs@);
    }
    v
}

/// True when every referenced index exists strictly below `len`.
fn all_indices_below(inputs: &[OperatorIndex], len: usize) -> (r: bool)
    ensures
        r == (forall|j: int| 0 <= j < inputs@.len() ==> (#[trigger] inputs@[j]).index < len),
{
    let n = inputs.len();
    let mut j: usize = 0;
    while j < n
        invariant
            j <= n,
            n == inputs@.len(),
            forall|k: int| 0 <= k < j ==> (#[trigger] inputs@[k]).index < len,
        decreases n - j,
    {
        if inputs[j].index >= len {
            return false;
        }
        j += 1;
    }
    true
}

impl DagBuilder {
    /// Appends one operator to the builder's circuit.
    fn push_operator(&mut self, op: Operator) -> (r: OperatorIndex)
        requires
            old(self).wf(),
            op.inputs_before(old(self).dag.operators@.len() as int),
        ensures
            final(self).wf(),
            final(self).circuit == old(self).circuit,
            appended_op(old(self).dag, final(self).dag, old(self).circuit),
            final(self).dag.operators@.last() == op,
            r.index == old(self).dag.operators@.len(),
    {
        let r = OperatorIndex { index: self.dag.operators.len() };
        let c = self.circuit;
        self.dag.operators.push(op);
        self.dag.op_circuit.push(c);
        self.dag.is_output.push(false);
        proof {
            let pre = old(self).dag;
            let post = self.dag;
            assert forall|i: int| 0 <= i < post.operators@.len() implies (
            #[trigger] post.operators@[i]).inputs_before(i) by {
                if i < pre.operators@.len() {
                    assert(post.operators@[i] == pre.operators@[i]);
                }
            }
            assert forall|e: int|
                0 <= e < post.compositions@.len() implies post.edge_wf(
                #[trigger] post.compositions@[e],
            ) by {
                assert(pre.edge_wf(pre.compositions@[e]));
            }
        }
        r
    }

    /// Appends an encrypted input operator and returns its index.
    pub fn add_input(&mut self, out_precision: u8, out_shape: &[u64], location: &Location) -> (r:
        OperatorIndex)
        requires
            old(self).wf(),
        ensures
            final(self).wf(),
            final(self).circuit == old(self).circuit,
            appended_op(old(self).dag, final(self).dag, old(self).circuit),
            r.index == old(self).dag.operators@.len(),
            final(self).dag.operators@.last().kind is Input,
            final(self).dag.operators@.last().precision == out_precision,
            final(self).dag.operators@.last().shape@ == out_shape@,
            final(self).dag.operators@.last().location == *location,
    {
        self.push_operator(
            Operator {
                kind: OperatorKind::Input,
                precision: out_precision,
                shape: vstd::slice::slice_to_vec(out_shape),
                location: location.clone(),
            },
        )
    }

    /// Appends a zero-noise operator and returns its index.
    pub fn add_zero_noise(&mut self, out_precision: u8, out_shape: &[u64], location: &Location) -> (
        r: OperatorIndex)
        requires
            old(self).wf(),
        ensures
            final(self).wf(),
            final(self).circuit == old(self).circuit,
            appended_op(old(self).dag, final(self).dag, old(self).circuit),
            r.index == old(self).dag.operators@.len(),
            final(self).dag.operators@.last().kind is ZeroNoise,
            final(self).dag.operators@.last().precision == out_precision,
            final(self).dag.operators@.last().shape@ == out_shape@,
            final(self).dag.operators@.last().location == *location,
    {
        self.push_operator(
            Operator {
                kind: OperatorKind::ZeroNoise,
                precision: out_precision,
                shape: vstd::slice::slice_to_vec(out_shape),
                location: location.clone(),
            },
        )
    }

    /// Appends a table lookup of `input`.  The output shape is the input's
    /// shape; the output precision is caller-declared.  Rejects an index
    /// that does not exist yet.
    pub fn add_lut(
        &mut self,
        input: OperatorIndex,
        table: &[u64],
        out_precision: u8,
        location: &Location,
    ) -> (r: Result<OperatorIndex, GraphError>)
        requires
            old(self).wf(),
        ensures
            input.index >= old(self).dag.operators@.len() ==> r == Err::<
                OperatorIndex,
                GraphError,
            >(GraphError::InvalidOperatorIndex) && *final(self) == *old(self),
            input.index < old(self).dag.operators@.len() ==> {
                &&& final(self).wf()
                &&& final(self).circuit == old(self).circuit
                &&& appended_op(old(self).dag, final(self).dag, old(self).circuit)
                &&& r == Ok::<OperatorIndex, GraphError>(
                    OperatorIndex { index: old(self).dag.operators@.len() as usize },
                )
                &&& (final(self).dag.operators@.last().kind matches OperatorKind::TableLookup {
                    input: i2,
                    table: t2,
                } && i2 == input.index && t2@ == table@)
                &&& final(self).dag.operators@.last().precision == out_precision
                &&& final(self).dag.operators@.last().shape@ == old(self).dag.operators@[input.index
                    as int].shape@
                &&& final(self).dag.operators@.last().location == *location
            },
    {
        if input.index >= self.dag.operators.len() {
            return Err(GraphError::InvalidOperatorIndex);
        }
        let shape = vstd::slice::slice_to_vec(self.dag.operators[input.index].shape.as_slice());
        Ok(
            self.push_operator(
                Operator {
                    kind: OperatorKind::TableLookup {
                        input: input.index,
                        table: vstd::slice::slice_to_vec(table),
                    },
                    precision: out_precision,
                    shape,
                    location: location.clone(),
                },
            ),
        )
    }
}



/// The largest output precision among the operators at `ids`, zero when
/// `ids` is empty.
pub open spec fn spec_max_precision(ops: Seq<Operator>, ids: Seq<usize>) -> u8
    decreases ids.len(),
{
    if ids.len() == 0 {
        0u8
    } else {
        let rest = spec_max_precision(ops, ids.drop_last());
        let last = ops[ids.last() as int].precision;
        if last > rest {
            last
        } else {
            rest
        }
    }
}

/// Exec mirror of [`spec_max_precision`].
fn max_precision(ops: &Vec<Operator>, ids: &Vec<usize>) -> (r: u8)
    requires
        forall|j: int| 0 <= j < ids@.len() ==> (#[trigger] ids@[j]) < ops@.len(),
    ensures
        r == spec_max_precision(ops@, ids@),
{
    let n = ids.len();
    let mut r: u8 = 0;
    let mut j: usize = 0;
    while j < n
        invariant
            j <= n,
            n == ids@.len(),
            forall|k: int| 0 <= k < ids@.len() ==> (#[trigger] ids@[k]) < ops@.len(),
            r == spec_max_precision(ops@, ids@.take(j as int)),
        decreases n - j,
    {
        let p = ops[ids[j]].precision;
        if p > r {
            r = p;
        }
        proof {
            assert(ids@.take(j + 1 as int).drop_last() =~= ids@.take(j as int));
            assert(ids@.take(j + 1 as int).last() == ids@[j as int]);
        }
        j += 1;
    }
    proof {
        assert(ids@.take(n as int) =~= ids@);
    }
    r
}

impl DagBuilder {
    /// Appends a dot (weighted sum) operator over `inputs`.  The output is a
    /// scalar whose precision is the first input's; vector weights must
    /// declare exactly one weight per input.  Rejects a missing index, an
    /// empty input list and a weight-count mismatch.
    pub fn add_dot(&mut self, inputs: &[OperatorIndex], weights: Weights, location: &Location) -> (
        r: Result<OperatorIndex, GraphError>)
        requires
            old(self).wf(),
        ensures
            (inputs@.len() == 0 || exists|j: int|
                0 <= j < inputs@.len() && (#[trigger] inputs@[j]).index >= old(
                    self,
                ).dag.operators@.len()) ==> r == Err::<OperatorIndex, GraphError>(
                GraphError::InvalidOperatorIndex,
            ) && *final(self) == *old(self),
            (inputs@.len() > 0 && (forall|j: int|
                0 <= j < inputs@.len() ==> (#[trigger] inputs@[j]).index < old(
                    self,
                ).dag.operators@.len()) && (weights matches Weights::Vector(ws) && ws@.len()
                != inputs@.len())) ==> r == Err::<OperatorIndex, GraphError>(
                GraphError::WeightsMismatch,
            ) && *final(self) == *old(self),
            (inputs@.len() > 0 && (forall|j: int|
                0 <= j < inputs@.len() ==> (#[trigger] inputs@[j]).index < old(
                    self,
                ).dag.operators@.len()) && !(weights matches Weights::Vector(ws) && ws@.len()
                != inputs@.len())) ==> {
                &&& final(self).wf()
                &&& final(self).circuit == old(self).circuit
                &&& appended_op(old(self).dag, final(self).dag, old(self).circuit)
                &&& r == Ok::<OperatorIndex, GraphError>(
                    OperatorIndex { index: old(self).dag.operators@.len() as usize },
                )
                &&& (final(self).dag.operators@.last().kind matches OperatorKind::Dot {
                    inputs: is2,
                    weights: ws2,
                } && is2@ == inputs@.map_values(|oi: OperatorIndex| oi.index) && ws2 == weights)
                &&& final(self).dag.operators@.last().precision == old(
                    self,
                ).dag.operators@[inputs@[0].index as int].precision
                &&& final(self).dag.operators@.last().shape@ == Seq::<u64>::empty()
                &&& final(self).dag.operators@.last().location == *location
            },
    {
        let len = self.dag.operators.len();
        if inputs.len() == 0 || !all_indices_below(inputs, len) {
            return Err(GraphError::InvalidOperatorIndex);
        }
        match &weights {
            Weights::Vector(ws) => {
                if ws.len() != inputs.len() {
                    return Err(GraphError::WeightsMismatch);
                }
            },
            Weights::Number(_) => {},
        }
        let precision = self.dag.operators[inputs[0].index].precision;
        let ids = indices_of(inputs);
        Ok(
            self.push_operator(
                Operator {
                    kind: OperatorKind::Dot { inputs: ids, weights },
                    precision,
                    shape: Vec::new(),
                    location: location.clone(),
                },
            ),
        )
    }

    /// Appends a linear-noise operator with a caller-declared cost model,
    /// one noise weight per input and a caller-declared output shape.
    /// Rejects a missing index and a weight-count mismatch.
    pub fn add_linear_noise(
        &mut self,
        inputs: &[OperatorIndex],
        complexity: LevelledComplexity,
        weight_bits: &[u64],
        out_shape: &[u64],
        comment: &str,
        location: &Location,
    ) -> (r: Result<OperatorIndex, GraphError>)
        requires
            old(self).wf(),
        ensures
            (exists|j: int|
                0 <= j < inputs@.len() && (#[trigger] inputs@[j]).index >= old(
                    self,
                ).dag.operators@.len()) ==> r == Err::<OperatorIndex, GraphError>(
                GraphError::InvalidOperatorIndex,
            ) && *final(self) == *old(self),
            ((forall|j: int|
                0 <= j < inputs@.len() ==> (#[trigger] inputs@[j]).index < old(
                    self,
                ).dag.operators@.len()) && weight_bits@.len() != inputs@.len()) ==> r == Err::<
                OperatorIndex,
                GraphError,
            >(GraphError::WeightsMismatch) && *final(self) == *old(self),
            ((forall|j: int|
                0 <= j < inputs@.len() ==> (#[trigger] inputs@[j]).index < old(
                    self,
                ).dag.operators@.len()) && weight_bits@.len() == inputs@.len()) ==> {
                &&& final(self).wf()
                &&& final(self).circuit == old(self).circuit
                &&& appended_op(old(self).dag, final(self).dag, old(self).circuit)
                &&& r == Ok::<OperatorIndex, GraphError>(
                    OperatorIndex { index: old(self).dag.operators@.len() as usize },
                )
                &&& (final(self).dag.operators@.last().kind matches OperatorKind::LinearNoise {
                    inputs: is2,
                    complexity: c2,
                    weight_bits: wb2,
                    comment: cm2,
                } && is2@ == inputs@.map_values(|oi: OperatorIndex| oi.index) && c2 == complexity
                    && wb2@ == weight_bits@ && cm2@ == comment@)
                &&& final(self).dag.operators@.last().precision == spec_max_precision(
                    old(self).dag.operators@,
                    inputs@.map_values(|oi: OperatorIndex| oi.index),
                )
                &&& final(self).dag.operators@.last().shape@ == out_shape@
                &&& final(self).dag.operators@.last().location == *location
            },
    {
        let len = self.dag.operators.len();
        if !all_indices_below(inputs, len) {
            return Err(GraphError::InvalidOperatorIndex);
        }
        if weight_bits.len() != inputs.len() {
            return Err(GraphError::WeightsMismatch);
        }
        let ids = indices_of(inputs);
        let precision = max_precision(&self.dag.operators, &ids);
        Ok(
            self.push_operator(
                Operator {
                    kind: OperatorKind::LinearNoise {
                        inputs: ids,
                        complexity,
                        weight_bits: vstd::slice::slice_to_vec(weight_bits),
                        comment: String::from_str(comment),
                    },
                    precision,
                    shape: vstd::slice::slice_to_vec(out_shape),
                    location: location.clone(),
                },
            ),
        )
    }

    /// Appends a max-noise operator over `inputs` with a caller-declared
    /// output shape.  The output precision is the largest input precision,
    /// or zero for an empty input list.  Rejects a missing index.
    pub fn add_max_noise(
        &mut self,
        inputs: &[OperatorIndex],
        out_shape: &[u64],
        location: &Location,
    ) -> (r: Result<OperatorIndex, GraphError>)
        requires
            old(self).wf(),
        ensures
            (exists|j: int|
                0 <= j < inputs@.len() && (#[trigger] inputs@[j]).index >= old(
                    self,
                ).dag.operators@.len()) ==> r == Err::<OperatorIndex, GraphError>(
                GraphError::InvalidOperatorIndex,
            ) && *final(self) == *old(self),
            (forall|j: int|
                0 <= j < inputs@.len() ==> (#[trigger] inputs@[j]).index < old(
                    self,
                ).dag.operators@.len()) ==> {
                &&& final(self).wf()
                &&& final(self).circuit == old(self).circuit
                &&& appended_op(old(self).dag, final(self).dag, old(self).circuit)
                &&& r == Ok::<OperatorIndex, GraphError>(
                    OperatorIndex { index: old(self).dag.operators@.len() as usize },
                )
                &&& (final(self).dag.operators@.last().kind matches OperatorKind::MaxNoise {
                    inputs: is2,
                } && is2@ == inputs@.map_values(|oi: OperatorIndex| oi.index))
                &&& final(self).dag.operators@.last().precision == spec_max_precision(
                    old(self).dag.operators@,
                    inputs@.map_values(|oi: OperatorIndex| oi.index),
                )
                &&& final(self).dag.operators@.last().shape@ == out_shape@
                &&& final(self).dag.operators@.last().location == *location
            },
    {
        let len = self.dag.operators.len();
        if !all_indices_below(inputs, len) {
            return Err(GraphError::InvalidOperatorIndex);
        }
        let ids = indices_of(inputs);
        let precision = max_precision(&self.dag.operators, &ids);
        Ok(
            self.push_operator(
                Operator {
                    kind: OperatorKind::MaxNoise { inputs: ids },
                    precision,
                    shape: vstd::slice::slice_to_vec(out_shape),
                    location: location.clone(),
                },
            ),
        )
    }
}


impl DagBuilder {
    /// Appends a round operator reducing `input` to `rounded_precision`.
    /// The output shape is the input's shape.  Rejects a missing index.
    pub fn add_round_op(
        &mut self,
        input: OperatorIndex,
        rounded_precision: u8,
        location: &Location,
    ) -> (r: Result<OperatorIndex, GraphError>)
        requires
            old(self).wf(),
        ensures
            input.index >= old(self).dag.operators@.len() ==> r == Err::<
                OperatorIndex,
                GraphError,
            >(GraphError::InvalidOperatorIndex) && *final(self) == *old(self),
            input.index < old(self).dag.operators@.len() ==> {
                &&& final(self).wf()
                &&& final(self).circuit == old(self).circuit
                &&& appended_op(old(self).dag, final(self).dag, old(self).circuit)
                &&& r == Ok::<OperatorIndex, GraphError>(
                    OperatorIndex { index: old(self).dag.operators@.len() as usize },
                )
                &&& (final(self).dag.operators@.last().kind matches OperatorKind::Round {
                    input: i2,
                } && i2 == input.index)
                &&& final(self).dag.operators@.last().precision == rounded_precision
                &&& final(self).dag.operators@.last().shape@ == old(self).dag.operators@[input.index
                    as int].shape@
                &&& final(self).dag.operators@.last().location == *location
            },
    {
        if input.index >= self.dag.operators.len() {
            return Err(GraphError::InvalidOperatorIndex);
        }
        let shape = vstd::slice::slice_to_vec(self.dag.operators[input.index].shape.as_slice());
        Ok(
            self.push_operator(
                Operator {
                    kind: OperatorKind::Round { input: input.index },
                    precision: rounded_precision,
                    shape,
                    location: location.clone(),
                },
            ),
        )
    }

    /// Appends an unsafe cast reinterpreting `input` at `new_precision`
    /// without a round.  The output shape is the input's shape.  Rejects a
    /// missing index.
    pub fn add_unsafe_cast_op(
        &mut self,
        input: OperatorIndex,
        new_precision: u8,
        location: &Location,
    ) -> (r: Result<OperatorIndex, GraphError>)
        requires
            old(self).wf(),
        ensures
            input.index >= old(self).dag.operators@.len() ==> r == Err::<
                OperatorIndex,
                GraphError,
            >(GraphError::InvalidOperatorIndex) && *final(self) == *old(self),
            input.index < old(self).dag.operators@.len() ==> {
                &&& final(self).wf()
                &&& final(self).circuit == old(self).circuit
                &&& appended_op(old(self).dag, final(self).dag, old(self).circuit)
                &&& r == Ok::<OperatorIndex, GraphError>(
                    OperatorIndex { index: old(self).dag.operators@.len() as usize },
                )
                &&& (final(self).dag.operators@.last().kind matches OperatorKind::UnsafeCast {
                    input: i2,
                } && i2 == input.index)
                &&& final(self).dag.operators@.last().precision == new_precision
                &&& final(self).dag.operators@.last().shape@ == old(self).dag.operators@[input.index
                    as int].shape@
                &&& final(self).dag.operators@.last().location == *location
            },
    {
        if input.index >= self.dag.operators.len() {
            return Err(GraphError::InvalidOperatorIndex);
        }
        let shape = vstd::slice::slice_to_vec(self.dag.operators[input.index].shape.as_slice());
        Ok(
            self.push_operator(
                Operator {
                    kind: OperatorKind::UnsafeCast { input: input.index },
                    precision: new_precision,
                    shape,
                    location: location.clone(),
                },
            ),
        )
    }

    /// Appends a change-partition operator declaring that `input` arrives
    /// from the externally keyed `src_partition`.  Precision and shape are
    /// the input's.  Rejects a missing index.
    pub fn add_change_partition_with_src(
        &mut self,
        input: OperatorIndex,
        src_partition: &ExternalPartition,
        location: &Location,
    ) -> (r: Result<OperatorIndex, GraphError>)
        requires
            old(self).wf(),
        ensures
            input.index >= old(self).dag.operators@.len() ==> r == Err::<
                OperatorIndex,
                GraphError,
            >(GraphError::InvalidOperatorIndex) && *final(self) == *old(self),
            input.index < old(self).dag.operators@.len() ==> {
                &&& final(self).wf()
                &&& final(self).circuit == old(self).circuit
                &&& appended_op(old(self).dag, final(self).dag, old(self).circuit)
                &&& r == Ok::<OperatorIndex, GraphError>(
                    OperatorIndex { index: old(self).dag.operators@.len() as usize },
                )
                &&& (final(self).dag.operators@.last().kind
                    matches OperatorKind::ChangePartition {
                    input: i2,
                    src_partition: s2,
                    dst_partition: d2,
                } && i2 == input.index && s2 == Some(*src_partition) && d2 is None)
                &&& final(self).dag.operators@.last().precision == old(
                    self,
                ).dag.operators@[input.index as int].precision
                &&& final(self).dag.operators@.last().shape@ == old(self).dag.operators@[input.index
                    as int].shape@
                &&& final(self).dag.operators@.last().location == *location
            },
    {
        if input.index >= self.dag.operators.len() {
            return Err(GraphError::InvalidOperatorIndex);
        }
        let shape = vstd::slice::slice_to_vec(self.dag.operators[input.index].shape.as_slice());
        let precision = self.dag.operators[input.index].precision;
        Ok(
            self.push_operator(
                Operator {
                    kind: OperatorKind::ChangePartition {
                        input: input.index,
                        src_partition: Some(src_partition.clone()),
                        dst_partition: None,
                    },
                    precision,
                    shape,
                    location: location.clone(),
                },
            ),
        )
    }

    /// Appends a change-partition operator declaring that the result moves
    /// into the externally keyed `dst_partition`.  Precision and shape are
    /// the input's.  Rejects a missing index.
    pub fn add_change_partition_with_dst(
        &mut self,
        input: OperatorIndex,
        dst_partition: &ExternalPartition,
        location: &Location,
    ) -> (r: Result<OperatorIndex, GraphError>)
        requires
            old(self).wf(),
        ensures
            input.index >= old(self).dag.operators@.len() ==> r == Err::<
                OperatorIndex,
                GraphError,
            >(GraphError::InvalidOperatorIndex) && *final(self) == *old(self),
            input.index < old(self).dag.operators@.len() ==> {
                &&& final(self).wf()
                &&& final(self).circuit == old(self).circuit
                &&& appended_op(old(self).dag, final(self).dag, old(self).circuit)
                &&& r == Ok::<OperatorIndex, GraphError>(
                    OperatorIndex { index: old(self).dag.operators@.len() as usize },
                )
                &&& (final(self).dag.operators@.last().kind
                    matches OperatorKind::ChangePartition {
                    input: i2,
                    src_partition: s2,
                    dst_partition: d2,
                } && i2 == input.index && s2 is None && d2 == Some(*dst_partition))
                &&& final(self).dag.operators@.last().precision == old(
                    self,
                ).dag.operators@[input.index as int].precision
                &&& final(self).dag.operators@.last().shape@ == old(self).dag.operators@[input.index
                    as int].shape@
                &&& final(self).dag.operators@.last().location == *location
            },
    {
        if input.index >= self.dag.operators.len() {
            return Err(GraphError::InvalidOperatorIndex);
        }
        let shape = vstd::slice::slice_to_vec(self.dag.operators[input.index].shape.as_slice());
        let precision = self.dag.operators[input.index].precision;
        Ok(
            self.push_operator(
                Operator {
                    kind: OperatorKind::ChangePartition {
                        input: input.index,
                        src_partition: None,
                        dst_partition: Some(dst_partition.clone()),
                    },
                    precision,
                    shape,
                    location: location.clone(),
                },
            ),
        )
    }

    /// Tags an existing operator as an output of the unit.  Idempotent:
    /// tagging twice changes nothing further.  Rejects a missing index.
    pub fn tag_operator_as_output(&mut self, op: OperatorIndex) -> (r: Result<(), GraphError>)
        requires
            old(self).wf(),
        ensures
            op.index >= old(self).dag.operators@.len() ==> r == Err::<(), GraphError>(
                GraphError::InvalidOperatorIndex,
            ) && *final(self) == *old(self),
            op.index < old(self).dag.operators@.len() ==> {
                &&& final(self).wf()
                &&& final(self).circuit == old(self).circuit
                &&& r == Ok::<(), GraphError>(())
                &&& final(self).dag.operators@ == old(self).dag.operators@
                &&& final(self).dag.op_circuit@ == old(self).dag.op_circuit@
                &&& final(self).dag.circuit_names@ == old(self).dag.circuit_names@
                &&& final(self).dag.compositions@ == old(self).dag.compositions@
                &&& final(self).dag.is_output@ == old(self).dag.is_output@.update(
                    op.index as int,
                    true,
                )
            },
    {
        if op.index >= self.dag.operators.len() {
            return Err(GraphError::InvalidOperatorIndex);
        }
        self.dag.is_output.set(op.index, true);
        proof {
            let pre = old(self).dag;
            let post = self.dag;
            assert forall|e: int|
                0 <= e < post.compositions@.len() implies post.edge_wf(
                #[trigger] post.compositions@[e],
            ) by {
                assert(pre.edge_wf(pre.compositions@[e]));
            }
        }
        Ok(())
    }
}


impl Dag {
    /// The output-tagged operator positions below `n`, in index order.
    pub open spec fn output_indices_upto(self, n: int) -> Seq<usize>
        decreases n,
    {
        if n <= 0 {
            Seq::empty()
        } else {
            let rest = self.output_indices_upto(n - 1);
            if self.is_output@[n - 1] {
                rest.push((n - 1) as usize)
            } else {
                rest
            }
        }
    }

    /// The output-tagged operator positions of the whole unit.
    pub open spec fn spec_output_indices(self) -> Seq<usize> {
        self.output_indices_upto(self.operators@.len() as int)
    }

    /// The input operator positions below `n`, in index order.
    pub open spec fn input_indices_upto(self, n: int) -> Seq<usize>
        decreases n,
    {
        if n <= 0 {
            Seq::empty()
        } else {
            let rest = self.input_indices_upto(n - 1);
            if self.operators@[n - 1].spec_is_input() {
                rest.push((n - 1) as usize)
            } else {
                rest
            }
        }
    }

    /// The input operator positions of the whole unit.
    pub open spec fn spec_input_indices(self) -> Seq<usize> {
        self.input_indices_upto(self.operators@.len() as int)
    }

    /// The output-tagged positions of circuit `c` below `n`, in index order.
    pub open spec fn circuit_output_indices_upto(self, c: int, n: int) -> Seq<usize>
        decreases n,
    {
        if n <= 0 {
            Seq::empty()
        } else {
            let rest = self.circuit_output_indices_upto(c, n - 1);
            if self.is_output@[n - 1] && self.op_circuit@[n - 1] == c {
                rest.push((n - 1) as usize)
            } else {
                rest
            }
        }
    }

    /// The declared outputs of circuit `c`, in declaration order.
    pub open spec fn spec_circuit_outputs(self, c: int) -> Seq<usize> {
        self.circuit_output_indices_upto(c, self.operators@.len() as int)
    }

    /// The input positions of circuit `c` below `n`, in index order.
    pub open spec fn circuit_input_indices_upto(self, c: int, n: int) -> Seq<usize>
        decreases n,
    {
        if n <= 0 {
            Seq::empty()
        } else {
            let rest = self.circuit_input_indices_upto(c, n - 1);
            if self.operators@[n - 1].spec_is_input() && self.op_circuit@[n - 1] == c {
                rest.push((n - 1) as usize)
            } else {
                rest
            }
        }
    }

    /// The declared inputs of circuit `c`, in declaration order.
    pub open spec fn spec_circuit_inputs(self, c: int) -> Seq<usize> {
        self.circuit_input_indices_upto(c, self.operators@.len() as int)
    }

    /// Every listed output position is a valid, output-tagged position.
    pub proof fn lemma_output_indices_valid(self, n: int)
        requires
            n <= self.operators@.len(),
            n <= usize::MAX,
            self.is_output@.len() == self.operators@.len(),
        ensures
            forall|k: int|
                0 <= k < self.output_indices_upto(n).len() ==> (
                #[trigger] self.output_indices_upto(n)[k]) < n && self.is_output@[self.output_indices_upto(
                    n,
                )[k] as int],
        decreases n,
    {
        if n > 0 {
            self.lemma_output_indices_valid(n - 1);
            let rest = self.output_indices_upto(n - 1);
            let cur = self.output_indices_upto(n);
            assert forall|k: int| 0 <= k < cur.len() implies (#[trigger] cur[k]) < n
                && self.is_output@[cur[k] as int] by {
                if k < rest.len() {
                    assert(rest[k] < n - 1);
                    assert(self.is_output@[rest[k] as int]);
                    assert(cur[k] == rest[k]);
                    assert(cur[k] < n);
                    assert(self.is_output@[cur[k] as int]);
                } else {
                    assert(self.is_output@[n - 1]);
                    assert(cur[k] == (n - 1) as usize);
                    assert(cur[k] < n);
                    assert(self.is_output@[cur[k] as int]);
                }
            }
        }
    }

    /// Every listed input position is a valid input-operator position.
    pub proof fn lemma_input_indices_valid(self, n: int)
        requires
            n <= self.operators@.len(),
            n <= usize::MAX,
        ensures
            forall|k: int|
                0 <= k < self.input_indices_upto(n).len() ==> (
                #[trigger] self.input_indices_upto(n)[k]) < n && self.operators@[self.input_indices_upto(
                    n,
                )[k] as int].spec_is_input(),
        decreases n,
    {
        if n > 0 {
            self.lemma_input_indices_valid(n - 1);
            let rest = self.input_indices_upto(n - 1);
            let cur = self.input_indices_upto(n);
            assert forall|k: int| 0 <= k < cur.len() implies (#[trigger] cur[k]) < n
                && self.operators@[cur[k] as int].spec_is_input() by {
                if k < rest.len() {
                    assert(cur[k] == rest[k]);
                } else {
                    assert(cur[k] == (n - 1) as usize);
                }
            }
        }
    }

    /// Every listed circuit-output position is valid and output-tagged.
    pub proof fn lemma_circuit_outputs_valid(self, c: int, n: int)
        requires
            n <= self.operators@.len(),
            n <= usize::MAX,
            self.is_output@.len() == self.operators@.len(),
        ensures
            forall|k: int|
                0 <= k < self.circuit_output_indices_upto(c, n).len() ==> (
                #[trigger] self.circuit_output_indices_upto(c, n)[k]) < n
                    && self.is_output@[self.circuit_output_indices_upto(c, n)[k] as int],
        decreases n,
    {
        if n > 0 {
            self.lemma_circuit_outputs_valid(c, n - 1);
            let rest = self.circuit_output_indices_upto(c, n - 1);
            let cur = self.circuit_output_indices_upto(c, n);
            assert forall|k: int| 0 <= k < cur.len() implies (#[trigger] cur[k]) < n
                && self.is_output@[cur[k] as int] by {
                if k < rest.len() {
                    assert(cur[k] == rest[k]);
                } else {
                    assert(cur[k] == (n - 1) as usize);
                }
            }
        }
    }

    /// Every listed circuit-input position is a valid input operator.
    pub proof fn lemma_circuit_inputs_valid(self, c: int, n: int)
        requires
            n <= self.operators@.len(),
            n <= usize::MAX,
        ensures
            forall|k: int|
                0 <= k < self.circuit_input_indices_upto(c, n).len() ==> (
                #[trigger] self.circuit_input_indices_upto(c, n)[k]) < n
                    && self.operators@[self.circuit_input_indices_upto(c, n)[k] as int].spec_is_input(),
        decreases n,
    {
        if n > 0 {
            self.lemma_circuit_inputs_valid(c, n - 1);
            let rest = self.circuit_input_indices_upto(c, n - 1);
            let cur = self.circuit_input_indices_upto(c, n);
            assert forall|k: int| 0 <= k < cur.len() implies (#[trigger] cur[k]) < n
                && self.operators@[cur[k] as int].spec_is_input() by {
                if k < rest.len() {
                    assert(cur[k] == rest[k]);
                } else {
                    assert(cur[k] == (n - 1) as usize);
                }
            }
        }
    }

    /// The positions of all input operators, as operator indices.
    pub fn get_input_indices(&self) -> (r: Vec<OperatorIndex>)
        ensures
            r@.map_values(|oi: OperatorIndex| oi.index) == self.spec_input_indices(),
    {
        let n = self.operators.len();
        let mut v: Vec<OperatorIndex> = Vec::new();
        let mut i: usize = 0;
        while i < n
            invariant
                i <= n,
                n == self.operators@.len(),
                v@.map_values(|oi: OperatorIndex| oi.index) == self.input_indices_upto(i as int),
            decreases n - i,
        {
            if self.operators[i].is_input() {
                v.push(OperatorIndex { index: i });
                proof {
                    assert(v@.map_values(|oi: OperatorIndex| oi.index) =~= v@.drop_last().map_values(
                        |oi: OperatorIndex| oi.index,
                    ).push(i as usize));
                }
            }
            i += 1;
        }
        v
    }

    /// The positions of all output-tagged operators, as operator indices.
    pub fn get_output_indices(&self) -> (r: Vec<OperatorIndex>)
        requires
            self.wf(),
        ensures
            r@.map_values(|oi: OperatorIndex| oi.index) == self.spec_output_indices(),
    {
        let n = self.operators.len();
        let mut v: Vec<OperatorIndex> = Vec::new();
        let mut i: usize = 0;
        while i < n
            invariant
                i <= n,
                n == self.operators@.len(),
                n == self.is_output@.len(),
                v@.map_values(|oi: OperatorIndex| oi.index) == self.output_indices_upto(i as int),
            decreases n - i,
        {
            if self.is_output[i] {
                v.push(OperatorIndex { index: i });
                proof {
                    assert(v@.map_values(|oi: OperatorIndex| oi.index) =~= v@.drop_last().map_values(
                        |oi: OperatorIndex| oi.index,
                    ).push(i as usize));
                }
            }
            i += 1;
        }
        v
    }

    /// The declared outputs of circuit `c`, in declaration order.
    fn circuit_outputs(&self, c: usize) -> (r: Vec<usize>)
        requires
            self.wf(),
        ensures
            r@ == self.spec_circuit_outputs(c as int),
    {
        let n = self.operators.len();
        let mut v: Vec<usize> = Vec::new();
        let mut i: usize = 0;
        while i < n
            invariant
                i <= n,
                n == self.operators@.len(),
                n == self.is_output@.len(),
                n == self.op_circuit@.len(),
                v@ == self.circuit_output_indices_upto(c as int, i as int),
            decreases n - i,
        {
            if self.is_output[i] && self.op_circuit[i] == c {
                v.push(i);
            }
            i += 1;
        }
        v
    }

    /// The declared inputs of circuit `c`, in declaration order.
    fn circuit_inputs(&self, c: usize) -> (r: Vec<usize>)
        requires
            self.wf(),
        ensures
            r@ == self.spec_circuit_inputs(c as int),
    {
        let n = self.operators.len();
        let mut v: Vec<usize> = Vec::new();
        let mut i: usize = 0;
        while i < n
            invariant
                i <= n,
                n == self.operators@.len(),
                n == self.op_circuit@.len(),
                v@ == self.circuit_input_indices_upto(c as int, i as int),
            decreases n - i,
        {
            if self.operators[i].is_input() && self.op_circuit[i] == c {
                v.push(i);
            }
            i += 1;
        }
        v
    }
}


/// The full cross product of composition edges from `froms` to `tos`, in
/// declaration order: all edges of `froms[0]` first, and so on.
pub open spec fn cross_edges(froms: Seq<usize>, tos: Seq<usize>) -> Seq<CompositionEdge>
    decreases froms.len(),
{
    if froms.len() == 0 {
        Seq::empty()
    } else {
        cross_edges(froms.drop_last(), tos) + edges_from(froms.last(), tos)
    }
}

/// All edges from one source operator to each of `tos`, in order.
pub open spec fn edges_from(from: usize, tos: Seq<usize>) -> Seq<CompositionEdge> {
    Seq::new(tos.len(), |j: int| CompositionEdge { from, to: tos[j] })
}

/// A cross product has one edge per (source, sink) pair.
pub proof fn lemma_cross_edges_len(froms: Seq<usize>, tos: Seq<usize>)
    ensures
        cross_edges(froms, tos).len() == froms.len() * tos.len(),
    decreases froms.len(),
{
    if froms.len() > 0 {
        lemma_cross_edges_len(froms.drop_last(), tos);
        assert((froms.len() - 1) * tos.len() + tos.len() == froms.len() * tos.len())
            by (nonlinear_arith);
    }
}

impl Dag {
    /// Declares a composition edge: output slot `from_pos` of circuit
    /// `from_func` feeds input slot `to_pos` of circuit `to_func`.  Slots
    /// are resolved in declaration order.  Rejects an unknown circuit name
    /// and an out-of-range slot, leaving the unit untouched.
    pub fn add_composition(
        &mut self,
        from_func: &String,
        from_pos: usize,
        to_func: &String,
        to_pos: usize,
    ) -> (r: Result<(), GraphError>)
        requires
            old(self).wf(),
        ensures
            old(self).spec_find_circuit(from_func@) is None ==> r == Err::<(), GraphError>(
                GraphError::UnknownCircuit,
            ) && *final(self) == *old(self),
            (old(self).spec_find_circuit(from_func@) matches Some(fc) && from_pos >= old(
                self,
            ).spec_circuit_outputs(fc).len()) ==> r == Err::<(), GraphError>(
                GraphError::OutputIndexOutOfRange,
            ) && *final(self) == *old(self),
            ({
                &&& old(self).spec_find_circuit(from_func@) matches Some(fc)
                &&& from_pos < old(self).spec_circuit_outputs(fc).len()
                &&& old(self).spec_find_circuit(to_func@) is None
            }) ==> r == Err::<(), GraphError>(GraphError::UnknownCircuit) && *final(self) == *old(
                self,
            ),
            ({
                &&& old(self).spec_find_circuit(from_func@) matches Some(fc)
                &&& from_pos < old(self).spec_circuit_outputs(fc).len()
                &&& old(self).spec_find_circuit(to_func@) matches Some(tc)
                &&& to_pos >= old(self).spec_circuit_inputs(tc).len()
            }) ==> r == Err::<(), GraphError>(GraphError::InputIndexOutOfRange) && *final(self)
                == *old(self),
            ({
                &&& old(self).spec_find_circuit(from_func@) matches Some(fc)
                &&& from_pos < old(self).spec_circuit_outputs(fc).len()
                &&& old(self).spec_find_circuit(to_func@) matches Some(tc)
                &&& to_pos < old(self).spec_circuit_inputs(tc).len()
            }) ==> {
                &&& r == Ok::<(), GraphError>(())
                &&& final(self).wf()
                &&& final(self).operators@ == old(self).operators@
                &&& final(self).circuit_names@ == old(self).circuit_names@
                &&& final(self).op_circuit@ == old(self).op_circuit@
                &&& final(self).is_output@ == old(self).is_output@
                &&& final(self).compositions@ == old(self).compositions@.push(
                    CompositionEdge {
                        from: old(self).spec_circuit_outputs(
                            old(self).spec_find_circuit(from_func@)->Some_0,
                        )[from_pos as int],
                        to: old(self).spec_circuit_inputs(
                            old(self).spec_find_circuit(to_func@)->Some_0,
                        )[to_pos as int],
                    },
                )
            },
    {
        let fc = match self.find_circuit(from_func) {
            Some(c) => c,
            None => {
                return Err(GraphError::UnknownCircuit);
            },
        };
        let outs = self.circuit_outputs(fc);
        if from_pos >= outs.len() {
            return Err(GraphError::OutputIndexOutOfRange);
        }
        let tc = match self.find_circuit(to_func) {
            Some(c) => c,
            None => {
                return Err(GraphError::UnknownCircuit);
            },
        };
        let ins = self.circuit_inputs(tc);
        if to_pos >= ins.len() {
            return Err(GraphError::InputIndexOutOfRange);
        }
        let edge = CompositionEdge { from: outs[from_pos], to: ins[to_pos] };
        let n_ops = self.operators.len();
        proof {
            self.lemma_circuit_outputs_valid(fc as int, n_ops as int);
            self.lemma_circuit_inputs_valid(tc as int, n_ops as int);
        }
        self.compositions.push(edge);
        proof {
            let pre = old(self);
            let post = self;
            assert forall|e: int|
                0 <= e < post.compositions@.len() implies post.edge_wf(
                #[trigger] post.compositions@[e],
            ) by {
                if e < pre.compositions@.len() {
                    assert(post.compositions@[e] == pre.compositions@[e]);
                    assert(pre.edge_wf(pre.compositions@[e]));
                } else {
                    assert(post.compositions@[e] == edge);
                }
            }
        }
        Ok(())
    }

    /// Wires every declared output of the unit to every declared input: the
    /// full cross product, for "any output may feed back as any input"
    /// styles of iterative circuits.
    pub fn add_all_compositions(&mut self)
        requires
            old(self).wf(),
        ensures
            final(self).wf(),
            final(self).operators@ == old(self).operators@,
            final(self).circuit_names@ == old(self).circuit_names@,
            final(self).op_circuit@ == old(self).op_circuit@,
            final(self).is_output@ == old(self).is_output@,
            final(self).compositions@ == old(self).compositions@ + cross_edges(
                old(self).spec_output_indices(),
                old(self).spec_input_indices(),
            ),
            final(self).compositions@.len() == old(self).compositions@.len() + old(
                self,
            ).spec_output_indices().len() * old(self).spec_input_indices().len(),
            final(self).spec_is_composed() <==> (old(self).spec_is_composed() || (old(
                self,
            ).spec_output_indices().len() > 0 && old(self).spec_input_indices().len() > 0)),
    {
        let froms = self.get_output_indices();
        let tos = self.get_input_indices();
        let ghost froms_ids = froms@.map_values(|oi: OperatorIndex| oi.index);
        let ghost tos_ids = tos@.map_values(|oi: OperatorIndex| oi.index);
        let n_ops = self.operators.len();
        proof {
            self.lemma_output_indices_valid(n_ops as int);
            self.lemma_input_indices_valid(n_ops as int);
            lemma_cross_edges_len(froms_ids, tos_ids);
        }
        let nf = froms.len();
        let nt = tos.len();
        let mut i: usize = 0;
        while i < nf
            invariant
                i <= nf,
                nf == froms@.len(),
                nt == tos@.len(),
                froms_ids == froms@.map_values(|oi: OperatorIndex| oi.index),
                tos_ids == tos@.map_values(|oi: OperatorIndex| oi.index),
                self.operators@ == old(self).operators@,
                self.circuit_names@ == old(self).circuit_names@,
                self.op_circuit@ == old(self).op_circuit@,
                self.is_output@ == old(self).is_output@,
                old(self).wf(),
                forall|k: int|
                    0 <= k < froms_ids.len() ==> (#[trigger] froms_ids[k]) < self.operators@.len()
                        && self.is_output@[froms_ids[k] as int],
                forall|k: int|
                    0 <= k < tos_ids.len() ==> (#[trigger] tos_ids[k]) < self.operators@.len()
                        && self.operators@[tos_ids[k] as int].spec_is_input(),
                self.compositions@ == old(self).compositions@ + cross_edges(
                    froms_ids.take(i as int),
                    tos_ids,
                ),
                forall|e: int|
                    0 <= e < self.compositions@.len() ==> self.edge_wf(
                        #[trigger] self.compositions@[e],
                    ),
            decreases nf - i,
        {
            let f = froms[i].index;
            let mut j: usize = 0;
            while j < nt
                invariant
                    j <= nt,
                    i < nf,
                    nf == froms@.len(),
                    nt == tos@.len(),
                    f == froms_ids[i as int],
                    froms_ids == froms@.map_values(|oi: OperatorIndex| oi.index),
                    tos_ids == tos@.map_values(|oi: OperatorIndex| oi.index),
                    self.operators@ == old(self).operators@,
                    self.circuit_names@ == old(self).circuit_names@,
                    self.op_circuit@ == old(self).op_circuit@,
                    self.is_output@ == old(self).is_output@,
                    old(self).wf(),
                    forall|k: int|
                        0 <= k < froms_ids.len() ==> (#[trigger] froms_ids[k])
                            < self.operators@.len() && self.is_output@[froms_ids[k] as int],
                    forall|k: int|
                        0 <= k < tos_ids.len() ==> (#[trigger] tos_ids[k]) < self.operators@.len()
                            && self.operators@[tos_ids[k] as int].spec_is_input(),
                    self.compositions@ == old(self).compositions@ + cross_edges(
                        froms_ids.take(i as int),
                        tos_ids,
                    ) + edges_from(f, tos_ids.take(j as int)),
                    forall|e: int|
                        0 <= e < self.compositions@.len() ==> self.edge_wf(
                            #[trigger] self.compositions@[e],
                        ),
                decreases nt - j,
            {
                let t = tos[j].index;
                let edge = CompositionEdge { from: f, to: t };
                self.compositions.push(edge);
                proof {
                    assert(edges_from(f, tos_ids.take(j + 1 as int)) =~= edges_from(
                        f,
                        tos_ids.take(j as int),
                    ).push(edge));
                    assert(self.compositions@ =~= old(self).compositions@ + cross_edges(
                        froms_ids.take(i as int),
                        tos_ids,
                    ) + edges_from(f, tos_ids.take(j + 1 as int)));
                }
                j += 1;
            }
            proof {
                assert(froms_ids.take(i + 1 as int).drop_last() =~= froms_ids.take(i as int));
                assert(froms_ids.take(i + 1 as int).last() == froms_ids[i as int]);
                assert(edges_from(f, tos_ids.take(nt as int)) =~= edges_from(f, tos_ids));
                assert(self.compositions@ =~= old(self).compositions@ + cross_edges(
                    froms_ids.take(i + 1 as int),
                    tos_ids,
                ));
            }
            i += 1;
        }
        proof {
            assert(froms_ids.take(nf as int) =~= froms_ids);
            lemma_cross_edges_len(froms_ids, tos_ids);
            assert(froms_ids.len() * tos_ids.len() > 0 <==> (froms_ids.len() > 0 && tos_ids.len()
                > 0)) by (nonlinear_arith);
        }
    }
}

} // verus!
