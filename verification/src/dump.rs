//! Deterministic textual dumps for diagnostics and golden-file testing.
//! The renderings are fully specified character by character: one line per
//! operator for a graph, and a header plus an optional per-instruction key
//! table for a circuit solution.

use crate::dag::{Dag, DagBuilder};
use crate::json::{append_list, append_u64, dec_repr, list_json};
use crate::keys::InstructionKeys;
use crate::operator::{Operator, OperatorKind};
use crate::solution::CircuitSolution;
use vstd::prelude::*;

verus! {

/// The tag word of an operator variant.
pub open spec fn kind_name(op: Operator) -> Seq<char> {
    match op.kind {
        OperatorKind::Input => "input"@,
        OperatorKind::ZeroNoise => "zero_noise"@,
        OperatorKind::TableLookup { .. } => "table_lookup"@,
        OperatorKind::Dot { .. } => "dot"@,
        OperatorKind::LinearNoise { .. } => "linear_noise"@,
        OperatorKind::MaxNoise { .. } => "max_noise"@,
        OperatorKind::Round { .. } => "round"@,
        OperatorKind::UnsafeCast { .. } => "unsafe_cast"@,
        OperatorKind::ChangePartition { .. } => "change_partition"@,
    }
}

/// The referenced indices of an operator, widened for rendering.
pub open spec fn spec_inputs_u64(op: Operator) -> Seq<u64> {
    op.spec_inputs().map_values(|x: usize| x as u64)
}

/// One dumped line: index, variant tag, precision, shape, inputs and the
/// output marker.
pub open spec fn op_line(dag: Dag, i: int) -> Seq<char> {
    "%"@ + dec_repr(i as nat) + ": "@ + kind_name(dag.operators@[i]) + " p="@ + dec_repr(
        dag.operators@[i].precision as nat,
    ) + " shape="@ + list_json(dag.operators@[i].shape@) + " inputs="@ + list_json(
        spec_inputs_u64(dag.operators@[i]),
    ) + (if dag.is_output@[i] {
        " out"@
    } else {
        Seq::<char>::empty()
    }) + "\n"@
}

/// The dump of the first `n` operators of the unit.
pub open spec fn dag_dump_upto(dag: Dag, n: int) -> Seq<char>
    decreases n,
{
    if n <= 0 {
        Seq::empty()
    } else {
        dag_dump_upto(dag, n - 1) + op_line(dag, n - 1)
    }
}

/// The dump of the operators of circuit `c`, among the first `n`.
pub open spec fn circuit_dump_upto(dag: Dag, c: int, n: int) -> Seq<char>
    decreases n,
{
    if n <= 0 {
        Seq::empty()
    } else {
        circuit_dump_upto(dag, c, n - 1) + (if dag.op_circuit@[n - 1] == c {
            op_line(dag, n - 1)
        } else {
            Seq::<char>::empty()
        })
    }
}

/// The referenced indices of an operator, widened for rendering.
fn inputs_u64(op: &Operator) -> (r: Vec<u64>)
    ensures
        r@ == spec_inputs_u64(*op),
{
    let mut r: Vec<u64> = Vec::new();
    match &op.kind {
        OperatorKind::Input => {},
        OperatorKind::ZeroNoise => {},
        OperatorKind::TableLookup { input, .. } => {
            r.push(*input as u64);
            proof {
                assert(r@ =~= spec_inputs_u64(*op));
            }
        },
        OperatorKind::Dot { inputs, .. } => {
            r = widen_indices(inputs);
        },
        OperatorKind::LinearNoise { inputs, .. } => {
            r = widen_indices(inputs);
        },
        OperatorKind::MaxNoise { inputs } => {
            r = widen_indices(inputs);
        },
        OperatorKind::Round { input } => {
            r.push(*input as u64);
            proof {
                assert(r@ =~= spec_inputs_u64(*op));
            }
        },
        OperatorKind::UnsafeCast { input } => {
            r.push(*input as u64);
            proof {
                assert(r@ =~= spec_inputs_u64(*op));
            }
        },
        OperatorKind::ChangePartition { input, .. } => {
            r.push(*input as u64);
            proof {
                assert(r@ =~= spec_inputs_u64(*op));
            }
        },
    }
    proof {
        assert(r@ =~= spec_inputs_u64(*op));
    }
    r
}

/// Widens a vector of indices for rendering.
fn widen_indices(v: &Vec<usize>) -> (r: Vec<u64>)
    ensures
        r@ == v@.map_values(|x: usize| x as u64),
{
    let n = v.len();
    let mut r: Vec<u64> = Vec::new();
    let mut i: usize = 0;
    while i < n
        invariant
            i <= n,
            n == v@.len(),
            r@ == v@.take(i as int).map_values(|x: usize| x as u64),
        decreases n - i,
    {
        r.push(v[i] as u64);
        proof {
            assert(v@.take(i + 1 as int).map_values(|x: usize| x as u64) =~= v@.take(
                i as int,
            ).map_values(|x: usize| x as u64).push(v@[i as int] as u64));
        }
        i += 1;
    }
    proof {
        assert(v@.take(n as int) =~= v@);
    }
    r
}

/// Appends one dumped operator line.
fn append_op_line(s: &mut String, dag: &Dag, i: usize)
    requires
        i < dag.operators@.len(),
        dag.is_output@.len() == dag.operators@.len(),
    ensures
        final(s)@ == old(s)@ + op_line(*dag, i as int),
{
    s.append("%");
    append_u64(s, i as u64);
    s.append(": ");
    let op = &dag.operators[i];
    match &op.kind {
        OperatorKind::Input => s.append("input"),
        OperatorKind::ZeroNoise => s.append("zero_noise"),
        OperatorKind::TableLookup { .. } => s.append("table_lookup"),
        OperatorKind::Dot { .. } => s.append("dot"),
        OperatorKind::LinearNoise { .. } => s.append("linear_noise"),
        OperatorKind::MaxNoise { .. } => s.append("max_noise"),
        OperatorKind::Round { .. } => s.append("round"),
        OperatorKind::UnsafeCast { .. } => s.append("unsafe_cast"),
        OperatorKind::ChangePartition { .. } => s.append("change_partition"),
    }
    s.append(" p=");
    append_u64(s, op.precision as u64);
    s.append(" shape=");
    append_list(s, &op.shape);
    s.append(" inputs=");
    let ins = inputs_u64(op);
    append_list(s, &ins);
    if dag.is_output[i] {
        s.append(" out");
    }
    s.append("\n");
    proof {
        assert(s@ =~= old(s)@ + op_line(*dag, i as int));
    }
}

impl Dag {
    /// A deterministic, human-readable structural description of the unit:
    /// one line per operator in insertion order.
    pub fn dump(&self) -> (r: String)
        requires
            self.wf(),
        ensures
            r@ == dag_dump_upto(*self, self.operators@.len() as int),
    {
        let n = self.operators.len();
        let mut s = String::new();
        let mut i: usize = 0;
        while i < n
            invariant
                i <= n,
                self.wf(),
                n == self.operators@.len(),
                s@ == dag_dump_upto(*self, i as int),
            decreases n - i,
        {
            append_op_line(&mut s, self, i);
            i += 1;
        }
        s
    }
}

impl DagBuilder {
    /// A deterministic structural description of the builder's circuit:
    /// one line per operator of that circuit, in insertion order.
    pub fn dump(&self) -> (r: String)
        requires
            self.wf(),
        ensures
            r@ == circuit_dump_upto(
                self.dag,
                self.circuit as int,
                self.dag.operators@.len() as int,
            ),
    {
        let n = self.dag.operators.len();
        let mut s = String::new();
        let mut i: usize = 0;
        while i < n
            invariant
                i <= n,
                self.wf(),
                n == self.dag.operators@.len(),
                s@ == circuit_dump_upto(self.dag, self.circuit as int, i as int),
            decreases n - i,
        {
            if self.dag.op_circuit[i] == self.circuit {
                append_op_line(&mut s, &self.dag, i);
            }
            i += 1;
        }
        s
    }
}

/// One dumped per-instruction line of key bindings.
pub open spec fn instruction_line(ik: InstructionKeys, i: int) -> Seq<char> {
    "instr %"@ + dec_repr(i as nat) + ": in="@ + dec_repr(ik.input_key as nat) + " ks="@
        + dec_repr(ik.tlu_keyswitch_key as nat) + " bs="@ + dec_repr(ik.tlu_bootstrap_key as nat)
        + " cb="@ + dec_repr(ik.tlu_circuit_bootstrap_key as nat) + " pp="@ + dec_repr(
        ik.tlu_private_functional_packing_key as nat,
    ) + " out="@ + dec_repr(ik.output_key as nat) + "\n"@
}

/// The dumped key-binding table of the first `n` instructions.
pub open spec fn instruction_lines_upto(iks: Seq<InstructionKeys>, n: int) -> Seq<char>
    decreases n,
{
    if n <= 0 {
        Seq::empty()
    } else {
        instruction_lines_upto(iks, n - 1) + instruction_line(iks[n - 1], n - 1)
    }
}

/// The dumped header of a circuit solution: feasibility, figures, CRT
/// decomposition, key counts and the explanation.
pub open spec fn solution_header(cs: CircuitSolution) -> Seq<char> {
    "CircuitSolution: is_feasible="@ + (if cs.is_feasible {
        "true"@
    } else {
        "false"@
    }) + " complexity_bits="@ + dec_repr(cs.complexity_bits as nat) + " p_error_bits="@ + dec_repr(
        cs.p_error_bits as nat,
    ) + " global_p_error_bits="@ + dec_repr(cs.global_p_error_bits as nat) + " crt="@ + list_json(
        cs.crt_decomposition@,
    ) + " secret_keys="@ + dec_repr(cs.circuit_keys.secret_keys@.len() as nat) + " keyswitch_keys="@
        + dec_repr(cs.circuit_keys.keyswitch_keys@.len() as nat) + " bootstrap_keys="@ + dec_repr(
        cs.circuit_keys.bootstrap_keys@.len() as nat,
    ) + " conversion_keys="@ + dec_repr(cs.circuit_keys.conversion_keyswitch_keys@.len() as nat)
        + " circuit_bootstrap_keys="@ + dec_repr(cs.circuit_keys.circuit_bootstrap_keys@.len() as nat)
        + " packing_keys="@ + dec_repr(cs.circuit_keys.private_functional_packing_keys@.len() as nat)
        + " error_msg="@ + cs.error_msg@ + "\n"@
}

impl CircuitSolution {
    /// The header alone: omits the (potentially large) per-instruction key
    /// table.
    #[verifier::rlimit(50)]
    pub fn short_dump(&self) -> (r: String)
        ensures
            r@ == solution_header(*self),
    {
        let mut s = String::new();
        s.append("CircuitSolution: is_feasible=");
        if self.is_feasible {
            s.append("true");
        } else {
            s.append("false");
        }
        s.append(" complexity_bits=");
        append_u64(&mut s, self.complexity_bits);
        s.append(" p_error_bits=");
        append_u64(&mut s, self.p_error_bits);
        s.append(" global_p_error_bits=");
        append_u64(&mut s, self.global_p_error_bits);
        s.append(" crt=");
        append_list(&mut s, &self.crt_decomposition);
        s.append(" secret_keys=");
        append_u64(&mut s, u64_len(self.circuit_keys.secret_keys.len()));
        s.append(" keyswitch_keys=");
        append_u64(&mut s, u64_len(self.circuit_keys.keyswitch_keys.len()));
        s.append(" bootstrap_keys=");
        append_u64(&mut s, u64_len(self.circuit_keys.bootstrap_keys.len()));
        s.append(" conversion_keys=");
        append_u64(&mut s, u64_len(self.circuit_keys.conversion_keyswitch_keys.len()));
        s.append(" circuit_bootstrap_keys=");
        append_u64(&mut s, u64_len(self.circuit_keys.circuit_bootstrap_keys.len()));
        s.append(" packing_keys=");
        append_u64(&mut s, u64_len(self.circuit_keys.private_functional_packing_keys.len()));
        s.append(" error_msg=");
        s.append(self.error_msg.as_str());
        s.append("\n");
        proof {
            assert(s@ =~= solution_header(*self));
        }
        s
    }

    /// The full dump: the header followed by one line per instruction.
    #[verifier::rlimit(100)]
    #[verifier::spinoff_prover]
    pub fn dump(&self) -> (r: String)
        ensures
            r@ == solution_header(*self) + instruction_lines_upto(
                self.instructions_keys@,
                self.instructions_keys@.len() as int,
            ),
    {
        let mut s = self.short_dump();
        let n = self.instructions_keys.len();
        let mut t = String::new();
        let mut i: usize = 0;
        while i < n
            invariant
                i <= n,
                n == self.instructions_keys@.len(),
                t@ == instruction_lines_upto(self.instructions_keys@, i as int),
            decreases n - i,
        {
            let ik = &self.instructions_keys[i];
            t.append("instr %");
            append_u64(&mut t, i as u64);
            t.append(": in=");
            append_u64(&mut t, ik.input_key);
            t.append(" ks=");
            append_u64(&mut t, ik.tlu_keyswitch_key);
            t.append(" bs=");
            append_u64(&mut t, ik.tlu_bootstrap_key);
            t.append(" cb=");
            append_u64(&mut t, ik.tlu_circuit_bootstrap_key);
            t.append(" pp=");
            append_u64(&mut t, ik.tlu_private_functional_packing_key);
            t.append(" out=");
            append_u64(&mut t, ik.output_key);
            t.append("\n");
            proof {
                assert(t@ =~= instruction_lines_upto(self.instructions_keys@, i + 1 as int));
            }
            i += 1;
        }
        s.append(t.as_str());
        s
    }
}

/// Widens a length for rendering.
fn u64_len(n: usize) -> (r: u64)
    ensures
        r == n as u64,
{
    n as u64
}

} // verus!
