//! Partitions: externally keyed partitions, partition definitions used to
//! synthesize virtual keysets, and the two partition-cut policies that group
//! operators into noise-homogeneous partitions before a multi-parameter
//! solve.
//!
//! The cut is a pure function of the graph's static shape, precision and
//! weight annotations.  An operator's noise-growth profile is modelled by
//! its accumulated squared-norm bound: noise sources count 1, trivial
//! ciphertexts 0, a table lookup resets the bound to 1, a dot accumulates
//! the squares of its integer weights times its inputs' bounds (saturating
//! at `u64::MAX`, which keeps the bound sound), and the remaining operators
//! propagate the largest bound among their inputs.

use crate::dag::Dag;
use crate::operator::{Operator, OperatorKind, Weights};
use crate::options::{MultiParamStrategy, Options};
use crate::parameters::MacroParameters;
use vstd::prelude::*;

verus! {

/// A named, externally fixed set of macro parameters together with the
/// maximum tolerated variance and the actual variance of the external key
/// material.  The two variances belong to the external noise model and are
/// carried as IEEE-754 bit patterns (see [`crate::fp`]).
#[derive(Debug, PartialEq)]
pub struct ExternalPartition {
    pub name: String,
    pub macro_params: MacroParameters,
    pub max_variance_bits: u64,
    pub variance_bits: u64,
}

impl Clone for ExternalPartition {
    fn clone(&self) -> (r: Self)
        ensures
            r == *self,
    {
        ExternalPartition {
            name: self.name.clone(),
            macro_params: self.macro_params,
            max_variance_bits: self.max_variance_bits,
            variance_bits: self.variance_bits,
        }
    }
}

/// Builds an externally fixed partition description from plain values.
pub fn get_external_partition(
    name: String,
    log2_polynomial_size: u64,
    glwe_dimension: u64,
    internal_dim: u64,
    max_variance_bits: u64,
    variance_bits: u64,
) -> (r: ExternalPartition)
    ensures
        r.name == name,
        r.macro_params.glwe_params.log2_polynomial_size == log2_polynomial_size,
        r.macro_params.glwe_params.glwe_dimension == glwe_dimension,
        r.macro_params.internal_dim == internal_dim,
        r.max_variance_bits == max_variance_bits,
        r.variance_bits == variance_bits,
{
    ExternalPartition {
        name,
        macro_params: MacroParameters {
            glwe_params: crate::parameters::GlweParameters {
                log2_polynomial_size,
                glwe_dimension,
            },
            internal_dim,
        },
        max_variance_bits,
        variance_bits,
    }
}

/// A (precision, squared-norm bound) pair used to synthesize a virtual
/// keyset without running a full circuit solve.  The norm bound belongs to
/// the external noise model and is carried as an IEEE-754 bit pattern.
#[derive(Debug, Clone, Copy, PartialEq, Eq, Structural)]
pub struct PartitionDefinition {
    pub precision: u8,
    pub norm2_bits: u64,
}


/// Clamps a mathematical value to `u64`.
pub open spec fn sat_u64(x: nat) -> u64 {
    if x > u64::MAX {
        u64::MAX
    } else {
        x as u64
    }
}

/// Saturating addition on `u64`.
pub open spec fn sat_add_u64(a: u64, b: u64) -> u64 {
    sat_u64((a + b) as nat)
}

/// The absolute value of a signed weight.
pub open spec fn abs_weight(w: i64) -> nat {
    if w < 0 {
        (-(w as int)) as nat
    } else {
        w as nat
    }
}

/// The weight a dot applies to its `j`-th input: the scalar for
/// [`Weights::Number`], the `j`-th entry for [`Weights::Vector`] (zero when
/// out of range).
pub open spec fn weight_at(weights: Weights, j: int) -> i64 {
    match weights {
        Weights::Number(w) => w,
        Weights::Vector(ws) => if 0 <= j < ws@.len() {
            ws@[j]
        } else {
            0
        },
    }
}

/// The accumulated squared-norm bound of operator `i`.
pub open spec fn spec_op_norm2(ops: Seq<Operator>, i: int) -> u64
    decreases i, 1int, 0int,
{
    if i < 0 || i >= ops.len() {
        0
    } else {
        match ops[i].kind {
            OperatorKind::Input => 1,
            OperatorKind::ZeroNoise => 0,
            OperatorKind::TableLookup { .. } => 1,
            OperatorKind::Dot { inputs, weights } => spec_dot_norm2(
                ops,
                i,
                inputs@,
                weights,
                inputs@.len() as int,
            ),
            OperatorKind::LinearNoise { inputs, .. } => spec_max_norm2(
                ops,
                i,
                inputs@,
                inputs@.len() as int,
            ),
            OperatorKind::MaxNoise { inputs } => spec_max_norm2(
                ops,
                i,
                inputs@,
                inputs@.len() as int,
            ),
            OperatorKind::Round { input } => if input < i {
                spec_op_norm2(ops, input as int)
            } else {
                0
            },
            OperatorKind::UnsafeCast { input } => if input < i {
                spec_op_norm2(ops, input as int)
            } else {
                0
            },
            OperatorKind::ChangePartition { input, .. } => if input < i {
                spec_op_norm2(ops, input as int)
            } else {
                0
            },
        }
    }
}

/// The saturating sum over the first `j` inputs of a dot at position `i` of
/// weight squared times the input's bound.
pub open spec fn spec_dot_norm2(
    ops: Seq<Operator>,
    i: int,
    inputs: Seq<usize>,
    weights: Weights,
    j: int,
) -> u64
    decreases i, 0int, j,
{
    if j <= 0 {
        0
    } else {
        let w = abs_weight(weight_at(weights, j - 1));
        let norm_in: u64 = if 0 <= j - 1 < inputs.len() && inputs[j - 1] < i {
            spec_op_norm2(ops, inputs[j - 1] as int)
        } else {
            0
        };
        sat_add_u64(spec_dot_norm2(ops, i, inputs, weights, j - 1), sat_u64(w * w * (norm_in as nat)))
    }
}

/// The largest bound among the first `j` inputs of the operator at `i`.
pub open spec fn spec_max_norm2(ops: Seq<Operator>, i: int, inputs: Seq<usize>, j: int) -> u64
    decreases i, 0int, j,
{
    if j <= 0 {
        0
    } else {
        let rest = spec_max_norm2(ops, i, inputs, j - 1);
        let norm_in: u64 = if 0 <= j - 1 < inputs.len() && inputs[j - 1] < i {
            spec_op_norm2(ops, inputs[j - 1] as int)
        } else {
            0
        };
        if norm_in > rest {
            norm_in
        } else {
            rest
        }
    }
}

/// Exec absolute value of a signed weight.
fn i64_abs(w: i64) -> (r: u64)
    ensures
        r == abs_weight(w),
{
    if w < 0 {
        (-(w as i128)) as u64
    } else {
        w as u64
    }
}

/// One saturated term of a dot's bound: weight squared times input bound.
fn weight_term(w: i64, norm: u64) -> (r: u64)
    ensures
        r == sat_u64(abs_weight(w) * abs_weight(w) * (norm as nat)),
{
    let wa: u64 = i64_abs(w);
    if norm == 0 || wa == 0 {
        return 0;
    }
    proof {
        assert((u64::MAX as nat) * (u64::MAX as nat) < (u128::MAX as nat)) by (nonlinear_arith);
        assert((wa as nat) * (wa as nat) <= ((u64::MAX as nat) * (u64::MAX as nat)))
            by (nonlinear_arith)
            requires
                wa <= u64::MAX,
        ;
    }
    let wa2: u128 = (wa as u128) * (wa as u128);
    if wa2 > u64::MAX as u128 {
        proof {
            assert((wa as nat) * (wa as nat) * (norm as nat) >= (wa as nat) * (wa as nat) * 1)
                by (nonlinear_arith)
                requires
                    norm >= 1,
            ;
        }
        return u64::MAX;
    }
    proof {
        assert((u64::MAX as nat) * (u64::MAX as nat) < (u128::MAX as nat)) by (nonlinear_arith);
        assert((wa2 as nat) * (norm as nat) <= ((u64::MAX as nat) * (u64::MAX as nat)))
            by (nonlinear_arith)
            requires
                wa2 <= u64::MAX,
                norm <= u64::MAX,
        ;
    }
    let p: u128 = wa2 * (norm as u128);
    if p > u64::MAX as u128 {
        u64::MAX
    } else {
        p as u64
    }
}

/// Saturating addition on `u64`.
fn sat_add(a: u64, b: u64) -> (r: u64)
    ensures
        r == sat_add_u64(a, b),
{
    if a > u64::MAX - b {
        u64::MAX
    } else {
        a + b
    }
}

/// The weight a dot applies to its `j`-th input.
fn weight_at_exec(weights: &Weights, j: usize) -> (r: i64)
    ensures
        r == weight_at(*weights, j as int),
{
    match weights {
        Weights::Number(w) => *w,
        Weights::Vector(ws) => if j < ws.len() {
            ws[j]
        } else {
            0
        },
    }
}

impl Dag {
    /// The accumulated squared-norm bound of every operator, in index
    /// order.
    pub fn op_norm2_bounds(&self) -> (r: Vec<u64>)
        requires
            self.wf(),
        ensures
            r@.len() == self.operators@.len(),
            forall|k: int|
                0 <= k < r@.len() ==> (#[trigger] r@[k]) == spec_op_norm2(self.operators@, k),
    {
        let n = self.operators.len();
        let mut r: Vec<u64> = Vec::new();
        let mut i: usize = 0;
        while i < n
            invariant
                i <= n,
                self.wf(),
                n == self.operators@.len(),
                r@.len() == i,
                forall|k: int|
                    0 <= k < i ==> (#[trigger] r@[k]) == spec_op_norm2(self.operators@, k),
            decreases n - i,
        {
            let ghost ops = self.operators@;
            let norm: u64 = match &self.operators[i].kind {
                OperatorKind::Input => 1,
                OperatorKind::ZeroNoise => 0,
                OperatorKind::TableLookup { .. } => 1,
                OperatorKind::Dot { inputs, weights } => {
                    let m = inputs.len();
                    let mut acc: u64 = 0;
                    let mut j: usize = 0;
                    proof {
                        assert(ops[i as int].inputs_before(i as int));
                    }
                    while j < m
                        invariant
                            j <= m,
                            i < n,
                            self.wf(),
                            n == self.operators@.len(),
                            r@.len() == i,
                            forall|k: int|
                                0 <= k < i ==> (#[trigger] r@[k]) == spec_op_norm2(
                                    self.operators@,
                                    k,
                                ),
                            self.operators@[i as int].kind matches OperatorKind::Dot {
                                inputs: si,
                                weights: sw,
                            } && si@ == inputs@ && sw == *weights,
                            m == inputs@.len(),
                            self.operators@[i as int].inputs_before(i as int),
                            acc == spec_dot_norm2(
                                self.operators@,
                                i as int,
                                inputs@,
                                *weights,
                                j as int,
                            ),
                        decreases m - j,
                    {
                        proof {
                            assert(self.operators@[i as int].spec_inputs() == inputs@);
                            assert(inputs@[j as int] < i);
                        }
                        let input = inputs[j];
                        let w = weight_at_exec(weights, j);
                        let term = weight_term(w, r[input]);
                        acc = sat_add(acc, term);
                        j += 1;
                    }
                    acc
                },
                OperatorKind::LinearNoise { inputs, .. } => {
                    let m = inputs.len();
                    let mut acc: u64 = 0;
                    let mut j: usize = 0;
                    proof {
                        assert(ops[i as int].inputs_before(i as int));
                    }
                    while j < m
                        invariant
                            j <= m,
                            i < n,
                            self.wf(),
                            n == self.operators@.len(),
                            r@.len() == i,
                            forall|k: int|
                                0 <= k < i ==> (#[trigger] r@[k]) == spec_op_norm2(
                                    self.operators@,
                                    k,
                                ),
                            self.operators@[i as int].kind matches OperatorKind::LinearNoise {
                                inputs: si,
                                ..
                            } && si@ == inputs@,
                            m == inputs@.len(),
                            self.operators@[i as int].inputs_before(i as int),
                            acc == spec_max_norm2(self.operators@, i as int, inputs@, j as int),
                        decreases m - j,
                    {
                        proof {
                            assert(self.operators@[i as int].spec_inputs() == inputs@);
                            assert(inputs@[j as int] < i);
                        }
                        let input = inputs[j];
                        let norm_in = r[input];
                        if norm_in > acc {
                            acc = norm_in;
                        }
                        j += 1;
                    }
                    acc
                },
                OperatorKind::MaxNoise { inputs } => {
                    let m = inputs.len();
                    let mut acc: u64 = 0;
                    let mut j: usize = 0;
                    proof {
                        assert(ops[i as int].inputs_before(i as int));
                    }
                    while j < m
                        invariant
                            j <= m,
                            i < n,
                            self.wf(),
                            n == self.operators@.len(),
                            r@.len() == i,
                            forall|k: int|
                                0 <= k < i ==> (#[trigger] r@[k]) == spec_op_norm2(
                                    self.operators@,
                                    k,
                                ),
                            self.operators@[i as int].kind matches OperatorKind::MaxNoise {
                                inputs: si,
                            } && si@ == inputs@,
                            m == inputs@.len(),
                            self.operators@[i as int].inputs_before(i as int),
                            acc == spec_max_norm2(self.operators@, i as int, inputs@, j as int),
                        decreases m - j,
                    {
                        proof {
                            assert(self.operators@[i as int].spec_inputs() == inputs@);
                            assert(inputs@[j as int] < i);
                        }
                        let input = inputs[j];
                        let norm_in = r[input];
                        if norm_in > acc {
                            acc = norm_in;
                        }
                        j += 1;
                    }
                    acc
                },
                OperatorKind::Round { input } => {
                    proof {
                        assert(ops[i as int].inputs_before(i as int));
                        assert(ops[i as int].spec_inputs()[0] < i);
                    }
                    r[*input]
                },
                OperatorKind::UnsafeCast { input } => {
                    proof {
                        assert(ops[i as int].inputs_before(i as int));
                        assert(ops[i as int].spec_inputs()[0] < i);
                    }
                    r[*input]
                },
                OperatorKind::ChangePartition { input, .. } => {
                    proof {
                        assert(ops[i as int].inputs_before(i as int));
                        assert(ops[i as int].spec_inputs()[0] < i);
                    }
                    r[*input]
                },
            };
            r.push(norm);
            i += 1;
        }
        r
    }
}


/// The key of one noise-homogeneous partition: the declared output
/// precision, and — under the maximal policy only — the accumulated
/// squared-norm bound (zero under the by-precision policy).
#[derive(Debug, Clone, Copy, PartialEq, Eq, Structural)]
pub struct PartitionSpec {
    pub precision: u8,
    pub norm2: u64,
}

/// A partition cut: the distinct partition keys in first-occurrence order,
/// and for every operator the position of its partition in `partitions`.
#[derive(Debug, Clone, PartialEq)]
pub struct PartitionCut {
    pub partitions: Vec<PartitionSpec>,
    pub op_partition: Vec<usize>,
}

/// The partition key of operator `i` under the chosen policy.
pub open spec fn spec_partition_key(ops: Seq<Operator>, by_norm: bool, i: int) -> PartitionSpec {
    PartitionSpec {
        precision: ops[i].precision,
        norm2: if by_norm {
            spec_op_norm2(ops, i)
        } else {
            0u64
        },
    }
}

/// The distinct partition keys among the first `n` operators, in
/// first-occurrence order.
pub open spec fn spec_distinct_keys_upto(ops: Seq<Operator>, by_norm: bool, n: int) -> Seq<
    PartitionSpec,
>
    decreases n,
{
    if n <= 0 {
        Seq::empty()
    } else {
        let rest = spec_distinct_keys_upto(ops, by_norm, n - 1);
        if rest.contains(spec_partition_key(ops, by_norm, n - 1)) {
            rest
        } else {
            rest.push(spec_partition_key(ops, by_norm, n - 1))
        }
    }
}

/// The distinct keys are pairwise distinct.
pub proof fn lemma_distinct_keys_distinct(ops: Seq<Operator>, by_norm: bool, n: int)
    ensures
        forall|a: int, b: int|
            0 <= a < b < spec_distinct_keys_upto(ops, by_norm, n).len()
                ==> spec_distinct_keys_upto(ops, by_norm, n)[a] != spec_distinct_keys_upto(
                ops,
                by_norm,
                n,
            )[b],
    decreases n,
{
    if n > 0 {
        lemma_distinct_keys_distinct(ops, by_norm, n - 1);
        let rest = spec_distinct_keys_upto(ops, by_norm, n - 1);
        let cur = spec_distinct_keys_upto(ops, by_norm, n);
        let key = spec_partition_key(ops, by_norm, n - 1);
        assert forall|a: int, b: int| 0 <= a < b < cur.len() implies cur[a] != cur[b] by {
            if b < rest.len() {
                assert(cur[a] == rest[a] && cur[b] == rest[b]);
            } else if !rest.contains(key) {
                assert(cur[b] == key);
                assert(cur[a] == rest[a]);
                assert(!rest.contains(key) ==> rest[a] != key);
            }
        }
    }
}

impl PartitionCut {
    /// The cut lists every operator, each mapped to a listed partition, and
    /// the partitions are pairwise distinct keys of the chosen policy.
    pub open spec fn wf_for(self, ops: Seq<Operator>, by_norm: bool) -> bool {
        &&& self.partitions@ == spec_distinct_keys_upto(ops, by_norm, ops.len() as int)
        &&& self.op_partition@.len() == ops.len()
        &&& forall|i: int|
            0 <= i < ops.len() ==> (#[trigger] self.op_partition@[i]) < self.partitions@.len()
                && self.partitions@[self.op_partition@[i] as int] == spec_partition_key(
                ops,
                by_norm,
                i,
            )
    }

    /// The number of partitions the cut produced.
    pub fn partition_count(&self) -> (r: usize)
        ensures
            r == self.partitions@.len(),
    {
        self.partitions.len()
    }
}

impl Dag {
    /// Groups the operators by partition key: the key of every operator is
    /// computed, and the distinct keys become the partitions.
    fn cut_by_keys(&self, keys: &Vec<PartitionSpec>, Ghost(by_norm): Ghost<bool>) -> (r:
        PartitionCut)
        requires
            self.wf(),
            keys@.len() == self.operators@.len(),
            forall|i: int|
                0 <= i < keys@.len() ==> (#[trigger] keys@[i]) == spec_partition_key(
                    self.operators@,
                    by_norm,
                    i,
                ),
        ensures
            r.wf_for(self.operators@, by_norm),
    {
        let n = keys.len();
        let mut partitions: Vec<PartitionSpec> = Vec::new();
        let mut op_partition: Vec<usize> = Vec::new();
        let mut i: usize = 0;
        while i < n
            invariant
                i <= n,
                n == keys@.len(),
                n == self.operators@.len(),
                forall|k: int|
                    0 <= k < keys@.len() ==> (#[trigger] keys@[k]) == spec_partition_key(
                        self.operators@,
                        by_norm,
                        k,
                    ),
                partitions@ == spec_distinct_keys_upto(self.operators@, by_norm, i as int),
                op_partition@.len() == i,
                forall|k: int|
                    0 <= k < i ==> (#[trigger] op_partition@[k]) < partitions@.len()
                        && partitions@[op_partition@[k] as int] == spec_partition_key(
                        self.operators@,
                        by_norm,
                        k,
                    ),
            decreases n - i,
        {
            let key = keys[i];
            let m = partitions.len();
            let mut found: Option<usize> = None;
            let mut j: usize = 0;
            while j < m
                invariant
                    j <= m,
                    m == partitions@.len(),
                    match found {
                        Some(p) => p < m && partitions@[p as int] == key,
                        None => forall|k: int| 0 <= k < j ==> partitions@[k] != key,
                    },
                decreases m - j,
            {
                if found.is_none() && partitions[j] == key {
                    found = Some(j);
                }
                j += 1;
            }
            match found {
                Some(p) => {
                    proof {
                        assert(partitions@.contains(key));
                    }
                    op_partition.push(p);
                },
                None => {
                    proof {
                        assert(forall|k: int| 0 <= k < partitions@.len() ==> partitions@[k] != key);
                        assert(!partitions@.contains(key));
                    }
                    op_partition.push(partitions.len());
                    partitions.push(key);
                },
            }
            i += 1;
        }
        PartitionCut { partitions, op_partition }
    }

    /// The by-precision policy: one partition per distinct declared output
    /// precision.
    pub fn partition_cut_by_precision(&self) -> (r: PartitionCut)
        requires
            self.wf(),
        ensures
            r.wf_for(self.operators@, false),
    {
        let n = self.operators.len();
        let mut keys: Vec<PartitionSpec> = Vec::new();
        let mut i: usize = 0;
        while i < n
            invariant
                i <= n,
                self.wf(),
                n == self.operators@.len(),
                keys@.len() == i,
                forall|k: int|
                    0 <= k < i ==> (#[trigger] keys@[k]) == spec_partition_key(
                        self.operators@,
                        false,
                        k,
                    ),
            decreases n - i,
        {
            keys.push(PartitionSpec { precision: self.operators[i].precision, norm2: 0 });
            i += 1;
        }
        self.cut_by_keys(&keys, Ghost(false))
    }

    /// The maximal policy: partitions further distinguished by the
    /// operators' accumulated squared-norm bounds.
    pub fn partition_cut_maximal(&self) -> (r: PartitionCut)
        requires
            self.wf(),
        ensures
            r.wf_for(self.operators@, true),
    {
        let norms = self.op_norm2_bounds();
        let n = self.operators.len();
        let mut keys: Vec<PartitionSpec> = Vec::new();
        let mut i: usize = 0;
        while i < n
            invariant
                i <= n,
                self.wf(),
                n == self.operators@.len(),
                norms@.len() == n,
                forall|k: int|
                    0 <= k < norms@.len() ==> (#[trigger] norms@[k]) == spec_op_norm2(
                        self.operators@,
                        k,
                    ),
                keys@.len() == i,
                forall|k: int|
                    0 <= k < i ==> (#[trigger] keys@[k]) == spec_partition_key(
                        self.operators@,
                        true,
                        k,
                    ),
            decreases n - i,
        {
            keys.push(PartitionSpec { precision: self.operators[i].precision, norm2: norms[i] });
            i += 1;
        }
        self.cut_by_keys(&keys, Ghost(true))
    }

    /// The cut the options select: maximal under
    /// [`MultiParamStrategy::ByPrecisionAndNorm2`], by precision otherwise.
    pub fn partition_cut_for(&self, options: &Options) -> (r: PartitionCut)
        requires
            self.wf(),
        ensures
            options.multi_param_strategy is ByPrecisionAndNorm2 ==> r.wf_for(
                self.operators@,
                true,
            ),
            options.multi_param_strategy is ByPrecision ==> r.wf_for(self.operators@, false),
    {
        match options.multi_param_strategy {
            MultiParamStrategy::ByPrecisionAndNorm2 => self.partition_cut_maximal(),
            MultiParamStrategy::ByPrecision => self.partition_cut_by_precision(),
        }
    }
}

} // verus!
