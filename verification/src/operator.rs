//! Operator nodes of a circuit: variant tag, output precision, output shape
//! and a source location for diagnostics.  Operators reference other
//! operators only by plain indices into the owning graph's dense,
//! append-only operator sequence.

use crate::partition::ExternalPartition;
use vstd::prelude::*;

verus! {

/// The index of an operator inside its graph: dense, stable for the graph's
/// lifetime.
#[derive(Debug, Clone, Copy, PartialEq, Eq, Structural)]
pub struct OperatorIndex {
    pub index: usize,
}

/// A source location, for diagnostics only.
#[derive(Debug, PartialEq)]
pub enum Location {
    Unknown,
    File(String),
    Line(String, u64),
    LineColumn(String, u64, u64),
}

impl Clone for Location {
    fn clone(&self) -> (r: Self)
        ensures
            r == *self,
    {
        match self {
            Location::Unknown => Location::Unknown,
            Location::File(f) => Location::File(f.clone()),
            Location::Line(f, l) => Location::Line(f.clone(), *l),
            Location::LineColumn(f, l, c) => Location::LineColumn(f.clone(), *l, *c),
        }
    }
}

/// A location with no information.
pub fn location_unknown() -> (r: Location)
    ensures
        r == Location::Unknown,
{
    Location::Unknown
}

/// The weights of a dot operator: a single scalar applied to every input, or
/// one signed integer per input.
#[derive(Debug, PartialEq)]
pub enum Weights {
    Number(i64),
    Vector(Vec<i64>),
}

/// A scalar weight, applied to every input of the dot.
pub fn number(weight: i64) -> (r: Weights)
    ensures
        r == Weights::Number(weight),
{
    Weights::Number(weight)
}

/// One weight per input of the dot.
pub fn vector(weights: &[i64]) -> (r: Weights)
    ensures
        r matches Weights::Vector(ws) && ws@ == weights@,
{
    Weights::Vector(vstd::slice::slice_to_vec(weights))
}

/// The levelled-complexity cost model of a linear-noise operator: a cost
/// factor per input LWE dimension plus a fixed cost.  Both figures belong to
/// the external cost model and are carried as IEEE-754 bit patterns
/// (see [`crate::fp`]).
#[derive(Debug, Clone, Copy, PartialEq, Eq, Structural)]
pub struct LevelledComplexity {
    pub lwe_dim_cost_factor_bits: u64,
    pub fixed_cost_bits: u64,
}

/// The variant tag of an operator, with the variant-specific payload.
/// Referencing variants hold the indices of the operators they consume.
#[derive(Debug, PartialEq)]
pub enum OperatorKind {
    /// An encrypted input of the circuit.
    Input,
    /// A trivial ciphertext carrying no noise.
    ZeroNoise,
    /// A table lookup of one operator through a function table.
    TableLookup { input: usize, table: Vec<u64> },
    /// A weighted sum of operators.
    Dot { inputs: Vec<usize>, weights: Weights },
    /// A levelled operation with caller-declared noise weights (one IEEE-754
    /// bit pattern per input), cost model and free-form comment.
    LinearNoise {
        inputs: Vec<usize>,
        complexity: LevelledComplexity,
        weight_bits: Vec<u64>,
        comment: String,
    },
    /// An upper bound over the noise of several operators.
    MaxNoise { inputs: Vec<usize> },
    /// A reduction of an operator's precision by rounding.
    Round { input: usize },
    /// A reinterpretation of an operator's precision without a round.
    UnsafeCast { input: usize },
    /// A declared move into or out of an externally keyed partition.
    ChangePartition {
        input: usize,
        src_partition: Option<ExternalPartition>,
        dst_partition: Option<ExternalPartition>,
    },
}

/// One operator node: variant tag, output precision (bit width), output
/// shape (dimension sizes) and source location.
#[derive(Debug, PartialEq)]
pub struct Operator {
    pub kind: OperatorKind,
    pub precision: u8,
    pub shape: Vec<u64>,
    pub location: Location,
}

impl Operator {
    /// The indices of the operators this operator consumes.
    pub open spec fn spec_inputs(self) -> Seq<usize> {
        match self.kind {
            OperatorKind::Input => Seq::empty(),
            OperatorKind::ZeroNoise => Seq::empty(),
            OperatorKind::TableLookup { input, .. } => seq![input],
            OperatorKind::Dot { inputs, .. } => inputs@,
            OperatorKind::LinearNoise { inputs, .. } => inputs@,
            OperatorKind::MaxNoise { inputs } => inputs@,
            OperatorKind::Round { input } => seq![input],
            OperatorKind::UnsafeCast { input } => seq![input],
            OperatorKind::ChangePartition { input, .. } => seq![input],
        }
    }

    /// Index validity relative to a graph prefix: every referenced operator
    /// already exists strictly before position `at`.
    pub open spec fn inputs_before(self, at: int) -> bool {
        forall|j: int| 0 <= j < self.spec_inputs().len() ==> self.spec_inputs()[j] < at
    }

    /// Whether this operator is an encrypted input of its circuit.
    pub open spec fn spec_is_input(self) -> bool {
        self.kind is Input
    }

    /// Exec mirror of [`Self::spec_is_input`].
    pub fn is_input(&self) -> (r: bool)
        ensures
            r == self.spec_is_input(),
    {
        matches!(self.kind, OperatorKind::Input)
    }
}


/// The positions of the colon separators below `n`, in order.
pub open spec fn colon_positions_upto(s: Seq<char>, n: int) -> Seq<int>
    decreases n,
{
    if n <= 0 {
        Seq::empty()
    } else {
        let rest = colon_positions_upto(s, n - 1);
        if s[n - 1] == ':' {
            rest.push(n - 1)
        } else {
            rest
        }
    }
}

/// The positions of all colon separators of a location string.
pub open spec fn colon_positions(s: Seq<char>) -> Seq<int> {
    colon_positions_upto(s, s.len() as int)
}

/// A numeric location part: nonempty, all digits, and within `u64`.
pub open spec fn spec_numeric_part(ds: Seq<char>) -> bool {
    &&& ds.len() > 0
    &&& forall|k: int| 0 <= k < ds.len() ==> crate::json::is_digit(#[trigger] ds[k])
    &&& crate::json::dec_value(ds) <= u64::MAX
}

/// Every listed position is a colon position below `n`.
pub proof fn lemma_colon_positions_valid(s: Seq<char>, n: int)
    requires
        n <= s.len(),
    ensures
        forall|k: int|
            0 <= k < colon_positions_upto(s, n).len() ==> 0 <= #[trigger] colon_positions_upto(
                s,
                n,
            )[k] < n && s[colon_positions_upto(s, n)[k]] == ':',
    decreases n,
{
    if n > 0 {
        lemma_colon_positions_valid(s, n - 1);
        let rest = colon_positions_upto(s, n - 1);
        let cur = colon_positions_upto(s, n);
        assert forall|k: int| 0 <= k < cur.len() implies 0 <= cur[k] < n && s[cur[k]] == ':' by {
            if k < rest.len() {
                assert(cur[k] == rest[k]);
            } else {
                assert(cur[k] == n - 1);
            }
        }
    }
}

/// The listed colon positions are strictly increasing.
pub proof fn lemma_colon_positions_sorted(s: Seq<char>, n: int)
    requires
        n <= s.len(),
    ensures
        forall|a: int, b: int|
            0 <= a < b < colon_positions_upto(s, n).len() ==> colon_positions_upto(s, n)[a]
                < colon_positions_upto(s, n)[b],
    decreases n,
{
    if n > 0 {
        lemma_colon_positions_sorted(s, n - 1);
        lemma_colon_positions_valid(s, n - 1);
        let rest = colon_positions_upto(s, n - 1);
        let cur = colon_positions_upto(s, n);
        assert forall|a: int, b: int| 0 <= a < b < cur.len() implies cur[a] < cur[b] by {
            if b < rest.len() {
                assert(cur[a] == rest[a] && cur[b] == rest[b]);
            } else if cur.len() > rest.len() {
                assert(cur[b] == n - 1);
                assert(cur[a] == rest[a]);
                assert(rest[a] < n - 1);
            }
        }
    }
}

/// Reads a numeric location part; `None` when the slice is empty, holds a
/// non-digit, or overflows `u64`.
fn parse_number_part(s: &str, a: usize, b: usize) -> (r: Option<u64>)
    requires
        a <= b <= s@.len(),
    ensures
        match r {
            Some(v) => spec_numeric_part(s@.subrange(a as int, b as int)) && v
                == crate::json::dec_value(s@.subrange(a as int, b as int)),
            None => !spec_numeric_part(s@.subrange(a as int, b as int)),
        },
{
    if a == b {
        return None;
    }
    let ghost whole = s@.subrange(a as int, b as int);
    let mut acc: u64 = 0;
    let mut j: usize = a;
    while j < b
        invariant
            a <= j <= b <= s@.len(),
            whole == s@.subrange(a as int, b as int),
            forall|k: int| a <= k < j ==> crate::json::is_digit(#[trigger] s@[k]),
            acc == crate::json::dec_value(s@.subrange(a as int, j as int)),
        decreases b - j,
    {
        let c = s.get_char(j);
        let cv = c as u32;
        if cv < 48 || cv > 57 {
            proof {
                assert(whole[j - a] == s@[j as int]);
                assert(!crate::json::is_digit(whole[j - a]));
            }
            return None;
        }
        let d: u64 = (cv - 48) as u64;
        proof {
            let pre = s@.subrange(a as int, j as int);
            let cur = s@.subrange(a as int, j + 1 as int);
            assert(cur =~= pre.push(s@[j as int]));
            crate::json::lemma_dec_value_push_ge(pre, s@[j as int]);
        }
        if acc > (u64::MAX - d) / 10 {
            proof {
                let pre = s@.subrange(a as int, j as int);
                assert(acc * 10 + crate::json::digit_val(s@[j as int]) > u64::MAX)
                    by (nonlinear_arith)
                    requires
                        acc > (u64::MAX - crate::json::digit_val(s@[j as int])) / 10,
                        crate::json::digit_val(s@[j as int]) <= 9,
                        acc == crate::json::dec_value(pre),
                ;
                crate::json::lemma_dec_value_prefix_mono(s@, a as int, j + 1 as int, b as int);
            }
            return None;
        }
        proof {
            let pre = s@.subrange(a as int, j as int);
            assert(acc * 10 + crate::json::digit_val(s@[j as int]) <= u64::MAX)
                by (nonlinear_arith)
                requires
                    acc <= (u64::MAX - crate::json::digit_val(s@[j as int])) / 10,
                    crate::json::digit_val(s@[j as int]) <= 9,
                    acc == crate::json::dec_value(pre),
            ;
        }
        acc = acc * 10 + d;
        j += 1;
    }
    proof {
        assert forall|k: int| 0 <= k < whole.len() implies crate::json::is_digit(
            #[trigger] whole[k],
        ) by {
            assert(whole[k] == s@[a + k]);
        }
        assert(s@.subrange(a as int, b as int) == whole);
    }
    Some(acc)
}

/// Splits a diagnostics location out of `file`, `file:line` or
/// `file:line:column` form.  A string with three or more colons carries no
/// location; a line or column part that is not a plain decimal number is
/// rejected.
pub fn location_from_string(string: &str) -> (r: Option<Location>)
    ensures
        ({
            let s = string@;
            let cps = colon_positions(s);
            &&& cps.len() == 0 ==> (r matches Some(l) && l matches Location::File(f) && f@ == s)
            &&& cps.len() == 1 ==> {
                let line = s.subrange(cps[0] + 1, s.len() as int);
                if spec_numeric_part(line) {
                    r matches Some(l) && l matches Location::Line(f, v) && f@ == s.subrange(
                        0,
                        cps[0],
                    ) && v == crate::json::dec_value(line)
                } else {
                    r is None
                }
            }
            &&& cps.len() == 2 ==> {
                let line = s.subrange(cps[0] + 1, cps[1]);
                let column = s.subrange(cps[1] + 1, s.len() as int);
                if spec_numeric_part(line) && spec_numeric_part(column) {
                    r matches Some(l) && l matches Location::LineColumn(f, v, c) && f@
                        == s.subrange(0, cps[0]) && v == crate::json::dec_value(line) && c
                        == crate::json::dec_value(column)
                } else {
                    r is None
                }
            }
            &&& cps.len() >= 3 ==> r == Some(Location::Unknown)
        }),
{
    let n = string.unicode_len();
    let mut cps: Vec<usize> = Vec::new();
    let mut i: usize = 0;
    while i < n
        invariant
            i <= n,
            n == string@.len(),
            cps@.map_values(|p: usize| p as int) == colon_positions_upto(string@, i as int),
        decreases n - i,
    {
        if string.get_char(i) == ':' {
            cps.push(i);
            proof {
                assert(cps@.map_values(|p: usize| p as int) =~= cps@.drop_last().map_values(
                    |p: usize| p as int,
                ).push(i as int));
            }
        }
        i += 1;
    }
    proof {
        lemma_colon_positions_valid(string@, n as int);
        lemma_colon_positions_sorted(string@, n as int);
    }
    if cps.len() == 0 {
        Some(Location::File(String::from_str(string)))
    } else if cps.len() == 1 {
        let c0 = cps[0];
        proof {
            assert(cps@.map_values(|p: usize| p as int)[0] == c0 as int);
            assert(colon_positions(string@)[0] == c0 as int);
        }
        match parse_number_part(string, c0 + 1, n) {
            Some(v) => Some(
                Location::Line(String::from_str(string.substring_char(0, c0)), v),
            ),
            None => None,
        }
    } else if cps.len() == 2 {
        let c0 = cps[0];
        let c1 = cps[1];
        proof {
            assert(cps@.map_values(|p: usize| p as int)[0] == c0 as int);
            assert(cps@.map_values(|p: usize| p as int)[1] == c1 as int);
            assert(colon_positions(string@)[0] == c0 as int);
            assert(colon_positions(string@)[1] == c1 as int);
        }
        let line = match parse_number_part(string, c0 + 1, c1) {
            Some(v) => v,
            None => {
                return None;
            },
        };
        match parse_number_part(string, c1 + 1, n) {
            Some(c) => Some(
                Location::LineColumn(String::from_str(string.substring_char(0, c0)), line, c),
            ),
            None => None,
        }
    } else {
        Some(Location::Unknown)
    }
}

} // verus!
