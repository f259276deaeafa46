//! Row-wise evaluation of the error polynomial of a fold.
//!
//! For one row of the trace and one compiled gate, the evaluator materializes
//! the row's selector, fixed, instance and advice values (with rotations),
//! walks the fold line `acc + X * (new - acc)` through the instance, advice
//! and challenge buffers, and evaluates every constraint at each sample point
//! `X`. A gate guarded by a simple selector that is off for the row is skipped
//! whole.

use vstd::prelude::*;

use halo2curves::bn256::Fr;

use crate::accumulator::{acc_shape, Accumulator};
use crate::expr::spec_eval_expr;
use crate::gate::Gate;
use crate::keygen::{gate_in_pk, gate_shape_wf, pk_wf, spec_seq_max, ProvingKey};
use crate::scalar::{fadd, fr_u64, fsub, scalar_add, scalar_from_u64, scalar_sub};

verus! {

/// The samples `e(0), e(1), ...` of one constraint's univariate error
/// polynomial on one row, or their running sum over rows.
pub struct ErrorEvaluations {
    /// The samples, indexed by the sample point.
    pub evals: Vec<Fr>,
}

/// A vector of `n` zero scalars.
pub fn zero_scalar_vec(n: usize) -> (r: Vec<Fr>)
    ensures
        r@.len() == n,
        forall|i: int| 0 <= i < n ==> r@[i] == fr_u64(0),
{
    let mut v: Vec<Fr> = Vec::new();
    let mut i: usize = 0;
    while i < n
        invariant
            i <= n,
            v@.len() == i,
            forall|k: int| 0 <= k < i ==> v@[k] == fr_u64(0),
        decreases n - i,
    {
        v.push(scalar_from_u64(0));
        i = i + 1;
    }
    v
}

impl ErrorEvaluations {
    /// A zero-initialized sample buffer of the given length.
    pub fn new(num_evals: usize) -> (r: Self)
        ensures
            r.evals@.len() == num_evals,
            forall|i: int| 0 <= i < num_evals ==> r.evals@[i] == fr_u64(0),
    {
        ErrorEvaluations { evals: zero_scalar_vec(num_evals) }
    }
}

/// The row index that a rotation reaches: `(row + rot) mod n`, with the
/// nonnegative remainder.
pub open spec fn rot_index(row: int, rot: int, n: int) -> int {
    (row + rot) % n
}

/// Apply a rotation to a row index, wrapping around the domain.
pub fn rotation_index(row: usize, rot: i32, n: usize) -> (r: usize)
    requires
        1 <= n,
        n <= i32::MAX as usize,
        row < n,
    ensures
        r < n,
        r as int == rot_index(row as int, rot as int, n as int),
{
    let ghost total = row as int + rot as int;
    let ghost nn = n as int;
    if rot >= 0 {
        let k: usize = (rot as usize) % n;
        proof {
            vstd::arithmetic::div_mod::lemma_fundamental_div_mod(rot as int, nn);
            let q0 = rot as int / nn;
            assert(k as int == rot as int % nn);
            if row + k < n {
                assert(total == q0 * nn + (row as int + k as int)) by (nonlinear_arith)
                    requires
                        rot as int == nn * q0 + k as int,
                        total == row as int + rot as int,
                ;
                vstd::arithmetic::div_mod::lemma_fundamental_div_mod_converse_mod(
                    total,
                    nn,
                    q0,
                    row as int + k as int,
                );
            } else {
                assert(total == (q0 + 1) * nn + (row as int + k as int - nn)) by (nonlinear_arith)
                    requires
                        rot as int == nn * q0 + k as int,
                        total == row as int + rot as int,
                ;
                assert(0 <= rot as int % nn);
                vstd::arithmetic::div_mod::lemma_fundamental_div_mod_converse_mod(
                    total,
                    nn,
                    q0 + 1,
                    row as int + k as int - nn,
                );
            }
        }
        if k == 0 {
            row
        } else if row >= n - k {
            row - (n - k)
        } else {
            row + k
        }
    } else {
        let m: i64 = -(rot as i64);
        let k: usize = ((m as usize)) % n;
        proof {
            vstd::arithmetic::div_mod::lemma_fundamental_div_mod(m as int, nn);
            let q0 = m as int / nn;
            assert(k as int == m as int % nn);
            if k as int <= row {
                assert(total == (-q0) * nn + (row as int - k as int)) by (nonlinear_arith)
                    requires
                        m as int == nn * q0 + k as int,
                        total == row as int - m as int,
                ;
                vstd::arithmetic::div_mod::lemma_fundamental_div_mod_converse_mod(
                    total,
                    nn,
                    -q0,
                    row as int - k as int,
                );
            } else {
                assert(total == (-q0 - 1) * nn + (row as int - k as int + nn)) by (nonlinear_arith)
                    requires
                        m as int == nn * q0 + k as int,
                        total == row as int - m as int,
                ;
                vstd::arithmetic::div_mod::lemma_fundamental_div_mod_converse_mod(
                    total,
                    nn,
                    -q0 - 1,
                    row as int - k as int + nn,
                );
            }
        }
        if k == 0 {
            row
        } else if row >= k {
            row - k
        } else {
            row + (n - k)
        }
    }
}

/// The value of one buffer entry after `x` steps along the fold line: start at
/// `a` and add the difference `d` once per step.
pub open spec fn line_point(a: Fr, d: Fr, x: nat) -> Fr
    decreases x,
{
    if x == 0 {
        a
    } else {
        fadd(line_point(a, d, (x - 1) as nat), d)
    }
}

/// A whole buffer walked `x` steps along the fold line between the endpoint
/// buffers `b0` and `b1`.
pub open spec fn line_buf(b0: Seq<Fr>, b1: Seq<Fr>, x: nat) -> Seq<Fr> {
    Seq::new(b0.len(), |i: int| line_point(b0[i], fsub(b1[i], b0[i]), x))
}

/// The row's selector values, as 0/1 scalars, parallel to a gate's selector
/// table.
pub open spec fn spec_sel_buf(g: Gate, pk: ProvingKey, row: int) -> Seq<Fr> {
    Seq::new(
        g.queried_selectors@.len(),
        |i: int|
            if pk.selectors@[g.queried_selectors@[i].index as int]@[row] {
                fr_u64(1)
            } else {
                fr_u64(0)
            },
    )
}

/// The row's fixed values at the queried rotations, parallel to a gate's
/// fixed table.
pub open spec fn spec_fixed_buf(g: Gate, pk: ProvingKey, row: int) -> Seq<Fr> {
    Seq::new(
        g.queried_fixed@.len(),
        |i: int|
            {
                let q = g.queried_fixed@[i];
                pk.fixed@[q.column_index as int]@[rot_index(
                    row,
                    q.rotation as int,
                    pk.num_rows as int,
                )]
            },
    )
}

/// The row's instance values, parallel to a gate's instance table.
pub open spec fn spec_instance_buf(g: Gate, polys: Seq<Vec<Fr>>, row: int, n: int) -> Seq<Fr> {
    Seq::new(
        g.queried_instance@.len(),
        |i: int|
            {
                let q = g.queried_instance@[i];
                polys[q.column_index as int]@[rot_index(row, q.rotation as int, n)]
            },
    )
}

/// The row's advice values, parallel to a gate's advice table.
pub open spec fn spec_advice_buf(g: Gate, polys: Seq<Vec<Fr>>, row: int, n: int) -> Seq<Fr> {
    Seq::new(
        g.queried_advice@.len(),
        |i: int|
            {
                let q = g.queried_advice@[i];
                polys[q.column_index as int]@[rot_index(row, q.rotation as int, n)]
            },
    )
}

/// The queried challenge powers, parallel to a gate's challenge table.
pub open spec fn spec_challenge_buf(g: Gate, ch: Seq<Vec<Fr>>) -> Seq<Fr> {
    Seq::new(
        g.queried_challenges@.len(),
        |q: int|
            {
                let c = g.queried_challenges@[q];
                ch[c.index as int]@[c.power - 1]
            },
    )
}

/// Every queried challenge exists in the power table `ch`.
pub open spec fn challenges_compat(g: Gate, ch: Seq<Vec<Fr>>) -> bool {
    forall|q: int|
        0 <= q < g.queried_challenges@.len() ==> {
            let c = #[trigger] g.queried_challenges@[q];
            &&& c.index < ch.len()
            &&& 1 <= c.power <= ch[c.index as int]@.len()
        }
}

/// The j-th constraint of `g` evaluated against one accumulator's row data:
/// what the error polynomial samples reproduce at the line's endpoints.
pub open spec fn spec_gate_row_eval(
    g: Gate,
    j: int,
    pk: ProvingKey,
    acc: Accumulator,
    row: int,
) -> Fr {
    spec_eval_expr(
        g.polys@[j],
        spec_sel_buf(g, pk, row),
        spec_fixed_buf(g, pk, row),
        spec_advice_buf(g, acc.advice_polys@, row, pk.num_rows as int),
        spec_instance_buf(g, acc.instance_polys@, row, pk.num_rows as int),
        spec_challenge_buf(g, acc.challenges@),
    )
}

/// The j-th constraint of `g` evaluated at sample point `x` of the fold line
/// between `acc` and `new`: selectors and fixed values are constant along the
/// line, while advice, instance and challenge buffers move by their
/// differences.
pub open spec fn spec_gate_sample(
    g: Gate,
    j: int,
    pk: ProvingKey,
    acc: Accumulator,
    new: Accumulator,
    row: int,
    x: nat,
) -> Fr {
    spec_eval_expr(
        g.polys@[j],
        spec_sel_buf(g, pk, row),
        spec_fixed_buf(g, pk, row),
        line_buf(
            spec_advice_buf(g, acc.advice_polys@, row, pk.num_rows as int),
            spec_advice_buf(g, new.advice_polys@, row, pk.num_rows as int),
            x,
        ),
        line_buf(
            spec_instance_buf(g, acc.instance_polys@, row, pk.num_rows as int),
            spec_instance_buf(g, new.instance_polys@, row, pk.num_rows as int),
            x,
        ),
        line_buf(spec_challenge_buf(g, acc.challenges@), spec_challenge_buf(g, new.challenges@), x),
    )
}

/// At `X = 0` the fold line sits at the first accumulator, so sample 0 of
/// every constraint is exactly the constraint evaluated against `acc`.
pub proof fn lemma_sample_zero(
    g: Gate,
    j: int,
    pk: ProvingKey,
    acc: Accumulator,
    new: Accumulator,
    row: int,
)
    ensures
        spec_gate_sample(g, j, pk, acc, new, row, 0) == spec_gate_row_eval(g, j, pk, acc, row),
{
    let n = pk.num_rows as int;
    assert(line_buf(
        spec_advice_buf(g, acc.advice_polys@, row, n),
        spec_advice_buf(g, new.advice_polys@, row, n),
        0,
    ) =~= spec_advice_buf(g, acc.advice_polys@, row, n));
    assert(line_buf(
        spec_instance_buf(g, acc.instance_polys@, row, n),
        spec_instance_buf(g, new.instance_polys@, row, n),
        0,
    ) =~= spec_instance_buf(g, acc.instance_polys@, row, n));
    assert(line_buf(spec_challenge_buf(g, acc.challenges@), spec_challenge_buf(g, new.challenges@), 0)
        =~= spec_challenge_buf(g, acc.challenges@));
}

/// Compute the table `T[X][q]` of challenge values along the fold line:
/// `T[0]` is the first endpoint, and each further row adds the per-entry
/// difference once. Row 1, when present, is exactly the second endpoint.
pub fn challenge_line_table(
    challenges_acc: &Vec<Fr>,
    challenges_new: &Vec<Fr>,
    num_evals: usize,
) -> (r: Vec<Vec<Fr>>)
    requires
        challenges_acc@.len() == challenges_new@.len(),
    ensures
        r@.len() == num_evals,
        forall|x: int|
            0 <= x < num_evals ==> (#[trigger] r@[x])@ == line_buf(
                challenges_acc@,
                challenges_new@,
                x as nat,
            ),
        num_evals > 1 ==> r@[1]@ == challenges_new@,
{
    let width = challenges_acc.len();
    // Per-entry differences, remembering that adding one back to the first
    // endpoint lands on the second.
    let mut diff: Vec<Fr> = Vec::new();
    let mut q: usize = 0;
    while q < width
        invariant
            q <= width,
            width == challenges_acc@.len(),
            width == challenges_new@.len(),
            diff@.len() == q,
            forall|i: int|
                0 <= i < q ==> #[trigger] diff@[i] == fsub(challenges_new@[i], challenges_acc@[i])
                    && fadd(challenges_acc@[i], diff@[i]) == challenges_new@[i],
        decreases width - q,
    {
        let d = scalar_sub(challenges_new[q], challenges_acc[q]);
        diff.push(d);
        q = q + 1;
    }

    let mut table: Vec<Vec<Fr>> = Vec::new();
    if num_evals == 0 {
        return table;
    }
    // Row 0 is the first endpoint.
    let mut row0: Vec<Fr> = Vec::new();
    let mut q: usize = 0;
    while q < width
        invariant
            q <= width,
            width == challenges_acc@.len(),
            row0@.len() == q,
            forall|i: int| 0 <= i < q ==> row0@[i] == challenges_acc@[i],
        decreases width - q,
    {
        row0.push(challenges_acc[q]);
        q = q + 1;
    }
    proof {
        assert(row0@ =~= line_buf(challenges_acc@, challenges_new@, 0));
    }
    table.push(row0);

    let mut x: usize = 1;
    while x < num_evals
        invariant
            1 <= x <= num_evals,
            width == challenges_acc@.len(),
            width == challenges_new@.len(),
            diff@.len() == width,
            forall|i: int|
                0 <= i < width ==> #[trigger] diff@[i] == fsub(
                    challenges_new@[i],
                    challenges_acc@[i],
                ) && fadd(challenges_acc@[i], diff@[i]) == challenges_new@[i],
            table@.len() == x,
            forall|y: int|
                0 <= y < x ==> (#[trigger] table@[y])@ == line_buf(
                    challenges_acc@,
                    challenges_new@,
                    y as nat,
                ),
            x > 1 ==> table@[1]@ == challenges_new@,
        decreases num_evals - x,
    {
        let prev = &table[x - 1];
        let mut next: Vec<Fr> = Vec::new();
        let mut q: usize = 0;
        while q < width
            invariant
                1 <= x,
                q <= width,
                width == challenges_acc@.len(),
                width == challenges_new@.len(),
                diff@.len() == width,
                forall|i: int|
                    0 <= i < width ==> #[trigger] diff@[i] == fsub(
                        challenges_new@[i],
                        challenges_acc@[i],
                    ) && fadd(challenges_acc@[i], diff@[i]) == challenges_new@[i],
                prev@ == line_buf(challenges_acc@, challenges_new@, (x - 1) as nat),
                prev@.len() == width,
                next@.len() == q,
                forall|i: int|
                    0 <= i < q ==> #[trigger] next@[i] == line_point(
                        challenges_acc@[i],
                        fsub(challenges_new@[i], challenges_acc@[i]),
                        x as nat,
                    ),
                x == 1 ==> forall|i: int| 0 <= i < q ==> next@[i] == challenges_new@[i],
            decreases width - q,
        {
            let v = scalar_add(prev[q], diff[q]);
            proof {
                let a = challenges_acc@[q as int];
                let d = fsub(challenges_new@[q as int], challenges_acc@[q as int]);
                assert(diff@[q as int] == d);
                assert(prev@[q as int] == line_point(a, d, (x - 1) as nat));
                assert(v == fadd(line_point(a, d, (x - 1) as nat), d));
                assert(v == line_point(a, d, x as nat));
            }
            next.push(v);
            q = q + 1;
        }
        proof {
            assert(next@ =~= line_buf(challenges_acc@, challenges_new@, x as nat));
            if x == 1 {
                assert(next@ =~= challenges_new@);
            }
        }
        table.push(next);
        x = x + 1;
    }
    table
}

/// An owned copy of a scalar buffer.
pub fn copy_scalars(v: &Vec<Fr>) -> (r: Vec<Fr>)
    ensures
        r@ == v@,
{
    let mut out: Vec<Fr> = Vec::new();
    let mut i: usize = 0;
    while i < v.len()
        invariant
            i <= v@.len(),
            out@.len() == i,
            forall|k: int| 0 <= k < i ==> out@[k] == v@[k],
        decreases v@.len() - i,
    {
        out.push(v[i]);
        i = i + 1;
    }
    proof {
        assert(out@ =~= v@);
    }
    out
}

/// The row's value of a gate's simple selector, if one exists.
pub open spec fn spec_selector_value(g: Gate, pk: ProvingKey, row: int) -> Option<bool> {
    match g.simple_selector {
        Some(s) => Some(pk.selectors@[s.index as int]@[row]),
        None => None,
    }
}

/// Whether a gate contributes to the row: it has no simple selector, or the
/// selector is on.
pub open spec fn spec_active(g: Gate, pk: ProvingKey, row: int) -> bool {
    match g.simple_selector {
        Some(s) => pk.selectors@[s.index as int]@[row],
        None => true,
    }
}

/// The difference buffer `d` really is `b1 - b0`, entry by entry, and adding
/// it back to `b0` lands on `b1`.
pub open spec fn diff_links(b0: Seq<Fr>, b1: Seq<Fr>, d: Seq<Fr>) -> bool {
    &&& d.len() == b0.len()
    &&& b1.len() == b0.len()
    &&& forall|i: int|
        0 <= i < d.len() ==> #[trigger] d[i] == fsub(b1[i], b0[i]) && fadd(b0[i], d[i]) == b1[i]
}

/// Per-row scratch for evaluating one gate along the fold line. Cloning the
/// buffers per row chunk lets chunks evaluate independently; a compiled gate
/// is shared read-only.
pub struct GateEvaluationCache<'a> {
    /// The compiled gate under evaluation.
    pub gate: &'a Gate,
    /// Samples needed per constraint: `degrees[j] + 1 + num_extra`.
    pub num_evals: Vec<usize>,
    /// The largest entry of `num_evals`.
    pub max_num_evals: usize,
    /// Extra samples requested beyond `degree + 1`, for later multiplication
    /// by a line-dependent coefficient such as `ys`.
    pub num_extra: usize,
    /// Challenge values along the fold line, indexed `[X][q]`.
    pub challenge_evals: Vec<Vec<Fr>>,
    /// The row's value of the simple selector on the populated row, when the
    /// evaluated gate has one.
    pub simple_selector: Option<bool>,
    /// Selector values of the row, as 0/1 scalars.
    pub selectors: Vec<Fr>,
    /// Fixed values of the row at the queried rotations.
    pub fixed: Vec<Fr>,
    /// Instance values: the first endpoint, then walked along the line.
    pub instance_acc: Vec<Fr>,
    /// Instance differences `new - acc`.
    pub instance_diff: Vec<Fr>,
    /// Advice values: the first endpoint, then walked along the line.
    pub advice_acc: Vec<Fr>,
    /// Advice differences `new - acc`.
    pub advice_diff: Vec<Fr>,
    /// Output: per constraint `j`, the samples of `e_j(X)`.
    pub gate_eval: Vec<ErrorEvaluations>,
}

impl<'a> GateEvaluationCache<'a> {
    /// Buffer sizes agree with the evaluated gate's query tables, and the
    /// sample counts with its degrees.
    pub open spec fn wf(self) -> bool {
        &&& gate_shape_wf(*self.gate)
        &&& self.num_evals@.len() == self.gate.polys@.len()
        &&& forall|j: int|
            0 <= j < self.num_evals@.len() ==> #[trigger] self.num_evals@[j] == self.gate.degrees@[j]
                + 1 + self.num_extra
        &&& self.max_num_evals == spec_seq_max(self.gate.degrees@) + 1 + self.num_extra
        &&& forall|j: int|
            0 <= j < self.num_evals@.len() ==> #[trigger] self.num_evals@[j]
                <= self.max_num_evals
        &&& self.challenge_evals@.len() == self.max_num_evals
        &&& forall|x: int|
            0 <= x < self.challenge_evals@.len() ==> (#[trigger] self.challenge_evals@[x])@.len()
                == self.gate.queried_challenges@.len()
        &&& self.selectors@.len() == self.gate.queried_selectors@.len()
        &&& self.fixed@.len() == self.gate.queried_fixed@.len()
        &&& self.instance_acc@.len() == self.gate.queried_instance@.len()
        &&& self.instance_diff@.len() == self.gate.queried_instance@.len()
        &&& self.advice_acc@.len() == self.gate.queried_advice@.len()
        &&& self.advice_diff@.len() == self.gate.queried_advice@.len()
        &&& self.gate_eval@.len() == self.gate.polys@.len()
        &&& forall|j: int|
            0 <= j < self.gate_eval@.len() ==> (#[trigger] self.gate_eval@[j]).evals@.len()
                == self.num_evals@[j]
    }

    /// The challenge line table was built from these two accumulators'
    /// challenge powers.
    pub open spec fn challenges_from(self, acc_ch: Seq<Vec<Fr>>, new_ch: Seq<Vec<Fr>>) -> bool {
        &&& forall|x: int|
            0 <= x < self.challenge_evals@.len() ==> (#[trigger] self.challenge_evals@[x])@
                == line_buf(
                spec_challenge_buf(*self.gate, acc_ch),
                spec_challenge_buf(*self.gate, new_ch),
                x as nat,
            )
        &&& self.max_num_evals > 1 ==> self.challenge_evals@[1]@ == spec_challenge_buf(
            *self.gate,
            new_ch,
        )
    }

    /// Initialize a cache for evaluating `gate` between an existing
    /// accumulator's challenges and a new one's. `num_extra_evaluations` asks
    /// for samples beyond `degree + 1`, so that the results can later be
    /// multiplied by a line-dependent coefficient.
    pub fn new(
        gate: &'a Gate,
        acc_challenges: &Vec<Vec<Fr>>,
        new_challenges: &Vec<Vec<Fr>>,
        num_extra_evaluations: usize,
    ) -> (r: GateEvaluationCache<'a>)
        requires
            gate_shape_wf(*gate),
            challenges_compat(*gate, acc_challenges@),
            challenges_compat(*gate, new_challenges@),
            forall|j: int|
                0 <= j < gate.degrees@.len() ==> (#[trigger] gate.degrees@[j]) + 1
                    + num_extra_evaluations <= usize::MAX,
            spec_seq_max(gate.degrees@) + 1 + num_extra_evaluations <= usize::MAX,
        ensures
            r.wf(),
            r.gate == gate,
            r.num_extra == num_extra_evaluations,
            r.challenges_from(acc_challenges@, new_challenges@),
            r.simple_selector is None,
            forall|j: int, x: int|
                0 <= j < r.gate_eval@.len() && 0 <= x < r.gate_eval@[j].evals@.len()
                    ==> r.gate_eval@[j].evals@[x] == fr_u64(0),
    {
        let n_polys = gate.polys.len();
        let mut num_evals: Vec<usize> = Vec::new();
        let mut j: usize = 0;
        while j < n_polys
            invariant
                j <= n_polys,
                n_polys == gate.polys@.len(),
                gate.degrees@.len() == n_polys,
                forall|k: int|
                    0 <= k < gate.degrees@.len() ==> (#[trigger] gate.degrees@[k]) + 1
                        + num_extra_evaluations <= usize::MAX,
                num_evals@.len() == j,
                forall|k: int|
                    0 <= k < j ==> #[trigger] num_evals@[k] == gate.degrees@[k] + 1
                        + num_extra_evaluations,
            decreases n_polys - j,
        {
            num_evals.push(gate.degrees[j] + 1 + num_extra_evaluations);
            j = j + 1;
        }

        // The largest degree over this gate's constraints.
        let mut max_degree: usize = 0;
        let mut j: usize = 0;
        while j < n_polys
            invariant
                j <= n_polys,
                n_polys == gate.polys@.len(),
                gate.degrees@.len() == n_polys,
                max_degree as nat == spec_seq_max(gate.degrees@.subrange(0, j as int)),
                spec_seq_max(gate.degrees@) + 1 + num_extra_evaluations <= usize::MAX,
            decreases n_polys - j,
        {
            proof {
                assert(gate.degrees@.subrange(0, j + 1).drop_last() =~= gate.degrees@.subrange(
                    0,
                    j as int,
                ));
                assert(gate.degrees@.subrange(0, j + 1).last() == gate.degrees@[j as int]);
                crate::keygen::lemma_seq_max_subrange(gate.degrees@, j + 1);
            }
            if gate.degrees[j] > max_degree {
                max_degree = gate.degrees[j];
            }
            j = j + 1;
        }
        proof {
            assert(gate.degrees@.subrange(0, gate.degrees@.len() as int) =~= gate.degrees@);
        }
        let max_num_evals = max_degree + 1 + num_extra_evaluations;

        // Queried challenge powers at the two endpoints.
        let n_ch = gate.queried_challenges.len();
        let mut acc_q: Vec<Fr> = Vec::new();
        let mut new_q: Vec<Fr> = Vec::new();
        let mut q: usize = 0;
        while q < n_ch
            invariant
                q <= n_ch,
                n_ch == gate.queried_challenges@.len(),
                challenges_compat(*gate, acc_challenges@),
                challenges_compat(*gate, new_challenges@),
                acc_q@.len() == q,
                new_q@.len() == q,
                forall|i: int|
                    0 <= i < q ==> #[trigger] acc_q@[i] == spec_challenge_buf(
                        *gate,
                        acc_challenges@,
                    )[i],
                forall|i: int|
                    0 <= i < q ==> #[trigger] new_q@[i] == spec_challenge_buf(
                        *gate,
                        new_challenges@,
                    )[i],
            decreases n_ch - q,
        {
            let c = gate.queried_challenges[q];
            acc_q.push(acc_challenges[c.index][c.power - 1]);
            new_q.push(new_challenges[c.index][c.power - 1]);
            q = q + 1;
        }
        proof {
            assert(acc_q@ =~= spec_challenge_buf(*gate, acc_challenges@));
            assert(new_q@ =~= spec_challenge_buf(*gate, new_challenges@));
            assert forall|k: int| 0 <= k < gate.degrees@.len() implies #[trigger] gate.degrees@[k]
                + 1 + num_extra_evaluations <= max_degree + 1 + num_extra_evaluations by {
                crate::keygen::lemma_seq_max_ge(gate.degrees@, k);
            }
        }
        let challenge_evals = challenge_line_table(&acc_q, &new_q, max_num_evals);

        let mut gate_eval: Vec<ErrorEvaluations> = Vec::new();
        let mut j: usize = 0;
        while j < n_polys
            invariant
                j <= n_polys,
                num_evals@.len() == n_polys,
                gate_eval@.len() == j,
                forall|k: int|
                    0 <= k < j ==> (#[trigger] gate_eval@[k]).evals@.len() == num_evals@[k],
                forall|k: int, x: int|
                    0 <= k < j && 0 <= x < gate_eval@[k].evals@.len() ==> gate_eval@[k].evals@[x]
                        == fr_u64(0),
            decreases n_polys - j,
        {
            gate_eval.push(ErrorEvaluations::new(num_evals[j]));
            j = j + 1;
        }

        GateEvaluationCache {
            gate,
            num_evals,
            max_num_evals,
            num_extra: num_extra_evaluations,
            challenge_evals,
            simple_selector: None,
            selectors: zero_scalar_vec(gate.queried_selectors.len()),
            fixed: zero_scalar_vec(gate.queried_fixed.len()),
            instance_acc: zero_scalar_vec(gate.queried_instance.len()),
            instance_diff: zero_scalar_vec(gate.queried_instance.len()),
            advice_acc: zero_scalar_vec(gate.queried_advice.len()),
            advice_diff: zero_scalar_vec(gate.queried_advice.len()),
            gate_eval,
        }
    }

    /// A fresh, zero-initialized set of sample buffers, sized like
    /// `gate_eval`: the caller's accumulator for summing over rows.
    pub fn empty_error_polynomials(&self) -> (r: Vec<ErrorEvaluations>)
        requires
            self.wf(),
        ensures
            r@.len() == self.gate.polys@.len(),
            forall|j: int|
                0 <= j < r@.len() ==> (#[trigger] r@[j]).evals@.len() == self.num_evals@[j],
            forall|j: int, x: int|
                0 <= j < r@.len() && 0 <= x < r@[j].evals@.len() ==> r@[j].evals@[x] == fr_u64(0),
    {
        let mut out: Vec<ErrorEvaluations> = Vec::new();
        let mut j: usize = 0;
        let n = self.num_evals.len();
        while j < n
            invariant
                j <= n,
                n == self.num_evals@.len(),
                out@.len() == j,
                forall|k: int|
                    0 <= k < j ==> (#[trigger] out@[k]).evals@.len() == self.num_evals@[k],
                forall|k: int, x: int|
                    0 <= k < j && 0 <= x < out@[k].evals@.len() ==> out@[k].evals@[x] == fr_u64(0),
            decreases n - j,
        {
            out.push(ErrorEvaluations::new(self.num_evals[j]));
            j = j + 1;
        }
        out
    }

    /// Fill the row buffers from the key and the two accumulators, applying
    /// the queried rotations. When a simple selector guards this gate and is
    /// off for the row, only `simple_selector` is recorded and every other
    /// buffer is left alone.
    #[verifier::loop_isolation(false)]
    fn populate(
        &mut self,
        row: usize,
        num_rows_i: i32,
        pk: &ProvingKey,
        acc: &Accumulator,
        new: &Accumulator,
    )
        requires
            old(self).wf(),
            pk_wf(*pk),
            gate_in_pk(*old(self).gate, *pk),
            acc_shape(*acc, *pk),
            acc_shape(*new, *pk),
            row < pk.num_rows,
        ensures
            final(self).wf(),
            final(self).gate == old(self).gate,
            final(self).num_evals == old(self).num_evals,
            final(self).max_num_evals == old(self).max_num_evals,
            final(self).num_extra == old(self).num_extra,
            final(self).challenge_evals == old(self).challenge_evals,
            final(self).gate_eval == old(self).gate_eval,
            final(self).simple_selector == spec_selector_value(*old(self).gate, *pk, row as int),
            !spec_active(*old(self).gate, *pk, row as int) ==> {
                &&& final(self).selectors == old(self).selectors
                &&& final(self).fixed == old(self).fixed
                &&& final(self).instance_acc == old(self).instance_acc
                &&& final(self).instance_diff == old(self).instance_diff
                &&& final(self).advice_acc == old(self).advice_acc
                &&& final(self).advice_diff == old(self).advice_diff
            },
            spec_active(*old(self).gate, *pk, row as int) ==> {
                let g = *old(self).gate;
                let n = pk.num_rows as int;
                &&& final(self).selectors@ == spec_sel_buf(g, *pk, row as int)
                &&& final(self).fixed@ == spec_fixed_buf(g, *pk, row as int)
                &&& final(self).instance_acc@ == spec_instance_buf(
                    g,
                    acc.instance_polys@,
                    row as int,
                    n,
                )
                &&& diff_links(
                    spec_instance_buf(g, acc.instance_polys@, row as int, n),
                    spec_instance_buf(g, new.instance_polys@, row as int, n),
                    final(self).instance_diff@,
                )
                &&& final(self).advice_acc@ == spec_advice_buf(g, acc.advice_polys@, row as int, n)
                &&& diff_links(
                    spec_advice_buf(g, acc.advice_polys@, row as int, n),
                    spec_advice_buf(g, new.advice_polys@, row as int, n),
                    final(self).advice_diff@,
                )
            },
    {
        let gate = self.gate;
        let n = pk.num_rows;
        match &gate.simple_selector {
            Some(s) => {
                let value = pk.selectors[s.index][row];
                self.simple_selector = Some(value);
                if !value {
                    return ;
                }
            },
            None => {
                self.simple_selector = None;
            },
        }

        // Selectors, read as 0/1 scalars.
        let n_sel = gate.queried_selectors.len();
        let mut sels: Vec<Fr> = Vec::new();
        let mut i: usize = 0;
        while i < n_sel
            invariant
                i <= n_sel,
                sels@.len() == i,
                forall|k: int| 0 <= k < i ==> sels@[k] == spec_sel_buf(*gate, *pk, row as int)[k],
            decreases n_sel - i,
        {
            let s = gate.queried_selectors[i];
            let v = if pk.selectors[s.index][row] {
                scalar_from_u64(1)
            } else {
                scalar_from_u64(0)
            };
            sels.push(v);
            i = i + 1;
        }
        proof {
            assert(sels@ =~= spec_sel_buf(*gate, *pk, row as int));
        }

        // Fixed columns at the queried rotations.
        let n_fix = gate.queried_fixed.len();
        let mut fix: Vec<Fr> = Vec::new();
        let mut i: usize = 0;
        while i < n_fix
            invariant
                i <= n_fix,
                fix@.len() == i,
                forall|k: int| 0 <= k < i ==> fix@[k] == spec_fixed_buf(*gate, *pk, row as int)[k],
            decreases n_fix - i,
        {
            let q = gate.queried_fixed[i];
            let ridx = rotation_index(row, q.rotation, n);
            fix.push(pk.fixed[q.column_index][ridx]);
            i = i + 1;
        }
        proof {
            assert(fix@ =~= spec_fixed_buf(*gate, *pk, row as int));
        }

        // Instance values and their differences along the fold line.
        let ghost inst0 = spec_instance_buf(*gate, acc.instance_polys@, row as int, n as int);
        let ghost inst1 = spec_instance_buf(*gate, new.instance_polys@, row as int, n as int);
        let n_inst = gate.queried_instance.len();
        let mut ia: Vec<Fr> = Vec::new();
        let mut id: Vec<Fr> = Vec::new();
        let mut i: usize = 0;
        while i < n_inst
            invariant
                i <= n_inst,
                ia@.len() == i,
                id@.len() == i,
                forall|k: int| 0 <= k < i ==> ia@[k] == inst0[k],
                forall|k: int|
                    0 <= k < i ==> #[trigger] id@[k] == fsub(inst1[k], inst0[k]) && fadd(
                        inst0[k],
                        id@[k],
                    ) == inst1[k],
            decreases n_inst - i,
        {
            let q = gate.queried_instance[i];
            let ridx = rotation_index(row, q.rotation, n);
            let v0 = acc.instance_polys[q.column_index][ridx];
            let v1 = new.instance_polys[q.column_index][ridx];
            ia.push(v0);
            id.push(scalar_sub(v1, v0));
            i = i + 1;
        }
        proof {
            assert(ia@ =~= inst0);
        }

        // Advice values and their differences along the fold line.
        let ghost adv0 = spec_advice_buf(*gate, acc.advice_polys@, row as int, n as int);
        let ghost adv1 = spec_advice_buf(*gate, new.advice_polys@, row as int, n as int);
        let n_adv = gate.queried_advice.len();
        let mut aa: Vec<Fr> = Vec::new();
        let mut ad: Vec<Fr> = Vec::new();
        let mut i: usize = 0;
        while i < n_adv
            invariant
                i <= n_adv,
                aa@.len() == i,
                ad@.len() == i,
                forall|k: int| 0 <= k < i ==> aa@[k] == adv0[k],
                forall|k: int|
                    0 <= k < i ==> #[trigger] ad@[k] == fsub(adv1[k], adv0[k]) && fadd(
                        adv0[k],
                        ad@[k],
                    ) == adv1[k],
            decreases n_adv - i,
        {
            let q = gate.queried_advice[i];
            let ridx = rotation_index(row, q.rotation, n);
            let v0 = acc.advice_polys[q.column_index][ridx];
            let v1 = new.advice_polys[q.column_index][ridx];
            aa.push(v0);
            ad.push(scalar_sub(v1, v0));
            i = i + 1;
        }
        proof {
            assert(aa@ =~= adv0);
        }

        self.selectors = sels;
        self.fixed = fix;
        self.instance_acc = ia;
        self.instance_diff = id;
        self.advice_acc = aa;
        self.advice_diff = ad;
    }

    /// Evaluate each of a gate's constraints at every required sample point of
    /// the fold line between `acc` and `new`, for one row.
    ///
    /// Returns `false`, leaving the output samples untouched, exactly when
    /// this gate's simple selector is off for the row. Otherwise `gate_eval[j]`
    /// holds, for each constraint `j`, its samples at `X = 0 .. degrees[j] + 1
    /// + num_extra`; sample 0 equals the constraint evaluated against `acc`,
    /// and sample 1 against `new`.
    #[verifier::loop_isolation(false)]
    pub fn evaluate(
        &mut self,
        row: usize,
        num_rows_i: i32,
        pk: &ProvingKey,
        acc: &Accumulator,
        new: &Accumulator,
    ) -> (r: bool)
        requires
            old(self).wf(),
            pk_wf(*pk),
            gate_in_pk(*old(self).gate, *pk),
            acc_shape(*acc, *pk),
            acc_shape(*new, *pk),
            old(self).challenges_from(acc.challenges@, new.challenges@),
            row < pk.num_rows,
        ensures
            final(self).wf(),
            final(self).gate == old(self).gate,
            final(self).num_evals == old(self).num_evals,
            final(self).max_num_evals == old(self).max_num_evals,
            final(self).num_extra == old(self).num_extra,
            final(self).challenge_evals == old(self).challenge_evals,
            final(self).challenges_from(acc.challenges@, new.challenges@),
            r == spec_active(*old(self).gate, *pk, row as int),
            !r ==> {
                &&& final(self).gate_eval == old(self).gate_eval
                &&& final(self).selectors == old(self).selectors
                &&& final(self).fixed == old(self).fixed
                &&& final(self).instance_acc == old(self).instance_acc
                &&& final(self).instance_diff == old(self).instance_diff
                &&& final(self).advice_acc == old(self).advice_acc
                &&& final(self).advice_diff == old(self).advice_diff
            },
            r ==> forall|j: int, x: int|
                0 <= j < final(self).gate_eval@.len() && 0 <= x
                    < final(self).gate_eval@[j].evals@.len()
                    ==> final(self).gate_eval@[j].evals@[x] == spec_gate_sample(
                    *old(self).gate,
                    j,
                    *pk,
                    *acc,
                    *new,
                    row as int,
                    x as nat,
                ),
            r ==> forall|j: int|
                0 <= j < final(self).gate_eval@.len()
                    ==> (#[trigger] final(self).gate_eval@[j]).evals@[0] == spec_gate_row_eval(
                    *old(self).gate,
                    j,
                    *pk,
                    *acc,
                    row as int,
                ),
            r ==> forall|j: int|
                (0 <= j < final(self).gate_eval@.len() && (#[trigger] final(self).gate_eval@[j]).evals@.len()
                    >= 2) ==> final(self).gate_eval@[j].evals@[1] == spec_gate_row_eval(
                    *old(self).gate,
                    j,
                    *pk,
                    *new,
                    row as int,
                ),
    {
        self.populate(row, num_rows_i, pk, acc, new);
        let skip = match &self.simple_selector {
            Some(b) => !*b,
            None => false,
        };
        if skip {
            return false;
        }

        let gate = self.gate;
        let ghost g = *gate;
        let ghost n = pk.num_rows as int;
        let ghost inst0 = spec_instance_buf(g, acc.instance_polys@, row as int, n);
        let ghost inst1 = spec_instance_buf(g, new.instance_polys@, row as int, n);
        let ghost adv0 = spec_advice_buf(g, acc.advice_polys@, row as int, n);
        let ghost adv1 = spec_advice_buf(g, new.advice_polys@, row as int, n);
        let ghost ch0 = spec_challenge_buf(g, acc.challenges@);
        let ghost ch1 = spec_challenge_buf(g, new.challenges@);

        let mut inst_cur = copy_scalars(&self.instance_acc);
        let mut adv_cur = copy_scalars(&self.advice_acc);
        let mut out = self.empty_error_polynomials();
        let max_num_evals = self.max_num_evals;
        let n_polys = gate.polys.len();

        proof {
            assert(inst_cur@ =~= line_buf(inst0, inst1, 0));
            assert(adv_cur@ =~= line_buf(adv0, adv1, 0));
        }

        let mut x: usize = 0;
        while x < max_num_evals
            invariant
                x <= max_num_evals,
                inst_cur@ == line_buf(inst0, inst1, (if x == 0 {
                    0int
                } else {
                    x - 1
                }) as nat),
                adv_cur@ == line_buf(adv0, adv1, (if x == 0 {
                    0int
                } else {
                    x - 1
                }) as nat),
                out@.len() == n_polys,
                forall|j: int|
                    0 <= j < n_polys ==> (#[trigger] out@[j]).evals@.len() == self.num_evals@[j],
                forall|j: int, y: int|
                    0 <= j < n_polys && 0 <= y < x && y < self.num_evals@[j]
                        ==> out@[j].evals@[y] == spec_gate_sample(
                        g,
                        j,
                        *pk,
                        *acc,
                        *new,
                        row as int,
                        y as nat,
                    ),
            decreases max_num_evals - x,
        {
            if x > 0 {
                // Step the instance and advice buffers one more unit along the
                // fold line.
                let len_i = inst_cur.len();
                let mut i: usize = 0;
                while i < len_i
                    invariant
                        i <= len_i,
                        inst_cur@.len() == len_i,
                        forall|k: int|
                            0 <= k < i ==> inst_cur@[k] == line_point(
                                inst0[k],
                                fsub(inst1[k], inst0[k]),
                                x as nat,
                            ),
                        forall|k: int|
                            i <= k < len_i ==> inst_cur@[k] == line_point(
                                inst0[k],
                                fsub(inst1[k], inst0[k]),
                                (x - 1) as nat,
                            ),
                    decreases len_i - i,
                {
                    let v = scalar_add(inst_cur[i], self.instance_diff[i]);
                    inst_cur[i] = v;
                    i = i + 1;
                }
                let len_a = adv_cur.len();
                let mut i: usize = 0;
                while i < len_a
                    invariant
                        i <= len_a,
                        adv_cur@.len() == len_a,
                        forall|k: int|
                            0 <= k < i ==> adv_cur@[k] == line_point(
                                adv0[k],
                                fsub(adv1[k], adv0[k]),
                                x as nat,
                            ),
                        forall|k: int|
                            i <= k < len_a ==> adv_cur@[k] == line_point(
                                adv0[k],
                                fsub(adv1[k], adv0[k]),
                                (x - 1) as nat,
                            ),
                    decreases len_a - i,
                {
                    let v = scalar_add(adv_cur[i], self.advice_diff[i]);
                    adv_cur[i] = v;
                    i = i + 1;
                }
            }
            proof {
                assert(inst_cur@ =~= line_buf(inst0, inst1, x as nat));
                assert(adv_cur@ =~= line_buf(adv0, adv1, x as nat));
            }

            let mut j: usize = 0;
            while j < n_polys
                invariant
                    j <= n_polys,
                    out@.len() == n_polys,
                    forall|k: int|
                        0 <= k < n_polys ==> (#[trigger] out@[k]).evals@.len()
                            == self.num_evals@[k],
                    forall|k: int, y: int|
                        0 <= k < n_polys && 0 <= y < x && y < self.num_evals@[k]
                            ==> out@[k].evals@[y] == spec_gate_sample(
                            g,
                            k,
                            *pk,
                            *acc,
                            *new,
                            row as int,
                            y as nat,
                        ),
                    forall|k: int|
                        0 <= k < j && x < self.num_evals@[k] ==> (#[trigger] out@[k]).evals@[x as int]
                            == spec_gate_sample(g, k, *pk, *acc, *new, row as int, x as nat),
                decreases n_polys - j,
            {
                if x < self.num_evals[j] {
                    let e = gate.polys[j].evaluate(
                        &self.selectors,
                        &self.fixed,
                        &adv_cur,
                        &inst_cur,
                        &self.challenge_evals[x],
                    );
                    out[j].evals[x] = e;
                }
                j = j + 1;
            }
            x = x + 1;
        }

        proof {
            // Sample 0 reproduces the first endpoint by definition of the line.
            assert forall|j: int| 0 <= j < n_polys implies spec_gate_sample(
                g,
                j,
                *pk,
                *acc,
                *new,
                row as int,
                0,
            ) == spec_gate_row_eval(g, j, *pk, *acc, row as int) by {
                lemma_sample_zero(g, j, *pk, *acc, *new, row as int);
            }
            // Sample 1 reproduces the second endpoint: the populated
            // differences land each buffer entry on the new accumulator's
            // value, and row 1 of the challenge table is the new endpoint.
            assert forall|j: int|
                0 <= j < n_polys && self.num_evals@[j] >= 2 implies spec_gate_sample(
                g,
                j,
                *pk,
                *acc,
                *new,
                row as int,
                1,
            ) == spec_gate_row_eval(g, j, *pk, *new, row as int) by {
                assert forall|i: int| 0 <= i < inst0.len() implies line_buf(inst0, inst1, 1)[i]
                    == inst1[i] by {
                    assert(self.instance_diff@[i] == fsub(inst1[i], inst0[i]) && fadd(
                        inst0[i],
                        self.instance_diff@[i],
                    ) == inst1[i]);
                }
                assert(line_buf(inst0, inst1, 1) =~= inst1);
                assert forall|i: int| 0 <= i < adv0.len() implies line_buf(adv0, adv1, 1)[i]
                    == adv1[i] by {
                    assert(self.advice_diff@[i] == fsub(adv1[i], adv0[i]) && fadd(
                        adv0[i],
                        self.advice_diff@[i],
                    ) == adv1[i]);
                }
                assert(line_buf(adv0, adv1, 1) =~= adv1);
                assert(self.challenge_evals@[1]@ == line_buf(ch0, ch1, 1));
                assert(self.challenge_evals@[1]@ == ch1);
                assert(line_buf(ch0, ch1, 1) =~= ch1);
            }
        }
        self.gate_eval = out;
        true
    }
}

} // verus!
