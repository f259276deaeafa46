//! The prover's accumulator: a relaxed instance with full column polynomials,
//! and the prover's half of the folding protocol.
//!
//! A fold evaluates every constraint of every gate on every row along the line
//! between the two accumulators, sums the samples weighted by the `ys`
//! coefficients, interpolates the summed error polynomial, sends its quotient
//! through the transcript, squeezes the fold challenge, and interpolates every
//! element of the accumulator at it.

use vstd::prelude::*;

use halo2curves::bn256::{Fr, G1Affine};

use crate::curve::{plerp, plin2, plin3, point_lerp, point_lin2, point_lin3};
use crate::error_check::{
    challenges_compat, line_buf, spec_active, spec_gate_row_eval, spec_gate_sample,
    GateEvaluationCache,
};
use crate::fold_verifier::LookupAccumulator;
use crate::gate::Gate;
use crate::keygen::{pk_wf, spec_gate_constraints, spec_gates_max_degree, spec_num_folding_constraints, ProvingKey};
use crate::poly::{
    lagrange_coeffs, quotient_poly, spec_div_one_minus_x, spec_lagrange, spec_reduced_shift,
};
use crate::scalar::{
    fadd, flerp, fmul, fr_u64, fsub, scalar_add, scalar_from_u64, scalar_lerp, scalar_mul,
    scalar_sub,
};
use crate::transcript::TranscriptWriter;

verus! {

/// A relaxed instance as the prover holds it: instance and advice column
/// polynomials in the Lagrange basis, the advice commitments and blinds, the
/// flattened challenge powers, the lookup state, and the challenge and error
/// state of the relaxation.
pub struct Accumulator {
    /// Instance column values, one domain-sized vector per column.
    pub instance_polys: Vec<Vec<Fr>>,
    /// Advice column values, one domain-sized vector per column.
    pub advice_polys: Vec<Vec<Fr>>,
    /// Commitments to the advice columns.
    pub advice_commitments: Vec<G1Affine>,
    /// Blinding factors of the advice commitments.
    pub advice_blinds: Vec<Fr>,
    /// Flattened challenge powers: `challenges[idx][power - 1]` is the
    /// accumulated `power`-th power of challenge `idx`.
    pub challenges: Vec<Vec<Fr>>,
    /// Lookup argument state, one record per lookup.
    pub lookups: Vec<LookupAccumulator>,
    /// The `beta` challenge.
    pub beta: Fr,
    /// Commitment to the `beta` powers.
    pub beta_commitment: G1Affine,
    /// Accumulated error commitment for the `beta` relation.
    pub beta_error: G1Affine,
    /// Powers of the random-linear-combination challenge `y`.
    pub ys: Vec<Fr>,
    /// The accumulated scalar error.
    pub error: Fr,
}

/// The accumulator's columns agree with the key's shape.
pub open spec fn acc_shape(acc: Accumulator, pk: ProvingKey) -> bool {
    &&& acc.instance_polys@.len() == pk.num_instance_columns
    &&& forall|c: int|
        0 <= c < acc.instance_polys@.len() ==> (#[trigger] acc.instance_polys@[c])@.len()
            == pk.num_rows
    &&& acc.advice_polys@.len() == pk.num_advice_columns
    &&& forall|c: int|
        0 <= c < acc.advice_polys@.len() ==> (#[trigger] acc.advice_polys@[c])@.len()
            == pk.num_rows
    &&& acc.advice_commitments@.len() == pk.num_advice_columns
    &&& acc.advice_blinds@.len() == pk.num_advice_columns
    &&& acc.challenges@.len() == pk.num_challenges
    &&& acc.lookups@.len() == pk.lookups@.len()
    &&& acc.ys@.len() == spec_num_folding_constraints(pk)
}

/// Every gate's challenge queries are answered by this accumulator's power
/// table.
pub open spec fn acc_compat(pk: ProvingKey, acc: Accumulator) -> bool {
    forall|g: int|
        0 <= g < pk.gates@.len() ==> challenges_compat(#[trigger] pk.gates@[g], acc.challenges@)
}

/// Two prover accumulators have the same shape, so they can be folded.
pub open spec fn pacc_shape_match(a: Accumulator, b: Accumulator) -> bool {
    &&& a.instance_polys@.len() == b.instance_polys@.len()
    &&& forall|c: int|
        0 <= c < a.instance_polys@.len() ==> (#[trigger] a.instance_polys@[c])@.len()
            == b.instance_polys@[c]@.len()
    &&& a.advice_polys@.len() == b.advice_polys@.len()
    &&& forall|c: int|
        0 <= c < a.advice_polys@.len() ==> (#[trigger] a.advice_polys@[c])@.len()
            == b.advice_polys@[c]@.len()
    &&& a.advice_commitments@.len() == b.advice_commitments@.len()
    &&& a.advice_blinds@.len() == b.advice_blinds@.len()
    &&& a.challenges@.len() == b.challenges@.len()
    &&& forall|c: int|
        0 <= c < a.challenges@.len() ==> (#[trigger] a.challenges@[c])@.len()
            == b.challenges@[c]@.len()
    &&& a.lookups@.len() == b.lookups@.len()
    &&& forall|l: int|
        0 <= l < a.lookups@.len() ==> (#[trigger] a.lookups@[l]).thetas@.len()
            == b.lookups@[l].thetas@.len()
    &&& a.ys@.len() == b.ys@.len()
}

/// Field-by-field equality of two prover accumulators.
pub open spec fn pacc_eq(a: Accumulator, b: Accumulator) -> bool {
    &&& a.instance_polys@.len() == b.instance_polys@.len()
    &&& forall|c: int|
        0 <= c < a.instance_polys@.len() ==> (#[trigger] a.instance_polys@[c])@
            == b.instance_polys@[c]@
    &&& a.advice_polys@.len() == b.advice_polys@.len()
    &&& forall|c: int|
        0 <= c < a.advice_polys@.len() ==> (#[trigger] a.advice_polys@[c])@ == b.advice_polys@[c]@
    &&& a.advice_commitments@ == b.advice_commitments@
    &&& a.advice_blinds@ == b.advice_blinds@
    &&& a.challenges@.len() == b.challenges@.len()
    &&& forall|c: int|
        0 <= c < a.challenges@.len() ==> (#[trigger] a.challenges@[c])@ == b.challenges@[c]@
    &&& a.lookups@.len() == b.lookups@.len()
    &&& forall|l: int|
        0 <= l < a.lookups@.len() ==> {
            let x = #[trigger] a.lookups@[l];
            let y = b.lookups@[l];
            &&& x.m == y.m
            &&& x.r == y.r
            &&& x.thetas@ == y.thetas@
            &&& x.g == y.g
            &&& x.h == y.h
        }
    &&& a.beta == b.beta
    &&& a.beta_commitment == b.beta_commitment
    &&& a.beta_error == b.beta_error
    &&& a.ys@ == b.ys@
    &&& a.error == b.error
}

/// Equality of every interpolated field of two prover accumulators: all of
/// `pacc_eq` except the scalar error and the `beta`-error commitment, whose
/// self-fold reproduction rests on interpolation and group identities outside
/// the trusted layer's stated facts.
pub open spec fn pacc_lerped_eq(a: Accumulator, b: Accumulator) -> bool {
    &&& a.instance_polys@.len() == b.instance_polys@.len()
    &&& forall|c: int|
        0 <= c < a.instance_polys@.len() ==> (#[trigger] a.instance_polys@[c])@
            == b.instance_polys@[c]@
    &&& a.advice_polys@.len() == b.advice_polys@.len()
    &&& forall|c: int|
        0 <= c < a.advice_polys@.len() ==> (#[trigger] a.advice_polys@[c])@ == b.advice_polys@[c]@
    &&& a.advice_commitments@ == b.advice_commitments@
    &&& a.advice_blinds@ == b.advice_blinds@
    &&& a.challenges@.len() == b.challenges@.len()
    &&& forall|c: int|
        0 <= c < a.challenges@.len() ==> (#[trigger] a.challenges@[c])@ == b.challenges@[c]@
    &&& a.lookups@.len() == b.lookups@.len()
    &&& forall|l: int|
        0 <= l < a.lookups@.len() ==> {
            let x = #[trigger] a.lookups@[l];
            let y = b.lookups@[l];
            &&& x.m == y.m
            &&& x.r == y.r
            &&& x.thetas@ == y.thetas@
            &&& x.g == y.g
            &&& x.h == y.h
        }
    &&& a.beta == b.beta
    &&& a.beta_commitment == b.beta_commitment
    &&& a.ys@ == b.ys@
}

/// What the prover's fold produces, given the quotient coefficients it sent
/// and the challenge it squeezed: the same element-wise interpolation as the
/// verifier's fold, applied also to the column polynomials and blinds.
pub open spec fn pacc_folded(
    f: Accumulator,
    a0: Accumulator,
    a1: Accumulator,
    coeffs: Seq<Fr>,
    alpha: Fr,
) -> bool {
    &&& f.error == crate::fold_verifier::spec_folded_error(a0.error, a1.error, coeffs, alpha)
    &&& f.instance_polys@.len() == a0.instance_polys@.len()
    &&& forall|c: int|
        0 <= c < f.instance_polys@.len() ==> (#[trigger] f.instance_polys@[c])@.len()
            == a0.instance_polys@[c]@.len()
    &&& forall|c: int, r: int|
        0 <= c < f.instance_polys@.len() && 0 <= r < f.instance_polys@[c]@.len()
            ==> f.instance_polys@[c]@[r] == flerp(
            a0.instance_polys@[c]@[r],
            a1.instance_polys@[c]@[r],
            alpha,
        )
    &&& f.advice_polys@.len() == a0.advice_polys@.len()
    &&& forall|c: int|
        0 <= c < f.advice_polys@.len() ==> (#[trigger] f.advice_polys@[c])@.len()
            == a0.advice_polys@[c]@.len()
    &&& forall|c: int, r: int|
        0 <= c < f.advice_polys@.len() && 0 <= r < f.advice_polys@[c]@.len()
            ==> f.advice_polys@[c]@[r] == flerp(
            a0.advice_polys@[c]@[r],
            a1.advice_polys@[c]@[r],
            alpha,
        )
    &&& f.advice_commitments@.len() == a0.advice_commitments@.len()
    &&& forall|c: int|
        0 <= c < f.advice_commitments@.len() ==> f.advice_commitments@[c] == plerp(
            a0.advice_commitments@[c],
            a1.advice_commitments@[c],
            alpha,
        )
    &&& f.advice_blinds@.len() == a0.advice_blinds@.len()
    &&& forall|c: int|
        0 <= c < f.advice_blinds@.len() ==> f.advice_blinds@[c] == flerp(
            a0.advice_blinds@[c],
            a1.advice_blinds@[c],
            alpha,
        )
    &&& f.challenges@.len() == a0.challenges@.len()
    &&& forall|c: int|
        0 <= c < f.challenges@.len() ==> (#[trigger] f.challenges@[c])@.len()
            == a0.challenges@[c]@.len()
    &&& forall|c: int, p: int|
        0 <= c < f.challenges@.len() && 0 <= p < f.challenges@[c]@.len() ==> f.challenges@[c]@[p]
            == flerp(a0.challenges@[c]@[p], a1.challenges@[c]@[p], alpha)
    &&& f.lookups@.len() == a0.lookups@.len()
    &&& forall|l: int|
        0 <= l < f.lookups@.len() ==> {
            let x = #[trigger] f.lookups@[l];
            let p = a0.lookups@[l];
            let q = a1.lookups@[l];
            &&& x.m == plerp(p.m, q.m, alpha)
            &&& x.g == plerp(p.g, q.g, alpha)
            &&& x.h == plerp(p.h, q.h, alpha)
            &&& x.r == flerp(p.r, q.r, alpha)
            &&& x.thetas@.len() == p.thetas@.len()
            &&& forall|t: int|
                0 <= t < x.thetas@.len() ==> x.thetas@[t] == flerp(
                    p.thetas@[t],
                    q.thetas@[t],
                    alpha,
                )
        }
    &&& f.beta == flerp(a0.beta, a1.beta, alpha)
    &&& f.beta_commitment == plerp(a0.beta_commitment, a1.beta_commitment, alpha)
    &&& f.beta_error == spec_beta_error_fold(
        a0.beta_error,
        a1.beta_error,
        a0.beta_commitment,
        a1.beta_commitment,
        a0.beta,
        a1.beta,
        alpha,
    )
    &&& f.ys@.len() == a0.ys@.len()
    &&& forall|k: int| 0 <= k < f.ys@.len() ==> f.ys@[k] == flerp(a0.ys@[k], a1.ys@[k], alpha)
}

/// The cross-term formula for the folded `beta` error commitment.
pub open spec fn spec_beta_error_fold(
    be0: G1Affine,
    be1: G1Affine,
    c0: G1Affine,
    c1: G1Affine,
    b0: Fr,
    b1: Fr,
    alpha: Fr,
) -> G1Affine {
    let one = fr_u64(1);
    plin3(
        be0,
        fsub(one, alpha),
        be1,
        alpha,
        plin2(c0, fsub(b1, b0), c1, fsub(b0, b1)),
        fmul(fsub(one, alpha), alpha),
    )
}

/// The running sum, over the first `rows` rows, of constraint `j` of gate `g`
/// evaluated against one accumulator. Rows where `g`'s simple selector is
/// off are skipped whole.
pub open spec fn spec_poly_row_sum(
    g: Gate,
    j: int,
    pk: ProvingKey,
    acc: Accumulator,
    rows: int,
) -> Fr
    decreases rows,
{
    if rows <= 0 {
        fr_u64(0)
    } else if spec_active(g, pk, rows - 1) {
        fadd(
            spec_poly_row_sum(g, j, pk, acc, rows - 1),
            spec_gate_row_eval(g, j, pk, acc, rows - 1),
        )
    } else {
        spec_poly_row_sum(g, j, pk, acc, rows - 1)
    }
}

/// Starting from `start`, fold in the weighted row sums of the first `j`
/// constraints of gate `g`, whose global constraint indices begin at `k0`.
pub open spec fn spec_gate_error_from(
    g: Gate,
    pk: ProvingKey,
    acc: Accumulator,
    k0: int,
    start: Fr,
    j: int,
) -> Fr
    decreases j,
{
    if j <= 0 {
        start
    } else {
        fadd(
            spec_gate_error_from(g, pk, acc, k0, start, j - 1),
            fmul(acc.ys@[k0 + j - 1], spec_poly_row_sum(g, j - 1, pk, acc, pk.num_rows as int)),
        )
    }
}

/// The weighted sum of every constraint's row sums over the first `gi` gates.
pub open spec fn spec_error_value_upto(pk: ProvingKey, acc: Accumulator, gi: int) -> Fr
    decreases gi,
{
    if gi <= 0 {
        fr_u64(0)
    } else {
        spec_gate_error_from(
            pk.gates@[gi - 1],
            pk,
            acc,
            spec_gate_constraints(pk.gates@.subrange(0, gi - 1)) as int,
            spec_error_value_upto(pk, acc, gi - 1),
            pk.gates@[gi - 1].polys@.len() as int,
        )
    }
}

/// The error scalar that a consistently built accumulator carries: the sum,
/// over all gate constraints and all active rows, of the constraint evaluated
/// against the accumulator, weighted by the accumulator's `ys` coefficients.
pub open spec fn spec_error_value(pk: ProvingKey, acc: Accumulator) -> Fr {
    spec_error_value_upto(pk, acc, pk.gates@.len() as int)
}

/// The running sum, over the first `rows` rows, of constraint `j` of gate `g`
/// sampled at point `x` of the fold line between the two accumulators. Rows
/// where `g`'s simple selector is off are skipped whole.
pub open spec fn spec_sample_row_sum(
    g: Gate,
    j: int,
    pk: ProvingKey,
    a0: Accumulator,
    a1: Accumulator,
    x: nat,
    rows: int,
) -> Fr
    decreases rows,
{
    if rows <= 0 {
        fr_u64(0)
    } else if spec_active(g, pk, rows - 1) {
        fadd(
            spec_sample_row_sum(g, j, pk, a0, a1, x, rows - 1),
            spec_gate_sample(g, j, pk, a0, a1, rows - 1, x),
        )
    } else {
        spec_sample_row_sum(g, j, pk, a0, a1, x, rows - 1)
    }
}

/// The samples of one constraint's summand of the error polynomial: its row
/// sums at every sample point, each weighted by the `ys` coefficient of its
/// global constraint index `k`, itself interpolated along the fold line.
pub open spec fn spec_weighted_samples(
    g: Gate,
    j: int,
    pk: ProvingKey,
    a0: Accumulator,
    a1: Accumulator,
    k: int,
    n_ev: nat,
) -> Seq<Fr> {
    Seq::new(
        n_ev,
        |x: int|
            fmul(
                line_buf(a0.ys@, a1.ys@, x as nat)[k],
                spec_sample_row_sum(g, j, pk, a0, a1, x as nat, pk.num_rows as int),
            ),
    )
}

/// The error polynomial's coefficients after folding in the first `j`
/// constraints of gate `g` (global indices from `k0`), starting from the
/// coefficients `start`: each constraint's weighted samples are interpolated
/// and added coefficient-wise.
pub open spec fn spec_gate_coeffs_from(
    g: Gate,
    pk: ProvingKey,
    a0: Accumulator,
    a1: Accumulator,
    k0: int,
    start: Seq<Fr>,
    j: int,
) -> Seq<Fr>
    decreases j,
{
    if j <= 0 {
        start
    } else {
        let prev = spec_gate_coeffs_from(g, pk, a0, a1, k0, start, j - 1);
        let cj = spec_lagrange(
            spec_weighted_samples(g, j - 1, pk, a0, a1, k0 + j - 1, (g.degrees@[j - 1] + 2) as nat),
        );
        Seq::new(
            prev.len(),
            |t: int|
                if t < cj.len() {
                    fadd(prev[t], cj[t])
                } else {
                    prev[t]
                },
        )
    }
}

/// The error polynomial's coefficients after the first `gi` gates.
pub open spec fn spec_error_coeffs_upto(
    pk: ProvingKey,
    a0: Accumulator,
    a1: Accumulator,
    gi: int,
) -> Seq<Fr>
    decreases gi,
{
    if gi <= 0 {
        Seq::new((spec_gates_max_degree(pk.gates@) + 2) as nat, |t: int| fr_u64(0))
    } else {
        spec_gate_coeffs_from(
            pk.gates@[gi - 1],
            pk,
            a0,
            a1,
            spec_gate_constraints(pk.gates@.subrange(0, gi - 1)) as int,
            spec_error_coeffs_upto(pk, a0, a1, gi - 1),
            pk.gates@[gi - 1].polys@.len() as int,
        )
    }
}

/// The coefficients of the summed error polynomial `e(X)` of a fold: every
/// constraint's weighted row sums, interpolated at the integer nodes and
/// added coefficient-wise.
pub open spec fn spec_error_coeffs(pk: ProvingKey, a0: Accumulator, a1: Accumulator) -> Seq<Fr> {
    spec_error_coeffs_upto(pk, a0, a1, pk.gates@.len() as int)
}

/// The quotient polynomial the prover sends for a fold of these accumulators:
/// the summed error polynomial with the endpoint line removed, divided by
/// `X (1 - X)`.
pub open spec fn spec_fold_quotient(pk: ProvingKey, a0: Accumulator, a1: Accumulator) -> Seq<Fr> {
    Seq::new(
        spec_gates_max_degree(pk.gates@),
        |k: int|
            spec_div_one_minus_x(
                spec_reduced_shift(spec_error_coeffs(pk, a0, a1), a0.error, a1.error),
                k,
            ),
    )
}

/// Interpolate two parallel column matrices entrywise.
pub fn lerp_matrix(v0: &Vec<Vec<Fr>>, v1: &Vec<Vec<Fr>>, alpha: Fr) -> (r: Vec<Vec<Fr>>)
    requires
        v0@.len() == v1@.len(),
        forall|c: int| 0 <= c < v0@.len() ==> (#[trigger] v0@[c])@.len() == v1@[c]@.len(),
    ensures
        r@.len() == v0@.len(),
        forall|c: int| 0 <= c < r@.len() ==> (#[trigger] r@[c])@.len() == v0@[c]@.len(),
        forall|c: int, i: int|
            0 <= c < r@.len() && 0 <= i < r@[c]@.len() ==> r@[c]@[i] == flerp(
                v0@[c]@[i],
                v1@[c]@[i],
                alpha,
            ),
        alpha == fr_u64(0) ==> forall|c: int| 0 <= c < r@.len() ==> (#[trigger] r@[c])@ == v0@[c]@,
        alpha == fr_u64(1) ==> forall|c: int| 0 <= c < r@.len() ==> (#[trigger] r@[c])@ == v1@[c]@,
        (forall|c: int| 0 <= c < v0@.len() ==> (#[trigger] v0@[c])@ == v1@[c]@) ==> forall|c: int|
            0 <= c < r@.len() ==> (#[trigger] r@[c])@ == v0@[c]@,
{
    let n = v0.len();
    let mut out: Vec<Vec<Fr>> = Vec::new();
    let mut c: usize = 0;
    while c < n
        invariant
            c <= n,
            n == v0@.len(),
            n == v1@.len(),
            forall|i: int| 0 <= i < n ==> (#[trigger] v0@[i])@.len() == v1@[i]@.len(),
            out@.len() == c,
            forall|i: int| 0 <= i < c ==> (#[trigger] out@[i])@.len() == v0@[i]@.len(),
            forall|i: int, t: int|
                0 <= i < c && 0 <= t < out@[i]@.len() ==> out@[i]@[t] == flerp(
                    v0@[i]@[t],
                    v1@[i]@[t],
                    alpha,
                ),
            alpha == fr_u64(0) ==> forall|i: int| 0 <= i < c ==> (#[trigger] out@[i])@ == v0@[i]@,
            alpha == fr_u64(1) ==> forall|i: int| 0 <= i < c ==> (#[trigger] out@[i])@ == v1@[i]@,
            (forall|i: int| 0 <= i < v0@.len() ==> (#[trigger] v0@[i])@ == v1@[i]@) ==> forall|
                i: int,
            |
                0 <= i < c ==> (#[trigger] out@[i])@ == v0@[i]@,
        decreases n - c,
    {
        out.push(crate::fold_verifier::lerp_scalars(&v0[c], &v1[c], alpha));
        c = c + 1;
    }
    out
}

impl Accumulator {
    /// An owned, field-by-field copy.
    pub fn duplicate(&self) -> (r: Accumulator)
        ensures
            pacc_eq(r, *self),
    {
        Accumulator {
            instance_polys: crate::fold_verifier::copy_matrix(&self.instance_polys),
            advice_polys: crate::fold_verifier::copy_matrix(&self.advice_polys),
            advice_commitments: crate::fold_verifier::copy_points(&self.advice_commitments),
            advice_blinds: crate::error_check::copy_scalars(&self.advice_blinds),
            challenges: crate::fold_verifier::copy_matrix(&self.challenges),
            lookups: crate::fold_verifier::copy_lookups(&self.lookups),
            beta: self.beta,
            beta_commitment: self.beta_commitment,
            beta_error: self.beta_error,
            ys: crate::error_check::copy_scalars(&self.ys),
            error: self.error,
        }
    }

    /// Fold two prover accumulators under a known challenge and quotient
    /// polynomial. Folding at `alpha = 0` returns the first accumulator,
    /// field by field; at `alpha = 1`, the second.
    pub fn fold_with_alpha(
        acc0: &Accumulator,
        acc1: &Accumulator,
        coeffs: &Vec<Fr>,
        alpha: Fr,
    ) -> (f: Accumulator)
        requires
            pacc_shape_match(*acc0, *acc1),
        ensures
            pacc_folded(f, *acc0, *acc1, coeffs@, alpha),
            alpha == fr_u64(0) ==> pacc_eq(f, *acc0),
            alpha == fr_u64(1) ==> pacc_eq(f, *acc1),
            pacc_eq(*acc0, *acc1) ==> pacc_lerped_eq(f, *acc0),
    {
        let one = scalar_from_u64(1);
        let one_minus_alpha = scalar_sub(one, alpha);

        let q = crate::poly::eval_polynomial(coeffs, alpha);
        let t1 = scalar_mul(scalar_mul(alpha, one_minus_alpha), q);
        let t2 = scalar_mul(one_minus_alpha, acc0.error);
        let t3 = scalar_mul(alpha, acc1.error);
        let error = scalar_add(scalar_add(t1, t2), t3);

        let instance_polys = lerp_matrix(&acc0.instance_polys, &acc1.instance_polys, alpha);
        let advice_polys = lerp_matrix(&acc0.advice_polys, &acc1.advice_polys, alpha);
        let challenges = lerp_matrix(&acc0.challenges, &acc1.challenges, alpha);
        let advice_commitments = crate::fold_verifier::lerp_points(
            &acc0.advice_commitments,
            &acc1.advice_commitments,
            alpha,
        );
        let advice_blinds = crate::fold_verifier::lerp_scalars(
            &acc0.advice_blinds,
            &acc1.advice_blinds,
            alpha,
        );
        let ys = crate::fold_verifier::lerp_scalars(&acc0.ys, &acc1.ys, alpha);

        let n_lookups = acc0.lookups.len();
        let mut lookups: Vec<LookupAccumulator> = Vec::new();
        let mut l: usize = 0;
        while l < n_lookups
            invariant
                l <= n_lookups,
                n_lookups == acc0.lookups@.len(),
                pacc_shape_match(*acc0, *acc1),
                lookups@.len() == l,
                forall|i: int|
                    0 <= i < l ==> {
                        let x = #[trigger] lookups@[i];
                        let p = acc0.lookups@[i];
                        let q2 = acc1.lookups@[i];
                        &&& x.m == plerp(p.m, q2.m, alpha)
                        &&& x.g == plerp(p.g, q2.g, alpha)
                        &&& x.h == plerp(p.h, q2.h, alpha)
                        &&& x.r == flerp(p.r, q2.r, alpha)
                        &&& x.thetas@.len() == p.thetas@.len()
                        &&& forall|t: int|
                            0 <= t < x.thetas@.len() ==> x.thetas@[t] == flerp(
                                p.thetas@[t],
                                q2.thetas@[t],
                                alpha,
                            )
                    },
                alpha == fr_u64(0) ==> forall|i: int|
                    0 <= i < l ==> {
                        let x = #[trigger] lookups@[i];
                        let p = acc0.lookups@[i];
                        x.m == p.m && x.g == p.g && x.h == p.h && x.r == p.r && x.thetas@
                            == p.thetas@
                    },
                alpha == fr_u64(1) ==> forall|i: int|
                    0 <= i < l ==> {
                        let x = #[trigger] lookups@[i];
                        let q2 = acc1.lookups@[i];
                        x.m == q2.m && x.g == q2.g && x.h == q2.h && x.r == q2.r && x.thetas@
                            == q2.thetas@
                    },
                pacc_eq(*acc0, *acc1) ==> forall|i: int|
                    0 <= i < l ==> {
                        let x = #[trigger] lookups@[i];
                        let p = acc0.lookups@[i];
                        x.m == p.m && x.g == p.g && x.h == p.h && x.r == p.r && x.thetas@
                            == p.thetas@
                    },
            decreases n_lookups - l,
        {
            let p = &acc0.lookups[l];
            let q2 = &acc1.lookups[l];
            let folded = LookupAccumulator {
                m: point_lerp(p.m, q2.m, alpha),
                r: scalar_lerp(p.r, q2.r, alpha),
                thetas: crate::fold_verifier::lerp_scalars(&p.thetas, &q2.thetas, alpha),
                g: point_lerp(p.g, q2.g, alpha),
                h: point_lerp(p.h, q2.h, alpha),
            };
            lookups.push(folded);
            l = l + 1;
        }

        let beta = scalar_lerp(acc0.beta, acc1.beta, alpha);
        let beta_commitment = point_lerp(acc0.beta_commitment, acc1.beta_commitment, alpha);
        let quot = point_lin2(
            acc0.beta_commitment,
            scalar_sub(acc1.beta, acc0.beta),
            acc1.beta_commitment,
            scalar_sub(acc0.beta, acc1.beta),
        );
        let beta_error = point_lin3(
            acc0.beta_error,
            one_minus_alpha,
            acc1.beta_error,
            alpha,
            quot,
            scalar_mul(one_minus_alpha, alpha),
        );

        Accumulator {
            instance_polys,
            advice_polys,
            advice_commitments,
            advice_blinds,
            challenges,
            lookups,
            beta,
            beta_commitment,
            beta_error,
            ys,
            error,
        }
    }

    /// Fold two prover accumulators through the transcript: compute the summed
    /// error polynomial over every gate, constraint and row, send the quotient
    /// polynomial's coefficients, squeeze the fold challenge, and interpolate
    /// every element of the accumulator at it.
    ///
    /// The emitted proof bytes are exactly the quotient coefficients'
    /// encodings, and the challenge is exactly the squeeze of the transcript's
    /// final absorbed state, so a verifier replaying those bytes folds with the
    /// same coefficients and challenge.
    #[verifier::loop_isolation(false)]
    pub fn fold(
        pk: &ProvingKey,
        acc0: Accumulator,
        acc1: Accumulator,
        transcript: &mut TranscriptWriter,
    ) -> (r: Accumulator)
        requires
            pk_wf(*pk),
            acc_shape(acc0, *pk),
            acc_shape(acc1, *pk),
            acc_compat(*pk, acc0),
            acc_compat(*pk, acc1),
            pacc_shape_match(acc0, acc1),
        ensures
            spec_fold_quotient(*pk, acc0, acc1).len() == spec_gates_max_degree(pk.gates@),
            final(transcript).proof@ == old(transcript).proof@ + crate::transcript::scalars_repr(
                spec_fold_quotient(*pk, acc0, acc1),
            ),
            forall|k: int|
                0 <= k < spec_gates_max_degree(pk.gates@) as int ==> crate::scalar::fr_of_repr(
                    #[trigger] final(transcript).proof@.subrange(
                        old(transcript).proof@.len() + 32 * k,
                        old(transcript).proof@.len() + 32 * k + 32,
                    ),
                ) == Some(spec_fold_quotient(*pk, acc0, acc1)[k]),
            final(transcript).state@ == old(transcript).state@
                + crate::transcript::scalars_absorbed(spec_fold_quotient(*pk, acc0, acc1)) + seq![
                crate::transcript::PREFIX_CHALLENGE,
            ],
            pacc_folded(
                r,
                acc0,
                acc1,
                spec_fold_quotient(*pk, acc0, acc1),
                crate::scalar::fr_wide(crate::hash::blake2b_of(final(transcript).state@)),
            ),
    {
        let (e_coeffs, _e_zero, _e_one) = error_poly_coeffs(pk, &acc0, &acc1);
        let quot = quotient_poly(&e_coeffs, acc0.error, acc1.error);
        proof {
            assert(quot@ =~= spec_fold_quotient(*pk, acc0, acc1));
        }
        let ghost base = old(transcript).proof@.len() as int;
        let mut t: usize = 0;
        while t < quot.len()
            invariant
                t <= quot@.len(),
                transcript.proof@ == old(transcript).proof@ + crate::transcript::scalars_repr(
                    quot@.subrange(0, t as int),
                ),
                transcript.proof@.len() == base + 32 * t,
                transcript.state@ == old(transcript).state@
                    + crate::transcript::scalars_absorbed(quot@.subrange(0, t as int)),
                forall|k: int|
                    0 <= k < t ==> crate::scalar::fr_of_repr(
                        #[trigger] transcript.proof@.subrange(base + 32 * k, base + 32 * k + 32),
                    ) == Some(quot@[k]),
            decreases quot@.len() - t,
        {
            let ghost pre_proof = transcript.proof@;
            transcript.write_scalar(&quot[t]);
            proof {
                assert(quot@.subrange(0, t + 1).drop_last() =~= quot@.subrange(0, t as int));
                assert(quot@.subrange(0, t + 1).last() == quot@[t as int]);
                // Appending one more encoding leaves the earlier chunks in
                // place and puts the new one at the next 32-byte slot.
                assert forall|k: int| 0 <= k < t implies crate::scalar::fr_of_repr(
                    #[trigger] transcript.proof@.subrange(base + 32 * k, base + 32 * k + 32),
                ) == Some(quot@[k]) by {
                    assert(transcript.proof@.subrange(base + 32 * k, base + 32 * k + 32)
                        =~= pre_proof.subrange(base + 32 * k, base + 32 * k + 32));
                }
                assert(transcript.proof@.subrange(base + 32 * (t as int), base + 32 * (t as int)
                    + 32) =~= crate::scalar::fr_repr(quot@[t as int]));
            }
            t = t + 1;
        }
        proof {
            assert(quot@.subrange(0, quot@.len() as int) =~= quot@);
        }
        let alpha = transcript.squeeze_challenge_scalar();
        proof {
            assert(transcript.state@ =~= old(transcript).state@
                + crate::transcript::scalars_absorbed(quot@) + seq![
                crate::transcript::PREFIX_CHALLENGE,
            ]);
        }
        let folded = Accumulator::fold_with_alpha(&acc0, &acc1, &quot, alpha);
        proof {
            assert(quot@.len() == spec_gates_max_degree(pk.gates@));
            assert(pacc_folded(folded, acc0, acc1, quot@, alpha));
        }
        folded
    }
}

/// Compute the coefficients of the summed error polynomial `e(X)` of a fold,
/// together with its endpoint values `e(0)` and `e(1)`.
///
/// Every constraint of every gate is evaluated at every sample point of the
/// fold line on every row (rows where its simple selector is off are
/// skipped); each constraint's row-summed samples are weighted by the `ys`
/// coefficients interpolated along the same line, interpolated into
/// coefficients, and summed. The returned endpoints are the weighted row sums
/// against each input accumulator alone: for accumulators whose `error` field
/// carries that value, `e(0)` and `e(1)` are those errors.
#[verifier::loop_isolation(false)]
pub fn error_poly_coeffs(pk: &ProvingKey, acc0: &Accumulator, acc1: &Accumulator) -> (r: (
    Vec<Fr>,
    Fr,
    Fr,
))
    requires
        pk_wf(*pk),
        acc_shape(*acc0, *pk),
        acc_shape(*acc1, *pk),
        acc_compat(*pk, *acc0),
        acc_compat(*pk, *acc1),
    ensures
        r.0@.len() == spec_gates_max_degree(pk.gates@) + 2,
        r.0@ == spec_error_coeffs(*pk, *acc0, *acc1),
        r.1 == spec_error_value(*pk, *acc0),
        r.2 == spec_error_value(*pk, *acc1),
{
    let max_deg = pk.max_folding_constraints_degree();
    let n_samples = max_deg + 1;
    let ys_evals = crate::error_check::challenge_line_table(&acc0.ys, &acc1.ys, n_samples);
    let num_rows_i = pk.num_rows as i32;
    let mut e_coeffs = crate::error_check::zero_scalar_vec(n_samples);
    proof {
        assert(e_coeffs@ =~= spec_error_coeffs_upto(*pk, *acc0, *acc1, 0));
    }
    let mut e_zero = scalar_from_u64(0);
    let mut e_one = scalar_from_u64(0);
    let mut k: usize = 0;
    let mut g: usize = 0;
    while g < pk.gates.len()
        invariant
            g <= pk.gates@.len(),
            k as int == spec_gate_constraints(pk.gates@.subrange(0, g as int)),
            e_zero == spec_error_value_upto(*pk, *acc0, g as int),
            e_one == spec_error_value_upto(*pk, *acc1, g as int),
            e_coeffs@.len() == n_samples,
            e_coeffs@ == spec_error_coeffs_upto(*pk, *acc0, *acc1, g as int),
        decreases pk.gates@.len() - g,
    {
        let gate = &pk.gates[g];
        proof {
            crate::keygen::lemma_gates_max_subrange(pk.gates@, g as int);
            crate::keygen::lemma_gate_degrees_le(pk.gates@, g as int);
            assert forall|j: int| 0 <= j < gate.degrees@.len() implies (#[trigger] gate.degrees@[j])
                + 1 + 1 <= usize::MAX by {
                crate::keygen::lemma_seq_max_ge(gate.degrees@, j);
            }
        }
        let mut cache = GateEvaluationCache::new(gate, &acc0.challenges, &acc1.challenges, 1);
        let mut sums = cache.empty_error_polynomials();
        proof {
            assert forall|j: int| 0 <= j < sums@.len() implies (#[trigger] sums@[j]).evals@.len()
                >= 2 by {
                assert(cache.num_evals@[j] == gate.degrees@[j] + 1 + 1);
            }
        }

        // Sum the samples of every constraint over all rows.
        let mut row: usize = 0;
        while row < pk.num_rows
            invariant
                row <= pk.num_rows,
                cache.wf(),
                cache.gate == gate,
                cache.num_extra == 1,
                cache.challenges_from(acc0.challenges@, acc1.challenges@),
                sums@.len() == gate.polys@.len(),
                forall|j: int|
                    0 <= j < sums@.len() ==> (#[trigger] sums@[j]).evals@.len()
                        == cache.num_evals@[j],
                forall|j: int|
                    0 <= j < sums@.len() ==> (#[trigger] sums@[j]).evals@[0] == spec_poly_row_sum(
                        *gate,
                        j,
                        *pk,
                        *acc0,
                        row as int,
                    ),
                forall|j: int|
                    0 <= j < sums@.len() ==> (#[trigger] sums@[j]).evals@[1] == spec_poly_row_sum(
                        *gate,
                        j,
                        *pk,
                        *acc1,
                        row as int,
                    ),
                forall|j: int, x: int|
                    0 <= j < sums@.len() && 0 <= x < sums@[j].evals@.len() ==> sums@[j].evals@[x]
                        == spec_sample_row_sum(*gate, j, *pk, *acc0, *acc1, x as nat, row as int),
            decreases pk.num_rows - row,
        {
            let active = cache.evaluate(row, num_rows_i, pk, acc0, acc1);
            if active {
                let n_polys = sums.len();
                let ghost sums_before = sums@;
                let mut j: usize = 0;
                while j < n_polys
                    invariant
                        j <= n_polys,
                        n_polys == sums@.len(),
                        sums@.len() == sums_before.len(),
                        cache.wf(),
                        cache.gate == gate,
                        sums_before.len() == gate.polys@.len(),
                        forall|i: int|
                            0 <= i < sums@.len() ==> (#[trigger] sums@[i]).evals@.len()
                                == sums_before[i].evals@.len(),
                        forall|i: int|
                            0 <= i < sums_before.len() ==> (#[trigger] sums_before[i]).evals@.len()
                                == cache.num_evals@[i],
                        forall|i: int|
                            0 <= i < cache.gate_eval@.len()
                                ==> (#[trigger] cache.gate_eval@[i]).evals@.len()
                                == cache.num_evals@[i],
                        forall|i: int, x: int|
                            j <= i < sums@.len() && 0 <= x < sums@[i].evals@.len()
                                ==> sums@[i].evals@[x] == sums_before[i].evals@[x],
                        forall|i: int, x: int|
                            0 <= i < j && 0 <= x < sums@[i].evals@.len() ==> sums@[i].evals@[x]
                                == fadd(sums_before[i].evals@[x], cache.gate_eval@[i].evals@[x]),
                    decreases n_polys - j,
                {
                    let nv = sums[j].evals.len();
                    let ghost sums_at_j = sums@;
                    let ghost this_before = sums@[j as int].evals@;
                    let mut xx: usize = 0;
                    while xx < nv
                        invariant
                            xx <= nv,
                            0 <= j < sums@.len(),
                            nv == this_before.len(),
                            sums@.len() == sums_at_j.len(),
                            sums@[j as int].evals@.len() == nv,
                            nv == cache.gate_eval@[j as int].evals@.len(),
                            forall|i: int| 0 <= i < sums@.len() && i != j ==> sums@[i] == sums_at_j[i],
                            forall|x: int|
                                0 <= x < xx ==> sums@[j as int].evals@[x] == fadd(
                                    this_before[x],
                                    cache.gate_eval@[j as int].evals@[x],
                                ),
                            forall|x: int|
                                xx <= x < nv ==> sums@[j as int].evals@[x] == this_before[x],
                        decreases nv - xx,
                    {
                        let v = scalar_add(sums[j].evals[xx], cache.gate_eval[j].evals[xx]);
                        sums[j].evals[xx] = v;
                        xx = xx + 1;
                    }
                    proof {
                        assert forall|i: int|
                            0 <= i < sums@.len() implies (#[trigger] sums@[i]).evals@.len()
                                == sums_before[i].evals@.len() by {
                            if i != j {
                                assert(sums@[i] == sums_at_j[i]);
                                assert(sums_at_j[i].evals@.len() == sums_before[i].evals@.len());
                            } else {
                                assert(sums@[i].evals@.len() == nv);
                                assert(sums_at_j[i].evals@.len() == sums_before[i].evals@.len());
                            }
                        }
                        assert forall|i: int, x: int|
                            j + 1 <= i < sums@.len() && 0 <= x < sums@[i].evals@.len()
                                implies sums@[i].evals@[x] == sums_before[i].evals@[x] by {
                            assert(sums@[i] == sums_at_j[i]);
                            assert(sums_at_j[i].evals@[x] == sums_before[i].evals@[x]);
                        }
                        assert forall|i: int, x: int|
                            0 <= i < j + 1 && 0 <= x < sums@[i].evals@.len()
                                implies sums@[i].evals@[x] == fadd(
                                sums_before[i].evals@[x],
                                cache.gate_eval@[i].evals@[x],
                            ) by {
                            if i < j {
                                assert(sums@[i] == sums_at_j[i]);
                                assert(sums_at_j[i].evals@[x] == fadd(
                                    sums_before[i].evals@[x],
                                    cache.gate_eval@[i].evals@[x],
                                ));
                            } else {
                                assert(sums@[i].evals@[x] == fadd(
                                    this_before[x],
                                    cache.gate_eval@[j as int].evals@[x],
                                ));
                                assert(this_before[x] == sums_before[i].evals@[x]);
                            }
                        }
                    }
                    j = j + 1;
                }
            }
            row = row + 1;
        }

        // Weight each constraint's samples by the interpolated `ys`
        // coefficient, interpolate to coefficients, and accumulate; track the
        // endpoint sums directly.
        let n_polys = gate.polys.len();
        let ghost base_k = k as int;
        let ghost e_zero_start = e_zero;
        let ghost e_one_start = e_one;
        let ghost coeffs_start = e_coeffs@;
        proof {
            crate::keygen::lemma_gate_constraints_prefix_bound(pk.gates@, g + 1);
            assert(pk.gates@.subrange(0, g + 1).drop_last() =~= pk.gates@.subrange(0, g as int));
            assert(pk.gates@.subrange(0, g + 1).last() == pk.gates@[g as int]);
        }
        let mut j: usize = 0;
        while j < n_polys
            invariant
                j <= n_polys,
                n_polys == gate.polys@.len(),
                cache.wf(),
                cache.gate == gate,
                cache.num_extra == 1,
                k as int == base_k + j,
                base_k + n_polys as int == spec_gate_constraints(pk.gates@.subrange(0, g + 1)),
                e_zero == spec_gate_error_from(*gate, *pk, *acc0, base_k, e_zero_start, j as int),
                e_one == spec_gate_error_from(*gate, *pk, *acc1, base_k, e_one_start, j as int),
                e_coeffs@.len() == n_samples,
                e_coeffs@ == spec_gate_coeffs_from(
                    *gate,
                    *pk,
                    *acc0,
                    *acc1,
                    base_k,
                    coeffs_start,
                    j as int,
                ),
                forall|i: int, x: int|
                    0 <= i < sums@.len() && 0 <= x < sums@[i].evals@.len() ==> sums@[i].evals@[x]
                        == spec_sample_row_sum(
                        *gate,
                        i,
                        *pk,
                        *acc0,
                        *acc1,
                        x as nat,
                        pk.num_rows as int,
                    ),
                sums@.len() == gate.polys@.len(),
                forall|i: int|
                    0 <= i < sums@.len() ==> (#[trigger] sums@[i]).evals@.len()
                        == cache.num_evals@[i],
                forall|i: int|
                    0 <= i < sums@.len() ==> (#[trigger] sums@[i]).evals@[0] == spec_poly_row_sum(
                        *gate,
                        i,
                        *pk,
                        *acc0,
                        pk.num_rows as int,
                    ),
                forall|i: int|
                    0 <= i < sums@.len() ==> (#[trigger] sums@[i]).evals@[1] == spec_poly_row_sum(
                        *gate,
                        i,
                        *pk,
                        *acc1,
                        pk.num_rows as int,
                    ),
            decreases n_polys - j,
        {
            let nv = sums[j].evals.len();
            proof {
                crate::keygen::lemma_seq_max_ge(gate.degrees@, j as int);
            }
            let mut w: Vec<Fr> = Vec::new();
            let mut xx: usize = 0;
            while xx < nv
                invariant
                    xx <= nv,
                    0 <= j < sums@.len(),
                    nv == sums@[j as int].evals@.len(),
                    nv <= n_samples,
                    w@.len() == xx,
                    forall|x: int|
                        0 <= x < xx ==> w@[x] == fmul(
                            line_buf(acc0.ys@, acc1.ys@, x as nat)[k as int],
                            sums@[j as int].evals@[x],
                        ),
                decreases nv - xx,
            {
                w.push(scalar_mul(ys_evals[xx][k], sums[j].evals[xx]));
                xx = xx + 1;
            }
            proof {
                assert(w@ =~= spec_weighted_samples(
                    *gate,
                    j as int,
                    *pk,
                    *acc0,
                    *acc1,
                    k as int,
                    (gate.degrees@[j as int] + 2) as nat,
                ));
            }
            let cj = lagrange_coeffs(&w);
            let ghost pre_coeffs = e_coeffs@;
            let mut t: usize = 0;
            while t < nv
                invariant
                    t <= nv,
                    nv <= n_samples,
                    cj@.len() == nv,
                    e_coeffs@.len() == n_samples,
                    pre_coeffs.len() == n_samples,
                    forall|u: int| 0 <= u < t ==> e_coeffs@[u] == fadd(pre_coeffs[u], cj@[u]),
                    forall|u: int| t <= u < n_samples ==> e_coeffs@[u] == pre_coeffs[u],
                decreases nv - t,
            {
                let v = scalar_add(e_coeffs[t], cj[t]);
                e_coeffs[t] = v;
                t = t + 1;
            }
            proof {
                assert(e_coeffs@ =~= spec_gate_coeffs_from(
                    *gate,
                    *pk,
                    *acc0,
                    *acc1,
                    base_k,
                    coeffs_start,
                    j + 1,
                ));
            }
            let w0 = scalar_mul(acc0.ys[k], sums[j].evals[0]);
            e_zero = scalar_add(e_zero, w0);
            let w1 = scalar_mul(acc1.ys[k], sums[j].evals[1]);
            e_one = scalar_add(e_one, w1);
            k = k + 1;
            j = j + 1;
        }
        proof {
            assert(e_zero == spec_error_value_upto(*pk, *acc0, g + 1));
            assert(e_one == spec_error_value_upto(*pk, *acc1, g + 1));
            assert(e_coeffs@ == spec_error_coeffs_upto(*pk, *acc0, *acc1, g + 1));
        }
        g = g + 1;
    }
    proof {
        assert(pk.gates@.subrange(0, pk.gates@.len() as int) =~= pk.gates@);
    }
    (e_coeffs, e_zero, e_one)
}

} // verus!
