//! The verifier's view of an accumulator.
//!
//! The verifier keeps commitments where the prover keeps column polynomials;
//! instance columns stay verbatim because they are public. Reading a fresh
//! accumulator off the transcript and folding two accumulators under a
//! squeezed challenge both live here.

use vstd::prelude::*;

use halo2curves::bn256::{Fr, G1Affine};

use crate::curve::{g1_identity, plerp, plin2, plin3, point_lerp, point_lin2, point_lin3, pt_is_id};
use crate::keygen::{pk_wf, spec_num_folding_constraints, ProvingKey};
use crate::poly::{eval_polynomial, spec_horner};
use crate::scalar::{
    flerp, fmul, fr_u64, fsub, scalar_from_u64, scalar_lerp, scalar_mul, scalar_powers, scalar_sub,
};
use crate::transcript::TranscriptReader;
use crate::Error;

verus! {

/// The lookup-argument state carried inside an accumulator, in commitment
/// form: the multiplicity commitment `m`, the challenge `r`, the powers of
/// `theta`, and the `g`/`h` commitments.
pub struct LookupAccumulator {
    /// Commitment to the multiplicity polynomial.
    pub m: G1Affine,
    /// The lookup challenge `r`.
    pub r: Fr,
    /// Powers of the lookup compression challenge, one per input expression.
    pub thetas: Vec<Fr>,
    /// Commitment to the `g` polynomial.
    pub g: G1Affine,
    /// Commitment to the `h` polynomial.
    pub h: G1Affine,
}

/// A relaxed instance as the verifier sees it: public instance values,
/// commitments for everything the prover holds as polynomials, the challenge
/// and error state of the relaxation.
pub struct VerifierAccumulator {
    /// Instance column values, kept verbatim.
    pub instance: Vec<Vec<Fr>>,
    /// Advice column commitments.
    pub advice: Vec<G1Affine>,
    /// The base challenges, one per circuit challenge.
    pub challenges: Vec<Fr>,
    /// Lookup argument state, one record per lookup.
    pub lookup_accumulators: Vec<LookupAccumulator>,
    /// The `beta` challenge.
    pub beta: Fr,
    /// Commitment to the `beta` powers.
    pub beta_commitment: G1Affine,
    /// Accumulated error commitment for the `beta` relation.
    pub beta_error: G1Affine,
    /// Powers of the random-linear-combination challenge `y`.
    pub ys: Vec<Fr>,
    /// The accumulated scalar error.
    pub error: Fr,
}

/// The verifier accumulator's shape agrees with the key.
pub open spec fn vacc_shape(a: VerifierAccumulator, pk: ProvingKey) -> bool {
    &&& a.instance@.len() == pk.num_instance_columns
    &&& a.advice@.len() == pk.num_advice_columns
    &&& a.challenges@.len() == pk.num_challenges
    &&& a.lookup_accumulators@.len() == pk.lookups@.len()
    &&& forall|l: int|
        0 <= l < a.lookup_accumulators@.len() ==> (#[trigger] a.lookup_accumulators@[l]).thetas@.len()
            == pk.lookups@[l]
    &&& a.ys@.len() == spec_num_folding_constraints(pk)
}

/// Two verifier accumulators have the same shape, so they can be folded.
pub open spec fn vacc_shape_match(a: VerifierAccumulator, b: VerifierAccumulator) -> bool {
    &&& a.instance@.len() == b.instance@.len()
    &&& forall|c: int|
        0 <= c < a.instance@.len() ==> (#[trigger] a.instance@[c])@.len() == b.instance@[c]@.len()
    &&& a.advice@.len() == b.advice@.len()
    &&& a.challenges@.len() == b.challenges@.len()
    &&& a.lookup_accumulators@.len() == b.lookup_accumulators@.len()
    &&& forall|l: int|
        0 <= l < a.lookup_accumulators@.len() ==> (#[trigger] a.lookup_accumulators@[l]).thetas@.len()
            == b.lookup_accumulators@[l].thetas@.len()
    &&& a.ys@.len() == b.ys@.len()
}

/// Field-by-field equality of two verifier accumulators, commitments included.
pub open spec fn vacc_eq(a: VerifierAccumulator, b: VerifierAccumulator) -> bool {
    &&& a.instance@.len() == b.instance@.len()
    &&& forall|c: int| 0 <= c < a.instance@.len() ==> (#[trigger] a.instance@[c])@ == b.instance@[c]@
    &&& a.advice@ == b.advice@
    &&& a.challenges@ == b.challenges@
    &&& a.lookup_accumulators@.len() == b.lookup_accumulators@.len()
    &&& forall|l: int|
        0 <= l < a.lookup_accumulators@.len() ==> {
            let x = #[trigger] a.lookup_accumulators@[l];
            let y = b.lookup_accumulators@[l];
            &&& x.m == y.m
            &&& x.r == y.r
            &&& x.thetas@ == y.thetas@
            &&& x.g == y.g
            &&& x.h == y.h
        }
    &&& a.beta == b.beta
    &&& a.beta_commitment == b.beta_commitment
    &&& a.beta_error == b.beta_error
    &&& a.ys@ == b.ys@
    &&& a.error == b.error
}

/// How many of the first `upto` phase entries equal `p`.
pub open spec fn spec_count_eq(phases: Seq<u8>, p: int, upto: int) -> nat
    decreases upto,
{
    if upto <= 0 {
        0
    } else {
        spec_count_eq(phases, p, upto - 1) + if phases[upto - 1] as int == p {
            1nat
        } else {
            0nat
        }
    }
}

/// How many of the first `upto` phase entries are at most `p`.
pub open spec fn spec_count_le(phases: Seq<u8>, p: int, upto: int) -> nat
    decreases upto,
{
    if upto <= 0 {
        0
    } else {
        spec_count_le(phases, p, upto - 1) + if phases[upto - 1] as int <= p {
            1nat
        } else {
            0nat
        }
    }
}

/// Raising the bound by one adds exactly the entries equal to the new bound.
pub proof fn lemma_count_le_step(phases: Seq<u8>, p: int, upto: int)
    requires
        0 <= upto,
    ensures
        spec_count_le(phases, p, upto) == spec_count_le(phases, p - 1, upto) + spec_count_eq(
            phases,
            p,
            upto,
        ),
    decreases upto,
{
    if upto > 0 {
        lemma_count_le_step(phases, p, upto - 1);
    }
}

/// A negative bound counts nothing.
pub proof fn lemma_count_le_none(phases: Seq<u8>, p: int, upto: int)
    requires
        0 <= upto,
        p < 0,
    ensures
        spec_count_le(phases, p, upto) == 0,
    decreases upto,
{
    if upto > 0 {
        lemma_count_le_none(phases, p, upto - 1);
    }
}

/// A bound above every entry counts them all.
pub proof fn lemma_count_le_all(phases: Seq<u8>, p: int, upto: int)
    requires
        0 <= upto <= phases.len(),
        forall|c: int| 0 <= c < upto ==> (#[trigger] phases[c]) as int <= p,
    ensures
        spec_count_le(phases, p, upto) == upto,
    decreases upto,
{
    if upto > 0 {
        lemma_count_le_all(phases, p, upto - 1);
    }
}

/// The count never exceeds the range counted over.
pub proof fn lemma_count_eq_bound(phases: Seq<u8>, p: int, upto: int)
    requires
        0 <= upto,
    ensures
        spec_count_eq(phases, p, upto) <= upto,
    decreases upto,
{
    if upto > 0 {
        lemma_count_eq_bound(phases, p, upto - 1);
    }
}

/// The bounded count never exceeds the range counted over.
pub proof fn lemma_count_le_bound(phases: Seq<u8>, p: int, upto: int)
    requires
        0 <= upto,
    ensures
        spec_count_le(phases, p, upto) <= upto,
    decreases upto,
{
    if upto > 0 {
        lemma_count_le_bound(phases, p, upto - 1);
    }
}

/// How many 32-byte point reads a fresh accumulator takes off the transcript:
/// one per advice column, three per lookup, and the `beta` commitment.
pub open spec fn spec_reads(pk: ProvingKey) -> int {
    pk.num_advice_columns + 3 * pk.lookups@.len() + 1
}

/// The position, among all point reads, of advice column `c`: columns are read
/// phase by phase in ascending column order within each phase.
pub open spec fn spec_advice_read_pos(phases: Seq<u8>, c: int) -> int {
    spec_count_le(phases, phases[c] as int - 1, phases.len() as int) as int + spec_count_eq(
        phases,
        phases[c] as int,
        c,
    ) as int
}

/// The decoded point at 32-byte read slot `t` of a proof, counted from the
/// byte offset `off0`.
pub open spec fn spec_point_at(proof: Seq<u8>, off0: int, t: int) -> Option<G1Affine> {
    crate::curve::pt_of_bytes(proof.subrange(off0 + 32 * t, off0 + 32 * t + 32))
}

/// The proof is long enough for every point read a fresh accumulator takes,
/// and every one of those 32-byte slots decodes as a point.
pub open spec fn spec_wire_decodes(pk: ProvingKey, proof: Seq<u8>, off0: int) -> bool {
    &&& off0 + 32 * spec_reads(pk) <= proof.len()
    &&& forall|t: int| 0 <= t < spec_reads(pk) ==> #[trigger] spec_point_at(proof, off0, t) is Some
}

/// Counting over a longer prefix counts at least as much.
pub proof fn lemma_count_eq_mono(phases: Seq<u8>, p: int, a: int, b: int)
    requires
        0 <= a <= b,
    ensures
        spec_count_eq(phases, p, a) <= spec_count_eq(phases, p, b),
    decreases b,
{
    if b > a {
        lemma_count_eq_mono(phases, p, a, b - 1);
    }
}

/// Appending bytes to a proof leaves every complete 32-byte slot before the
/// old end unchanged.
pub proof fn lemma_slots_stable(pre: Seq<u8>, ext: Seq<u8>, base: int, n: int)
    requires
        0 <= base,
        0 <= n,
        base + 32 * n <= pre.len(),
    ensures
        forall|t: int|
            0 <= t < n ==> #[trigger] spec_point_at(pre + ext, base, t) == spec_point_at(
                pre,
                base,
                t,
            ),
{
    assert forall|t: int| 0 <= t < n implies #[trigger] spec_point_at(pre + ext, base, t)
        == spec_point_at(pre, base, t) by {
        assert((pre + ext).subrange(base + 32 * t, base + 32 * t + 32) =~= pre.subrange(
            base + 32 * t,
            base + 32 * t + 32,
        ));
    }
}

/// A failed read at slot `t` refutes `spec_wire_decodes`: either the proof is
/// too short for all the reads, or slot `t` does not decode.
proof fn lemma_not_wire_decodes(pk: ProvingKey, proof: Seq<u8>, off0: int, t: int, len: int)
    requires
        0 <= t < spec_reads(pk),
        len == proof.len(),
        !(off0 + 32 * t + 32 <= len && spec_point_at(proof, off0, t) is Some),
    ensures
        !spec_wire_decodes(pk, proof, off0),
{
    if spec_wire_decodes(pk, proof, off0) {
        assert(off0 + 32 * t + 32 <= off0 + 32 * spec_reads(pk));
        assert(spec_point_at(proof, off0, t) is Some);
    }
}

/// Every lookup's `thetas` are the powers of one challenge `theta`.
pub open spec fn lookups_powers_of(
    ls: Seq<LookupAccumulator>,
    counts: Seq<usize>,
    theta: Fr,
) -> bool {
    forall|l: int|
        0 <= l < ls.len() ==> (#[trigger] ls[l]).thetas@ == crate::scalar::spec_powers_seq(
            theta,
            counts[l] as nat,
        )
}

/// Every lookup shares one challenge `r`.
pub open spec fn lookups_share_r(ls: Seq<LookupAccumulator>, rc: Fr) -> bool {
    forall|l: int| 0 <= l < ls.len() ==> (#[trigger] ls[l]).r == rc
}

/// Equality of every interpolated field of two verifier accumulators: all of
/// `vacc_eq` except the scalar error and the `beta`-error commitment, whose
/// self-fold reproduction rests on interpolation and group identities outside
/// the trusted layer's stated facts.
pub open spec fn vacc_lerped_eq(a: VerifierAccumulator, b: VerifierAccumulator) -> bool {
    &&& a.instance@.len() == b.instance@.len()
    &&& forall|c: int| 0 <= c < a.instance@.len() ==> (#[trigger] a.instance@[c])@ == b.instance@[c]@
    &&& a.advice@ == b.advice@
    &&& a.challenges@ == b.challenges@
    &&& a.lookup_accumulators@.len() == b.lookup_accumulators@.len()
    &&& forall|l: int|
        0 <= l < a.lookup_accumulators@.len() ==> {
            let x = #[trigger] a.lookup_accumulators@[l];
            let y = b.lookup_accumulators@[l];
            &&& x.m == y.m
            &&& x.r == y.r
            &&& x.thetas@ == y.thetas@
            &&& x.g == y.g
            &&& x.h == y.h
        }
    &&& a.beta == b.beta
    &&& a.beta_commitment == b.beta_commitment
    &&& a.ys@ == b.ys@
}

/// The folded error scalar: `alpha (1 - alpha) e'(alpha) + (1 - alpha) e0 +
/// alpha e1`, with `e'` given by its ascending coefficients.
pub open spec fn spec_folded_error(e0: Fr, e1: Fr, coeffs: Seq<Fr>, alpha: Fr) -> Fr {
    let one = fr_u64(1);
    fadd_chain(
        fmul(fmul(alpha, fsub(one, alpha)), spec_horner(coeffs, alpha)),
        fmul(fsub(one, alpha), e0),
        fmul(alpha, e1),
    )
}

/// `(a + b) + c`, in the order the fold computes it.
pub open spec fn fadd_chain(a: Fr, b: Fr, c: Fr) -> Fr {
    crate::scalar::fadd(crate::scalar::fadd(a, b), c)
}

/// The folded `beta` error commitment: the cross-term formula
/// `(1-alpha) be0 + alpha be1 + alpha (1-alpha) (C0 (b1-b0) + C1 (b0-b1))`.
pub open spec fn spec_folded_beta_error(
    a0: VerifierAccumulator,
    a1: VerifierAccumulator,
    alpha: Fr,
) -> G1Affine {
    let one = fr_u64(1);
    let quot = plin2(
        a0.beta_commitment,
        fsub(a1.beta, a0.beta),
        a1.beta_commitment,
        fsub(a0.beta, a1.beta),
    );
    plin3(
        a0.beta_error,
        fsub(one, alpha),
        a1.beta_error,
        alpha,
        quot,
        fmul(fsub(one, alpha), alpha),
    )
}

/// What a fold produces: every scalar and commitment of the accumulator is
/// interpolated along the line between the two inputs at `alpha`, and the
/// error is reconciled through the quotient polynomial's coefficients.
pub open spec fn vacc_folded(
    f: VerifierAccumulator,
    a0: VerifierAccumulator,
    a1: VerifierAccumulator,
    coeffs: Seq<Fr>,
    alpha: Fr,
) -> bool {
    &&& f.error == spec_folded_error(a0.error, a1.error, coeffs, alpha)
    &&& f.instance@.len() == a0.instance@.len()
    &&& forall|c: int|
        0 <= c < f.instance@.len() ==> (#[trigger] f.instance@[c])@.len() == a0.instance@[c]@.len()
    &&& forall|c: int, r: int|
        0 <= c < f.instance@.len() && 0 <= r < f.instance@[c]@.len() ==> f.instance@[c]@[r] == flerp(
            a0.instance@[c]@[r],
            a1.instance@[c]@[r],
            alpha,
        )
    &&& f.advice@.len() == a0.advice@.len()
    &&& forall|c: int|
        0 <= c < f.advice@.len() ==> f.advice@[c] == plerp(a0.advice@[c], a1.advice@[c], alpha)
    &&& f.challenges@.len() == a0.challenges@.len()
    &&& forall|c: int|
        0 <= c < f.challenges@.len() ==> f.challenges@[c] == flerp(
            a0.challenges@[c],
            a1.challenges@[c],
            alpha,
        )
    &&& f.lookup_accumulators@.len() == a0.lookup_accumulators@.len()
    &&& forall|l: int|
        0 <= l < f.lookup_accumulators@.len() ==> {
            let x = #[trigger] f.lookup_accumulators@[l];
            let p = a0.lookup_accumulators@[l];
            let q = a1.lookup_accumulators@[l];
            &&& x.m == plerp(p.m, q.m, alpha)
            &&& x.g == plerp(p.g, q.g, alpha)
            &&& x.h == plerp(p.h, q.h, alpha)
            &&& x.r == flerp(p.r, q.r, alpha)
            &&& x.thetas@.len() == p.thetas@.len()
            &&& forall|t: int|
                0 <= t < x.thetas@.len() ==> x.thetas@[t] == flerp(
                    p.thetas@[t],
                    q.thetas@[t],
                    alpha,
                )
        }
    &&& f.beta == flerp(a0.beta, a1.beta, alpha)
    &&& f.beta_commitment == plerp(a0.beta_commitment, a1.beta_commitment, alpha)
    &&& f.beta_error == spec_folded_beta_error(a0, a1, alpha)
    &&& f.ys@.len() == a0.ys@.len()
    &&& forall|k: int|
        0 <= k < f.ys@.len() ==> f.ys@[k] == flerp(a0.ys@[k], a1.ys@[k], alpha)
}

/// Interpolate two parallel scalar vectors entrywise.
pub fn lerp_scalars(v0: &Vec<Fr>, v1: &Vec<Fr>, alpha: Fr) -> (r: Vec<Fr>)
    requires
        v0@.len() == v1@.len(),
    ensures
        r@.len() == v0@.len(),
        forall|k: int| 0 <= k < r@.len() ==> r@[k] == flerp(v0@[k], v1@[k], alpha),
        alpha == fr_u64(0) ==> r@ == v0@,
        alpha == fr_u64(1) ==> r@ == v1@,
        v0@ == v1@ ==> r@ == v0@,
{
    let n = v0.len();
    let mut out: Vec<Fr> = Vec::new();
    let mut k: usize = 0;
    while k < n
        invariant
            k <= n,
            n == v0@.len(),
            n == v1@.len(),
            out@.len() == k,
            forall|i: int| 0 <= i < k ==> out@[i] == flerp(v0@[i], v1@[i], alpha),
            alpha == fr_u64(0) ==> forall|i: int| 0 <= i < k ==> out@[i] == v0@[i],
            alpha == fr_u64(1) ==> forall|i: int| 0 <= i < k ==> out@[i] == v1@[i],
            v0@ == v1@ ==> forall|i: int| 0 <= i < k ==> out@[i] == v0@[i],
        decreases n - k,
    {
        out.push(scalar_lerp(v0[k], v1[k], alpha));
        k = k + 1;
    }
    proof {
        if alpha == fr_u64(0) {
            assert(out@ =~= v0@);
        }
        if alpha == fr_u64(1) {
            assert(out@ =~= v1@);
        }
        if v0@ == v1@ {
            assert(out@ =~= v0@);
        }
    }
    out
}

/// Interpolate two parallel commitment vectors entrywise, in the group.
pub fn lerp_points(v0: &Vec<G1Affine>, v1: &Vec<G1Affine>, alpha: Fr) -> (r: Vec<G1Affine>)
    requires
        v0@.len() == v1@.len(),
    ensures
        r@.len() == v0@.len(),
        forall|k: int| 0 <= k < r@.len() ==> r@[k] == plerp(v0@[k], v1@[k], alpha),
        alpha == fr_u64(0) ==> r@ == v0@,
        alpha == fr_u64(1) ==> r@ == v1@,
        v0@ == v1@ ==> r@ == v0@,
{
    let n = v0.len();
    let mut out: Vec<G1Affine> = Vec::new();
    let mut k: usize = 0;
    while k < n
        invariant
            k <= n,
            n == v0@.len(),
            n == v1@.len(),
            out@.len() == k,
            forall|i: int| 0 <= i < k ==> out@[i] == plerp(v0@[i], v1@[i], alpha),
            alpha == fr_u64(0) ==> forall|i: int| 0 <= i < k ==> out@[i] == v0@[i],
            alpha == fr_u64(1) ==> forall|i: int| 0 <= i < k ==> out@[i] == v1@[i],
            v0@ == v1@ ==> forall|i: int| 0 <= i < k ==> out@[i] == v0@[i],
        decreases n - k,
    {
        out.push(point_lerp(v0[k], v1[k], alpha));
        k = k + 1;
    }
    proof {
        if alpha == fr_u64(0) {
            assert(out@ =~= v0@);
        }
        if alpha == fr_u64(1) {
            assert(out@ =~= v1@);
        }
        if v0@ == v1@ {
            assert(out@ =~= v0@);
        }
    }
    out
}

/// An owned copy of a commitment vector.
pub fn copy_points(v: &Vec<G1Affine>) -> (r: Vec<G1Affine>)
    ensures
        r@ == v@,
{
    let mut out: Vec<G1Affine> = Vec::new();
    let mut i: usize = 0;
    while i < v.len()
        invariant
            i <= v@.len(),
            out@.len() == i,
            forall|k: int| 0 <= k < i ==> out@[k] == v@[k],
        decreases v@.len() - i,
    {
        out.push(v[i]);
        i = i + 1;
    }
    proof {
        assert(out@ =~= v@);
    }
    out
}

/// An owned copy of a column matrix.
pub fn copy_matrix(v: &Vec<Vec<Fr>>) -> (r: Vec<Vec<Fr>>)
    ensures
        r@.len() == v@.len(),
        forall|c: int| 0 <= c < r@.len() ==> (#[trigger] r@[c])@ == v@[c]@,
{
    let mut out: Vec<Vec<Fr>> = Vec::new();
    let mut i: usize = 0;
    while i < v.len()
        invariant
            i <= v@.len(),
            out@.len() == i,
            forall|k: int| 0 <= k < i ==> (#[trigger] out@[k])@ == v@[k]@,
        decreases v@.len() - i,
    {
        out.push(crate::error_check::copy_scalars(&v[i]));
        i = i + 1;
    }
    out
}

/// An owned copy of the lookup state.
pub fn copy_lookups(v: &Vec<LookupAccumulator>) -> (r: Vec<LookupAccumulator>)
    ensures
        r@.len() == v@.len(),
        forall|l: int|
            0 <= l < r@.len() ==> {
                let x = #[trigger] r@[l];
                let y = v@[l];
                &&& x.m == y.m
                &&& x.r == y.r
                &&& x.thetas@ == y.thetas@
                &&& x.g == y.g
                &&& x.h == y.h
            },
{
    let mut out: Vec<LookupAccumulator> = Vec::new();
    let mut i: usize = 0;
    while i < v.len()
        invariant
            i <= v@.len(),
            out@.len() == i,
            forall|l: int|
                0 <= l < i ==> {
                    let x = #[trigger] out@[l];
                    let y = v@[l];
                    &&& x.m == y.m
                    &&& x.r == y.r
                    &&& x.thetas@ == y.thetas@
                    &&& x.g == y.g
                    &&& x.h == y.h
                },
        decreases v@.len() - i,
    {
        let p = &v[i];
        out.push(
            LookupAccumulator {
                m: p.m,
                r: p.r,
                thetas: crate::error_check::copy_scalars(&p.thetas),
                g: p.g,
                h: p.h,
            },
        );
        i = i + 1;
    }
    out
}

impl VerifierAccumulator {
    /// An owned, field-by-field copy.
    pub fn duplicate(&self) -> (r: VerifierAccumulator)
        ensures
            vacc_eq(r, *self),
    {
        VerifierAccumulator {
            instance: copy_matrix(&self.instance),
            advice: copy_points(&self.advice),
            challenges: crate::error_check::copy_scalars(&self.challenges),
            lookup_accumulators: copy_lookups(&self.lookup_accumulators),
            beta: self.beta,
            beta_commitment: self.beta_commitment,
            beta_error: self.beta_error,
            ys: crate::error_check::copy_scalars(&self.ys),
            error: self.error,
        }
    }

    /// Fold two verifier accumulators under a known challenge and quotient
    /// polynomial: every element is interpolated at `alpha`, and the folded
    /// error reconciles the quotient. Folding at `alpha = 0` returns the first
    /// accumulator, field by field; at `alpha = 1`, the second.
    pub fn fold_with(
        acc0: &VerifierAccumulator,
        acc1: &VerifierAccumulator,
        coeffs: &Vec<Fr>,
        alpha: Fr,
    ) -> (f: VerifierAccumulator)
        requires
            vacc_shape_match(*acc0, *acc1),
        ensures
            vacc_folded(f, *acc0, *acc1, coeffs@, alpha),
            alpha == fr_u64(0) ==> vacc_eq(f, *acc0),
            alpha == fr_u64(1) ==> vacc_eq(f, *acc1),
            vacc_eq(*acc0, *acc1) ==> vacc_lerped_eq(f, *acc0),
    {
        let one = scalar_from_u64(1);
        let one_minus_alpha = scalar_sub(one, alpha);

        // Error: evaluate the quotient and reconcile with the endpoints.
        let q = eval_polynomial(coeffs, alpha);
        let t1 = scalar_mul(scalar_mul(alpha, one_minus_alpha), q);
        let t2 = scalar_mul(one_minus_alpha, acc0.error);
        let t3 = scalar_mul(alpha, acc1.error);
        let error = crate::scalar::scalar_add(crate::scalar::scalar_add(t1, t2), t3);

        // Instance columns, entry by entry.
        let n_cols = acc0.instance.len();
        let mut instance: Vec<Vec<Fr>> = Vec::new();
        let mut c: usize = 0;
        while c < n_cols
            invariant
                c <= n_cols,
                n_cols == acc0.instance@.len(),
                vacc_shape_match(*acc0, *acc1),
                instance@.len() == c,
                forall|i: int|
                    0 <= i < c ==> (#[trigger] instance@[i])@.len() == acc0.instance@[i]@.len(),
                forall|i: int, r: int|
                    0 <= i < c && 0 <= r < instance@[i]@.len() ==> instance@[i]@[r] == flerp(
                        acc0.instance@[i]@[r],
                        acc1.instance@[i]@[r],
                        alpha,
                    ),
                alpha == fr_u64(0) ==> forall|i: int|
                    0 <= i < c ==> (#[trigger] instance@[i])@ == acc0.instance@[i]@,
                alpha == fr_u64(1) ==> forall|i: int|
                    0 <= i < c ==> (#[trigger] instance@[i])@ == acc1.instance@[i]@,
                vacc_eq(*acc0, *acc1) ==> forall|i: int|
                    0 <= i < c ==> (#[trigger] instance@[i])@ == acc0.instance@[i]@,
            decreases n_cols - c,
        {
            instance.push(lerp_scalars(&acc0.instance[c], &acc1.instance[c], alpha));
            c = c + 1;
        }

        let advice = lerp_points(&acc0.advice, &acc1.advice, alpha);
        let challenges = lerp_scalars(&acc0.challenges, &acc1.challenges, alpha);
        let ys = lerp_scalars(&acc0.ys, &acc1.ys, alpha);

        // Lookup state, record by record.
        let n_lookups = acc0.lookup_accumulators.len();
        let mut lookups: Vec<LookupAccumulator> = Vec::new();
        let mut l: usize = 0;
        while l < n_lookups
            invariant
                l <= n_lookups,
                n_lookups == acc0.lookup_accumulators@.len(),
                vacc_shape_match(*acc0, *acc1),
                lookups@.len() == l,
                forall|i: int|
                    0 <= i < l ==> {
                        let x = #[trigger] lookups@[i];
                        let p = acc0.lookup_accumulators@[i];
                        let q2 = acc1.lookup_accumulators@[i];
                        &&& x.m == plerp(p.m, q2.m, alpha)
                        &&& x.g == plerp(p.g, q2.g, alpha)
                        &&& x.h == plerp(p.h, q2.h, alpha)
                        &&& x.r == flerp(p.r, q2.r, alpha)
                        &&& x.thetas@.len() == p.thetas@.len()
                        &&& forall|t: int|
                            0 <= t < x.thetas@.len() ==> x.thetas@[t] == flerp(
                                p.thetas@[t],
                                q2.thetas@[t],
                                alpha,
                            )
                    },
                alpha == fr_u64(0) ==> forall|i: int|
                    0 <= i < l ==> {
                        let x = #[trigger] lookups@[i];
                        let p = acc0.lookup_accumulators@[i];
                        x.m == p.m && x.g == p.g && x.h == p.h && x.r == p.r && x.thetas@
                            == p.thetas@
                    },
                alpha == fr_u64(1) ==> forall|i: int|
                    0 <= i < l ==> {
                        let x = #[trigger] lookups@[i];
                        let q2 = acc1.lookup_accumulators@[i];
                        x.m == q2.m && x.g == q2.g && x.h == q2.h && x.r == q2.r && x.thetas@
                            == q2.thetas@
                    },
                vacc_eq(*acc0, *acc1) ==> forall|i: int|
                    0 <= i < l ==> {
                        let x = #[trigger] lookups@[i];
                        let p = acc0.lookup_accumulators@[i];
                        x.m == p.m && x.g == p.g && x.h == p.h && x.r == p.r && x.thetas@
                            == p.thetas@
                    },
            decreases n_lookups - l,
        {
            let p = &acc0.lookup_accumulators[l];
            let q2 = &acc1.lookup_accumulators[l];
            let folded = LookupAccumulator {
                m: point_lerp(p.m, q2.m, alpha),
                r: scalar_lerp(p.r, q2.r, alpha),
                thetas: lerp_scalars(&p.thetas, &q2.thetas, alpha),
                g: point_lerp(p.g, q2.g, alpha),
                h: point_lerp(p.h, q2.h, alpha),
            };
            lookups.push(folded);
            l = l + 1;
        }

        // The beta state: challenge and commitment interpolate; the error
        // commitment takes the cross term.
        let beta = scalar_lerp(acc0.beta, acc1.beta, alpha);
        let beta_commitment = point_lerp(acc0.beta_commitment, acc1.beta_commitment, alpha);
        let quot = point_lin2(
            acc0.beta_commitment,
            scalar_sub(acc1.beta, acc0.beta),
            acc1.beta_commitment,
            scalar_sub(acc0.beta, acc1.beta),
        );
        let beta_error = point_lin3(
            acc0.beta_error,
            one_minus_alpha,
            acc1.beta_error,
            alpha,
            quot,
            scalar_mul(one_minus_alpha, alpha),
        );

        VerifierAccumulator {
            instance,
            advice,
            challenges,
            lookup_accumulators: lookups,
            beta,
            beta_commitment,
            beta_error,
            ys,
            error,
        }
    }

    /// Read a fresh accumulator off the transcript: absorb the public instance
    /// values, read the advice commitments phase by phase with their
    /// challenges squeezed in between, read the lookup commitments with their
    /// challenges, then the `beta` commitment and the
    /// random-linear-combination challenge `y`. The fresh accumulator starts
    /// with a zero error and the identity `beta`-error commitment.
    ///
    /// Fails with `InvalidInstances` exactly when the instance column count
    /// does not match the key, leaving the transcript untouched; otherwise it
    /// succeeds exactly when every 32-byte slot the wire order demands decodes
    /// as a point, and every read-back commitment is pinned to its slot:
    /// advice columns in phase order, then the lookup `m` commitments, then
    /// each lookup's `g` and `h`, then the `beta` commitment.
    #[verifier::loop_isolation(false)]
    #[verifier::spinoff_prover]
    #[verifier::rlimit(100)]
    pub fn new_from_prover(
        transcript: &mut TranscriptReader,
        instances: &Vec<Vec<Fr>>,
        pk: &ProvingKey,
    ) -> (r: Result<VerifierAccumulator, Error>)
        requires
            pk_wf(*pk),
        ensures
            (r matches Err(e) && e == Error::InvalidInstances) <==> instances@.len()
                != pk.num_instance_columns,
            instances@.len() != pk.num_instance_columns ==> *final(transcript) == *old(transcript),
            r is Err ==> (r == Err::<VerifierAccumulator, Error>(Error::InvalidInstances) || r
                == Err::<VerifierAccumulator, Error>(Error::TranscriptError)),
            final(transcript).proof@ == old(transcript).proof@,
            r is Ok <==> (instances@.len() == pk.num_instance_columns && spec_wire_decodes(
                *pk,
                old(transcript).proof@,
                old(transcript).offset as int,
            )),
            r matches Ok(a) ==> {
                &&& vacc_shape(a, *pk)
                &&& final(transcript).offset == old(transcript).offset + 32 * spec_reads(*pk)
                &&& a.instance@.len() == instances@.len()
                &&& forall|c: int|
                    0 <= c < a.instance@.len() ==> (#[trigger] a.instance@[c])@ == instances@[c]@
                &&& forall|c: int|
                    0 <= c < pk.num_advice_columns ==> Some(#[trigger] a.advice@[c])
                        == spec_point_at(
                        old(transcript).proof@,
                        old(transcript).offset as int,
                        spec_advice_read_pos(pk.advice_column_phase@, c),
                    )
                &&& forall|l: int|
                    0 <= l < pk.lookups@.len() ==> Some(
                        (#[trigger] a.lookup_accumulators@[l]).m,
                    ) == spec_point_at(
                        old(transcript).proof@,
                        old(transcript).offset as int,
                        pk.num_advice_columns + l,
                    ) && Some(a.lookup_accumulators@[l].g) == spec_point_at(
                        old(transcript).proof@,
                        old(transcript).offset as int,
                        pk.num_advice_columns + pk.lookups@.len() + 2 * l,
                    ) && Some(a.lookup_accumulators@[l].h) == spec_point_at(
                        old(transcript).proof@,
                        old(transcript).offset as int,
                        pk.num_advice_columns + pk.lookups@.len() + 2 * l + 1,
                    )
                &&& Some(a.beta_commitment) == spec_point_at(
                    old(transcript).proof@,
                    old(transcript).offset as int,
                    pk.num_advice_columns + 3 * pk.lookups@.len(),
                )
                &&& exists|theta: Fr| #[trigger] lookups_powers_of(
                    a.lookup_accumulators@,
                    pk.lookups@,
                    theta,
                )
                &&& exists|rc: Fr| #[trigger] lookups_share_r(a.lookup_accumulators@, rc)
                &&& a.error == fr_u64(0)
                &&& crate::curve::pt_is_id(a.beta_error)
                &&& a.ys@ == crate::scalar::spec_powers_seq(
                    crate::scalar::fr_wide(crate::hash::blake2b_of(final(transcript).state@)),
                    a.ys@.len(),
                )
            },
    {
        if instances.len() != pk.num_instance_columns {
            return Err(Error::InvalidInstances);
        }
        let ghost off0 = old(transcript).offset as int;
        let ghost proof0 = old(transcript).proof@;
        let ghost mut reads: int = 0;

        // Absorb the public instance values.
        let n_cols = instances.len();
        let mut instance: Vec<Vec<Fr>> = Vec::new();
        let mut c: usize = 0;
        while c < n_cols
            invariant
                c <= n_cols,
                instance@.len() == c,
                forall|i: int| 0 <= i < c ==> (#[trigger] instance@[i])@ == instances@[i]@,
                transcript.proof@ == proof0,
                transcript.offset == old(transcript).offset,
            decreases n_cols - c,
        {
            let col = &instances[c];
            let mut copied: Vec<Fr> = Vec::new();
            let mut t: usize = 0;
            while t < col.len()
                invariant
                    t <= col@.len(),
                    copied@.len() == t,
                    forall|i: int| 0 <= i < t ==> copied@[i] == col@[i],
                    transcript.proof@ == proof0,
                    transcript.offset == old(transcript).offset,
                decreases col@.len() - t,
            {
                transcript.common_scalar(&col[t]);
                copied.push(col[t]);
                t = t + 1;
            }
            proof {
                assert(copied@ =~= instances@[c as int]@);
            }
            instance.push(copied);
            c = c + 1;
        }

        // Advice commitments and challenges, phase by phase: each column is
        // read at the slot its phase and column index determine.
        let n_advice = pk.num_advice_columns;
        let n_challenges = pk.num_challenges;
        let ghost aph = pk.advice_column_phase@;
        let mut advice: Vec<G1Affine> = Vec::new();
        let mut a: usize = 0;
        while a < n_advice
            invariant
                a <= n_advice,
                advice@.len() == a,
            decreases n_advice - a,
        {
            advice.push(crate::curve::g1_identity());
            a = a + 1;
        }
        let mut challenges = crate::error_check::zero_scalar_vec(n_challenges);
        let mut max_phase: u8 = 0;
        let mut i: usize = 0;
        while i < pk.advice_column_phase.len()
            invariant
                i <= aph.len(),
                forall|t: int| 0 <= t < i ==> (#[trigger] aph[t]) <= max_phase,
            decreases pk.advice_column_phase@.len() - i,
        {
            if pk.advice_column_phase[i] > max_phase {
                max_phase = pk.advice_column_phase[i];
            }
            i = i + 1;
        }
        let mut i: usize = 0;
        while i < pk.challenge_phase.len()
            invariant
                i <= pk.challenge_phase@.len(),
                forall|t: int| 0 <= t < aph.len() ==> (#[trigger] aph[t]) <= max_phase,
            decreases pk.challenge_phase@.len() - i,
        {
            if pk.challenge_phase[i] > max_phase {
                max_phase = pk.challenge_phase[i];
            }
            i = i + 1;
        }
        let last_phase: usize = max_phase as usize;
        proof {
            lemma_count_le_none(aph, -1, n_advice as int);
        }
        let mut phase: usize = 0;
        while phase <= last_phase
            invariant
                phase <= last_phase + 1,
                advice@.len() == n_advice,
                challenges@.len() == n_challenges,
                transcript.proof@ == proof0,
                transcript.offset == off0 + 32 * reads,
                reads == spec_count_le(aph, phase as int - 1, n_advice as int),
                forall|t: int| 0 <= t < reads ==> #[trigger] spec_point_at(proof0, off0, t) is Some,
                forall|cc: int|
                    0 <= cc < n_advice && (aph[cc] as int) < phase ==> Some(#[trigger] advice@[cc])
                        == spec_point_at(proof0, off0, spec_advice_read_pos(aph, cc)),
            decreases last_phase + 1 - phase,
        {
            let mut col: usize = 0;
            while col < n_advice
                invariant
                    col <= n_advice,
                    phase <= last_phase,
                    advice@.len() == n_advice,
                    transcript.proof@ == proof0,
                    transcript.offset == off0 + 32 * reads,
                    reads == spec_count_le(aph, phase as int - 1, n_advice as int) + spec_count_eq(
                        aph,
                        phase as int,
                        col as int,
                    ),
                    forall|t: int|
                        0 <= t < reads ==> #[trigger] spec_point_at(proof0, off0, t) is Some,
                    forall|cc: int|
                        0 <= cc < n_advice && ((aph[cc] as int) < phase || ((aph[cc] as int)
                            == phase && cc < col)) ==> Some(#[trigger] advice@[cc])
                            == spec_point_at(proof0, off0, spec_advice_read_pos(aph, cc)),
                decreases n_advice - col,
            {
                if pk.advice_column_phase[col] as usize == phase {
                    proof {
                        lemma_count_le_step(aph, phase as int, n_advice as int);
                        lemma_count_eq_mono(aph, phase as int, col as int, n_advice as int);
                        lemma_count_le_bound(aph, phase as int, n_advice as int);
                    }
                    match transcript.read_point() {
                        Ok(p) => {
                            advice[col] = p;
                            proof {
                                reads = reads + 1;
                            }
                        },
                        Err(_) => {
                            proof {
                                lemma_not_wire_decodes(
                                    *pk,
                                    proof0,
                                    off0,
                                    reads,
                                    old(transcript).proof@.len() as int,
                                );
                            }
                            return Err(Error::TranscriptError);
                        },
                    }
                }
                col = col + 1;
            }
            proof {
                lemma_count_le_step(aph, phase as int, n_advice as int);
            }
            let mut ch: usize = 0;
            while ch < n_challenges
                invariant
                    ch <= n_challenges,
                    challenges@.len() == n_challenges,
                    transcript.proof@ == proof0,
                    transcript.offset == off0 + 32 * reads,
                decreases n_challenges - ch,
            {
                if pk.challenge_phase[ch] as usize == phase {
                    let v = transcript.squeeze_challenge_scalar();
                    challenges[ch] = v;
                }
                ch = ch + 1;
            }
            phase = phase + 1;
        }
        proof {
            lemma_count_le_all(aph, last_phase as int, n_advice as int);
            assert(reads == n_advice as int);
        }

        // Lookup commitments and challenges.
        let n_lookups = pk.lookups.len();
        let mut ms: Vec<G1Affine> = Vec::new();
        let mut l: usize = 0;
        while l < n_lookups
            invariant
                l <= n_lookups,
                ms@.len() == l,
                transcript.proof@ == proof0,
                transcript.offset == off0 + 32 * reads,
                reads == n_advice as int + l,
                forall|t: int| 0 <= t < reads ==> #[trigger] spec_point_at(proof0, off0, t) is Some,
                forall|i: int|
                    0 <= i < l ==> Some(#[trigger] ms@[i]) == spec_point_at(
                        proof0,
                        off0,
                        n_advice as int + i,
                    ),
            decreases n_lookups - l,
        {
            match transcript.read_point() {
                Ok(p) => {
                    ms.push(p);
                    proof {
                        reads = reads + 1;
                    }
                },
                Err(_) => {
                    proof {
                        lemma_not_wire_decodes(
                            *pk,
                            proof0,
                            off0,
                            reads,
                            old(transcript).proof@.len() as int,
                        );
                    }
                    return Err(Error::TranscriptError);
                },
            }
            l = l + 1;
        }
        let r_challenge = transcript.squeeze_challenge_scalar();
        let theta = transcript.squeeze_challenge_scalar();
        let mut lookup_accumulators: Vec<LookupAccumulator> = Vec::new();
        let mut l: usize = 0;
        while l < n_lookups
            invariant
                l <= n_lookups,
                ms@.len() == n_lookups,
                lookup_accumulators@.len() == l,
                transcript.proof@ == proof0,
                transcript.offset == off0 + 32 * reads,
                reads == n_advice as int + n_lookups as int + 2 * l,
                forall|t: int| 0 <= t < reads ==> #[trigger] spec_point_at(proof0, off0, t) is Some,
                forall|i: int|
                    0 <= i < n_lookups ==> Some(#[trigger] ms@[i]) == spec_point_at(
                        proof0,
                        off0,
                        n_advice as int + i,
                    ),
                forall|i: int|
                    0 <= i < l ==> {
                        let x = #[trigger] lookup_accumulators@[i];
                        &&& x.thetas@ == crate::scalar::spec_powers_seq(
                            theta,
                            pk.lookups@[i] as nat,
                        )
                        &&& x.r == r_challenge
                        &&& Some(x.m) == spec_point_at(proof0, off0, n_advice as int + i)
                        &&& Some(x.g) == spec_point_at(
                            proof0,
                            off0,
                            n_advice as int + n_lookups as int + 2 * i,
                        )
                        &&& Some(x.h) == spec_point_at(
                            proof0,
                            off0,
                            n_advice as int + n_lookups as int + 2 * i + 1,
                        )
                    },
            decreases n_lookups - l,
        {
            let thetas = scalar_powers(theta, pk.lookups[l]);
            proof {
                assert(thetas@ =~= crate::scalar::spec_powers_seq(theta, pk.lookups@[l as int] as nat));
            }
            let gq = match transcript.read_point() {
                Ok(p) => p,
                Err(_) => {
                    proof {
                        lemma_not_wire_decodes(
                            *pk,
                            proof0,
                            off0,
                            reads,
                            old(transcript).proof@.len() as int,
                        );
                    }
                    return Err(Error::TranscriptError);
                },
            };
            proof {
                reads = reads + 1;
            }
            let hq = match transcript.read_point() {
                Ok(p) => p,
                Err(_) => {
                    proof {
                        lemma_not_wire_decodes(
                            *pk,
                            proof0,
                            off0,
                            reads,
                            old(transcript).proof@.len() as int,
                        );
                    }
                    return Err(Error::TranscriptError);
                },
            };
            proof {
                reads = reads + 1;
            }
            lookup_accumulators.push(
                LookupAccumulator { m: ms[l], r: r_challenge, thetas, g: gq, h: hq },
            );
            l = l + 1;
        }

        // Beta state and the random-linear-combination challenge.
        let beta = transcript.squeeze_challenge_scalar();
        let beta_commitment = match transcript.read_point() {
            Ok(p) => p,
            Err(_) => {
                proof {
                    lemma_not_wire_decodes(
                        *pk,
                        proof0,
                        off0,
                        reads,
                        old(transcript).proof@.len() as int,
                    );
                }
                return Err(Error::TranscriptError);
            },
        };
        proof {
            reads = reads + 1;
        }
        let beta_error = crate::curve::g1_identity();
        let y = transcript.squeeze_challenge_scalar();
        let ys = scalar_powers(y, pk.num_folding_constraints());

        let acc = VerifierAccumulator {
            instance,
            advice,
            challenges,
            lookup_accumulators,
            beta,
            beta_commitment,
            beta_error,
            ys,
            error: scalar_from_u64(0),
        };
        proof {
            assert(crate::scalar::spec_powers_seq(y, acc.ys@.len()) =~= acc.ys@);
            assert(exists|th: Fr| #[trigger] lookups_powers_of(
                acc.lookup_accumulators@,
                pk.lookups@,
                th,
            )) by {
                assert(lookups_powers_of(acc.lookup_accumulators@, pk.lookups@, theta));
            }
            assert(exists|rc: Fr| #[trigger] lookups_share_r(acc.lookup_accumulators@, rc)) by {
                assert(lookups_share_r(acc.lookup_accumulators@, r_challenge));
            }
        }
        Ok(acc)
    }

    /// Fold another accumulator into this one: read the quotient error
    /// polynomial's coefficients from the transcript, squeeze the fold
    /// challenge, and interpolate every element. On a transcript failure the
    /// accumulator is left untouched.
    ///
    /// Succeeds exactly when the proof holds, at the read position, one
    /// canonically encoded scalar per quotient coefficient. The coefficients
    /// are exactly the decoded proof bytes, the transcript absorbs exactly
    /// those coefficients and one squeeze, and the fold challenge is the hash
    /// of the resulting state — the fold is a function of the transcript.
    #[verifier::loop_isolation(false)]
    pub fn fold(
        &mut self,
        acc1: &VerifierAccumulator,
        pk: &ProvingKey,
        transcript: &mut TranscriptReader,
    ) -> (r: Result<(), Error>)
        requires
            pk_wf(*pk),
            vacc_shape_match(*old(self), *acc1),
        ensures
            r matches Err(e) ==> e == Error::TranscriptError && *final(self) == *old(self)
                && final(transcript).proof@ == old(transcript).proof@,
            r is Ok <==> ((crate::keygen::spec_gates_max_degree(pk.gates@) > 0 ==> old(
                transcript,
            ).offset + 32 * (crate::keygen::spec_gates_max_degree(pk.gates@) as int) <= old(
                transcript,
            ).proof@.len()) && (forall|k: int|
                0 <= k < crate::keygen::spec_gates_max_degree(pk.gates@) as int
                    ==> crate::scalar::fr_of_repr(
                    #[trigger] old(transcript).proof@.subrange(
                        old(transcript).offset + 32 * k,
                        old(transcript).offset + 32 * k + 32,
                    ),
                ) is Some)),
            r is Ok ==> {
                &&& final(transcript).proof@ == old(transcript).proof@
                &&& final(transcript).offset == old(transcript).offset + 32 * (
                crate::keygen::spec_gates_max_degree(pk.gates@) as int)
                &&& exists|coeffs: Seq<Fr>|
                    {
                        &&& coeffs.len() == crate::keygen::spec_gates_max_degree(pk.gates@) as int
                        &&& (forall|k: int|
                            0 <= k < coeffs.len() ==> Some(#[trigger] coeffs[k]) == crate::scalar::fr_of_repr(
                                old(transcript).proof@.subrange(
                                    old(transcript).offset + 32 * k,
                                    old(transcript).offset + 32 * k + 32,
                                ),
                            ))
                        &&& final(transcript).state@ == old(transcript).state@
                            + crate::transcript::scalars_absorbed(coeffs) + seq![
                            crate::transcript::PREFIX_CHALLENGE,
                        ]
                        &&& vacc_folded(
                            *final(self),
                            *old(self),
                            *acc1,
                            coeffs,
                            crate::scalar::fr_wide(
                                crate::hash::blake2b_of(final(transcript).state@),
                            ),
                        )
                    }
            },
    {
        // The quotient has two coefficients fewer than the summed error
        // polynomial, whose degree is the largest folding degree.
        let final_error_poly_len = pk.max_folding_constraints_degree() + 1;
        let quotient_len = final_error_poly_len - 2;

        let mut coeffs: Vec<Fr> = Vec::new();
        let mut k: usize = 0;
        while k < quotient_len
            invariant
                k <= quotient_len,
                coeffs@.len() == k,
                vacc_shape_match(*old(self), *acc1),
                *self == *old(self),
                transcript.proof@ == old(transcript).proof@,
                transcript.offset == old(transcript).offset + 32 * k,
                k > 0 ==> old(transcript).offset + 32 * (k as int) <= old(transcript).proof@.len(),
                transcript.state@ == old(transcript).state@ + crate::transcript::scalars_absorbed(
                    coeffs@,
                ),
                forall|i: int|
                    0 <= i < k ==> Some(#[trigger] coeffs@[i]) == crate::scalar::fr_of_repr(
                        old(transcript).proof@.subrange(
                            old(transcript).offset + 32 * i,
                            old(transcript).offset + 32 * i + 32,
                        ),
                    ),
            decreases quotient_len - k,
        {
            let ghost before = coeffs@;
            match transcript.read_scalar() {
                Ok(s) => {
                    coeffs.push(s);
                    proof {
                        assert(coeffs@.drop_last() =~= before);
                        assert(old(transcript).state@ + crate::transcript::scalars_absorbed(before)
                            + seq![crate::transcript::PREFIX_SCALAR] + crate::scalar::fr_repr(s)
                            =~= old(transcript).state@ + crate::transcript::scalars_absorbed(
                            coeffs@,
                        ));
                    }
                },
                Err(_) => {
                    proof {
                        // The failing read names the offending chunk: either
                        // the proof is too short for all the coefficients, or
                        // the chunk at position `k` does not decode.
                        let d = crate::keygen::spec_gates_max_degree(pk.gates@) as int;
                        if old(transcript).offset + 32 * d <= old(transcript).proof@.len() {
                            assert(old(transcript).offset + 32 * (k as int) + 32 <= old(
                                transcript,
                            ).proof@.len());
                            assert(!(crate::scalar::fr_of_repr(
                                old(transcript).proof@.subrange(
                                    old(transcript).offset + 32 * (k as int),
                                    old(transcript).offset + 32 * (k as int) + 32,
                                ),
                            ) is Some));
                        }
                    }
                    return Err(Error::TranscriptError);
                },
            }
            k = k + 1;
        }
        let alpha = transcript.squeeze_challenge_scalar();
        proof {
            assert(transcript.state@ =~= old(transcript).state@
                + crate::transcript::scalars_absorbed(coeffs@) + seq![
                crate::transcript::PREFIX_CHALLENGE,
            ]);
            assert forall|kk: int| 0 <= kk < quotient_len implies crate::scalar::fr_of_repr(
                #[trigger] old(transcript).proof@.subrange(
                    old(transcript).offset + 32 * kk,
                    old(transcript).offset + 32 * kk + 32,
                ),
            ) is Some by {
                assert(Some(coeffs@[kk]) == crate::scalar::fr_of_repr(
                    old(transcript).proof@.subrange(
                        old(transcript).offset + 32 * kk,
                        old(transcript).offset + 32 * kk + 32,
                    ),
                ));
            }
        }
        let folded = VerifierAccumulator::fold_with(self, acc1, &coeffs, alpha);
        *self = folded;
        Ok(())
    }
}

} // verus!
