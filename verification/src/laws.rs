//! Cross-cutting laws of the folding protocol, stated and proved against the
//! contracts of the functions they relate.
//!
//! The compiler's determinism and table sortedness laws live beside the
//! compiler in `gate`; the endpoint laws of folding are `ensures` clauses of
//! `fold_with`, `fold_with_alpha` and `GateEvaluationCache::evaluate`.

use vstd::prelude::*;

use halo2curves::bn256::{Fr, G1Affine};

use crate::accumulator::{pacc_folded, spec_error_value, Accumulator};
use crate::fold_verifier::{
    lemma_count_eq_mono, lemma_count_le_bound, lemma_count_le_step, spec_advice_read_pos,
    spec_point_at, spec_reads, vacc_folded, VerifierAccumulator,
};
use crate::keygen::ProvingKey;
use crate::scalar::flerp;

verus! {

/// The verifier's view of a prover accumulator: instance values agree on the
/// verbatim prefix the verifier keeps, commitments agree, the verifier's base
/// challenges are the first accumulated power of the prover's, and the
/// challenge and error state agree.
pub open spec fn views_match(v: VerifierAccumulator, p: Accumulator) -> bool {
    &&& v.instance@.len() == p.instance_polys@.len()
    &&& forall|c: int|
        0 <= c < v.instance@.len() ==> (#[trigger] v.instance@[c])@.len()
            <= p.instance_polys@[c]@.len()
    &&& forall|c: int, i: int|
        0 <= c < v.instance@.len() && 0 <= i < v.instance@[c]@.len() ==> v.instance@[c]@[i]
            == p.instance_polys@[c]@[i]
    &&& v.advice@ == p.advice_commitments@
    &&& v.challenges@.len() == p.challenges@.len()
    &&& forall|c: int|
        0 <= c < v.challenges@.len() ==> (#[trigger] p.challenges@[c])@.len() >= 1
            && v.challenges@[c] == p.challenges@[c]@[0]
    &&& v.lookup_accumulators@.len() == p.lookups@.len()
    &&& forall|l: int|
        0 <= l < v.lookup_accumulators@.len() ==> {
            let x = #[trigger] v.lookup_accumulators@[l];
            let y = p.lookups@[l];
            &&& x.m == y.m
            &&& x.r == y.r
            &&& x.thetas@ == y.thetas@
            &&& x.g == y.g
            &&& x.h == y.h
        }
    &&& v.beta == p.beta
    &&& v.beta_commitment == p.beta_commitment
    &&& v.beta_error == p.beta_error
    &&& v.ys@ == p.ys@
    &&& v.error == p.error
}

/// Error-polynomial round trip: the summed error polynomial of a fold takes
/// the first accumulator's error at `X = 0` and the second's at `X = 1`,
/// whenever the two accumulators are built consistently — their `error` fields
/// carry the weighted sum over all constraints and rows that
/// `error_poly_coeffs` computes as the endpoint values `e(0)` and `e(1)`.
pub proof fn lemma_error_polynomial_round_trip(
    pk: ProvingKey,
    acc0: Accumulator,
    acc1: Accumulator,
    e_zero: Fr,
    e_one: Fr,
)
    requires
        e_zero == spec_error_value(pk, acc0),
        e_one == spec_error_value(pk, acc1),
        acc0.error == spec_error_value(pk, acc0),
        acc1.error == spec_error_value(pk, acc1),
    ensures
        e_zero == acc0.error,
        e_one == acc1.error,
{
}

/// Every advice read position is a valid slot: below the advice column count.
proof fn lemma_advice_pos_in_range(phases: Seq<u8>, c: int)
    requires
        0 <= c < phases.len(),
    ensures
        0 <= spec_advice_read_pos(phases, c) < phases.len(),
{
    let p = phases[c] as int;
    let n = phases.len() as int;
    lemma_count_le_step(phases, p, n);
    lemma_count_eq_mono(phases, p, c + 1, n);
    lemma_count_le_bound(phases, p, n);
    assert(crate::fold_verifier::spec_count_eq(phases, p, c + 1)
        == crate::fold_verifier::spec_count_eq(phases, p, c) + 1);
}

/// Fresh-accumulator replay, the commitment half: a verifier that decodes the
/// very byte slots the prover emitted reads back exactly the prover's advice,
/// lookup and `beta` commitments. The hypotheses are what `create_proof` and
/// `new_from_prover` pin: each side ties every commitment to its 32-byte slot,
/// so equal slot bytes force equal commitments. (The squeezed challenges of
/// the construction are functions of the absorbed state, which these two
/// contracts do not describe; the tests check their agreement at runtime.)
pub proof fn lemma_fresh_commitments_replay(
    pk: ProvingKey,
    advice_commitments: Seq<G1Affine>,
    lookup_m: Seq<G1Affine>,
    lookup_g: Seq<G1Affine>,
    lookup_h: Seq<G1Affine>,
    beta_commitment: G1Affine,
    v: VerifierAccumulator,
    pproof: Seq<u8>,
    pbase: int,
    vproof: Seq<u8>,
    voff: int,
)
    requires
        pk.advice_column_phase@.len() == pk.num_advice_columns,
        advice_commitments.len() == pk.num_advice_columns,
        lookup_m.len() == pk.lookups@.len(),
        lookup_g.len() == pk.lookups@.len(),
        lookup_h.len() == pk.lookups@.len(),
        v.advice@.len() == pk.num_advice_columns,
        v.lookup_accumulators@.len() == pk.lookups@.len(),
        forall|t: int|
            0 <= t < spec_reads(pk) ==> #[trigger] spec_point_at(vproof, voff, t) == spec_point_at(
                pproof,
                pbase,
                t,
            ),
        forall|c: int|
            0 <= c < pk.num_advice_columns ==> #[trigger] spec_point_at(
                pproof,
                pbase,
                spec_advice_read_pos(pk.advice_column_phase@, c),
            ) == Some(advice_commitments[c]),
        forall|l: int|
            0 <= l < pk.lookups@.len() ==> #[trigger] spec_point_at(
                pproof,
                pbase,
                pk.num_advice_columns + l,
            ) == Some(lookup_m[l]) && spec_point_at(
                pproof,
                pbase,
                pk.num_advice_columns + pk.lookups@.len() + 2 * l,
            ) == Some(lookup_g[l]) && spec_point_at(
                pproof,
                pbase,
                pk.num_advice_columns + pk.lookups@.len() + 2 * l + 1,
            ) == Some(lookup_h[l]),
        spec_point_at(pproof, pbase, pk.num_advice_columns + 3 * pk.lookups@.len()) == Some(
            beta_commitment,
        ),
        forall|c: int|
            0 <= c < pk.num_advice_columns ==> Some(#[trigger] v.advice@[c]) == spec_point_at(
                vproof,
                voff,
                spec_advice_read_pos(pk.advice_column_phase@, c),
            ),
        forall|l: int|
            0 <= l < pk.lookups@.len() ==> Some((#[trigger] v.lookup_accumulators@[l]).m)
                == spec_point_at(vproof, voff, pk.num_advice_columns + l) && Some(
                v.lookup_accumulators@[l].g,
            ) == spec_point_at(
                vproof,
                voff,
                pk.num_advice_columns + pk.lookups@.len() + 2 * l,
            ) && Some(v.lookup_accumulators@[l].h) == spec_point_at(
                vproof,
                voff,
                pk.num_advice_columns + pk.lookups@.len() + 2 * l + 1,
            ),
        Some(v.beta_commitment) == spec_point_at(
            vproof,
            voff,
            pk.num_advice_columns + 3 * pk.lookups@.len(),
        ),
    ensures
        v.advice@ == advice_commitments,
        forall|l: int|
            0 <= l < pk.lookups@.len() ==> (#[trigger] v.lookup_accumulators@[l]).m == lookup_m[l]
                && v.lookup_accumulators@[l].g == lookup_g[l] && v.lookup_accumulators@[l].h
                == lookup_h[l],
        v.beta_commitment == beta_commitment,
{
    assert forall|c: int| 0 <= c < pk.num_advice_columns implies #[trigger] v.advice@[c]
        == advice_commitments[c] by {
        lemma_advice_pos_in_range(pk.advice_column_phase@, c);
        let pos = spec_advice_read_pos(pk.advice_column_phase@, c);
        assert(spec_point_at(vproof, voff, pos) == spec_point_at(pproof, pbase, pos));
    }
    assert(v.advice@ =~= advice_commitments);
    assert forall|l: int| 0 <= l < pk.lookups@.len() implies (
    #[trigger] v.lookup_accumulators@[l]).m == lookup_m[l] && v.lookup_accumulators@[l].g
        == lookup_g[l] && v.lookup_accumulators@[l].h == lookup_h[l] by {
        assert(spec_point_at(vproof, voff, pk.num_advice_columns + l) == spec_point_at(
            pproof,
            pbase,
            pk.num_advice_columns + l,
        ));
        assert(spec_point_at(vproof, voff, pk.num_advice_columns + pk.lookups@.len() + 2 * l)
            == spec_point_at(pproof, pbase, pk.num_advice_columns + pk.lookups@.len() + 2 * l));
        assert(spec_point_at(vproof, voff, pk.num_advice_columns + pk.lookups@.len() + 2 * l + 1)
            == spec_point_at(
            pproof,
            pbase,
            pk.num_advice_columns + pk.lookups@.len() + 2 * l + 1,
        ));
    }
    assert(spec_point_at(vproof, voff, pk.num_advice_columns + 3 * pk.lookups@.len())
        == spec_point_at(pproof, pbase, pk.num_advice_columns + 3 * pk.lookups@.len()));
}

/// Verifier replay: a verifier that decodes the very byte chunks the prover
/// emitted, starting from the same absorbed transcript state, folds to the
/// prover's view of the folded accumulator, field by field.
///
/// The hypotheses are exactly what the two folds' contracts deliver: the
/// prover's fold pins its emitted chunks, absorbed state and challenge; the
/// verifier's fold pins its decoded chunks, absorbed state and challenge.
/// Equal chunks force equal coefficients, equal coefficients force equal
/// absorbed states and hence equal squeezed challenges, and the element-wise
/// interpolations then agree.
pub proof fn lemma_fold_replay(
    p0: Accumulator,
    p1: Accumulator,
    p2: Accumulator,
    v0: VerifierAccumulator,
    v1: VerifierAccumulator,
    v2: VerifierAccumulator,
    coeffs_p: Seq<Fr>,
    coeffs_v: Seq<Fr>,
    base_state: Seq<u8>,
    chunks: Seq<u8>,
)
    requires
        coeffs_p.len() == coeffs_v.len(),
        forall|k: int|
            0 <= k < coeffs_p.len() ==> crate::scalar::fr_of_repr(
                #[trigger] chunks.subrange(32 * k, 32 * k + 32),
            ) == Some(coeffs_p[k]),
        forall|k: int|
            0 <= k < coeffs_v.len() ==> Some(#[trigger] coeffs_v[k]) == crate::scalar::fr_of_repr(
                chunks.subrange(32 * k, 32 * k + 32),
            ),
        pacc_folded(
            p2,
            p0,
            p1,
            coeffs_p,
            crate::scalar::fr_wide(
                crate::hash::blake2b_of(
                    base_state + crate::transcript::scalars_absorbed(coeffs_p) + seq![
                        crate::transcript::PREFIX_CHALLENGE,
                    ],
                ),
            ),
        ),
        vacc_folded(
            v2,
            v0,
            v1,
            coeffs_v,
            crate::scalar::fr_wide(
                crate::hash::blake2b_of(
                    base_state + crate::transcript::scalars_absorbed(coeffs_v) + seq![
                        crate::transcript::PREFIX_CHALLENGE,
                    ],
                ),
            ),
        ),
        crate::accumulator::pacc_shape_match(p0, p1),
        crate::fold_verifier::vacc_shape_match(v0, v1),
        views_match(v0, p0),
        views_match(v1, p1),
    ensures
        views_match(v2, p2),
{
    assert forall|k: int| 0 <= k < coeffs_v.len() implies coeffs_v[k] == coeffs_p[k] by {
        assert(crate::scalar::fr_of_repr(chunks.subrange(32 * k, 32 * k + 32)) == Some(
            coeffs_p[k],
        ));
    }
    assert(coeffs_v =~= coeffs_p);
    lemma_prover_verifier_agreement(
        p0,
        p1,
        p2,
        v0,
        v1,
        v2,
        coeffs_p,
        crate::scalar::fr_wide(
            crate::hash::blake2b_of(
                base_state + crate::transcript::scalars_absorbed(coeffs_p) + seq![
                    crate::transcript::PREFIX_CHALLENGE,
                ],
            ),
        ),
    );
}

/// Prover/verifier agreement: if the verifier's two accumulators are the
/// verifier views of the prover's two accumulators, and both sides fold with
/// the same quotient coefficients and the same challenge, then the verifier's
/// folded accumulator is the verifier view of the prover's folded accumulator,
/// field by field and commitment by commitment.
pub proof fn lemma_prover_verifier_agreement(
    p0: Accumulator,
    p1: Accumulator,
    p2: Accumulator,
    v0: VerifierAccumulator,
    v1: VerifierAccumulator,
    v2: VerifierAccumulator,
    coeffs: Seq<Fr>,
    alpha: Fr,
)
    requires
        pacc_folded(p2, p0, p1, coeffs, alpha),
        vacc_folded(v2, v0, v1, coeffs, alpha),
        crate::accumulator::pacc_shape_match(p0, p1),
        crate::fold_verifier::vacc_shape_match(v0, v1),
        views_match(v0, p0),
        views_match(v1, p1),
    ensures
        views_match(v2, p2),
{
    assert(v2.advice@ =~= p2.advice_commitments@);
    assert forall|c: int| 0 <= c < v2.challenges@.len() implies (#[trigger] p2.challenges@[c])@.len()
        >= 1 && v2.challenges@[c] == p2.challenges@[c]@[0] by {
        assert(v0.challenges@[c] == p0.challenges@[c]@[0]);
        assert(v1.challenges@[c] == p1.challenges@[c]@[0]);
        assert(p0.challenges@[c]@.len() >= 1);
        assert(p2.challenges@[c]@.len() == p0.challenges@[c]@.len());
        assert(v2.challenges@[c] == flerp(v0.challenges@[c], v1.challenges@[c], alpha));
        assert(p2.challenges@[c]@[0] == flerp(p0.challenges@[c]@[0], p1.challenges@[c]@[0], alpha));
    }
    assert forall|l: int| 0 <= l < v2.lookup_accumulators@.len() implies {
        let x = #[trigger] v2.lookup_accumulators@[l];
        let y = p2.lookups@[l];
        &&& x.m == y.m
        &&& x.r == y.r
        &&& x.thetas@ == y.thetas@
        &&& x.g == y.g
        &&& x.h == y.h
    } by {
        let x = v2.lookup_accumulators@[l];
        let y = p2.lookups@[l];
        let xv0 = v0.lookup_accumulators@[l];
        let xv1 = v1.lookup_accumulators@[l];
        let yp0 = p0.lookups@[l];
        let yp1 = p1.lookups@[l];
        assert(xv0.m == yp0.m && xv0.r == yp0.r && xv0.thetas@ == yp0.thetas@ && xv0.g == yp0.g
            && xv0.h == yp0.h);
        assert(xv1.m == yp1.m && xv1.r == yp1.r && xv1.thetas@ == yp1.thetas@ && xv1.g == yp1.g
            && xv1.h == yp1.h);
        assert(x.thetas@.len() == xv0.thetas@.len());
        assert(y.thetas@.len() == yp0.thetas@.len());
        assert forall|t: int| 0 <= t < x.thetas@.len() implies x.thetas@[t] == y.thetas@[t] by {
            assert(x.thetas@[t] == flerp(xv0.thetas@[t], xv1.thetas@[t], alpha));
            assert(y.thetas@[t] == flerp(yp0.thetas@[t], yp1.thetas@[t], alpha));
        }
        assert(x.thetas@ =~= y.thetas@);
    }
    assert forall|k: int| 0 <= k < v2.ys@.len() implies v2.ys@[k] == p2.ys@[k] by {
        assert(v2.ys@[k] == flerp(v0.ys@[k], v1.ys@[k], alpha));
        assert(p2.ys@[k] == flerp(p0.ys@[k], p1.ys@[k], alpha));
    }
    assert(v2.ys@ =~= p2.ys@);
}

} // verus!
