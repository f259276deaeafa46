//! The prover's construction of a fresh accumulator over the transcript.
//!
//! The instance values are absorbed and padded to domain-sized columns, the
//! advice commitments are written phase by phase with their challenges
//! squeezed in between, the lookup commitments follow with their challenges,
//! then the `beta` commitment and the random-linear-combination challenge `y`.
//! The commitments themselves are inputs: the polynomial commitment scheme
//! that computes them is outside this crate.

use vstd::prelude::*;

use halo2curves::bn256::{Fr, G1Affine};

use crate::accumulator::{acc_compat, acc_shape, Accumulator};
use crate::curve::{g1_identity, pt_is_id};
use crate::error_check::{challenges_compat, zero_scalar_vec};
use crate::fold_verifier::{
    lemma_count_le_all, lemma_count_le_none, lemma_count_le_step, lemma_slots_stable,
    spec_advice_read_pos, spec_count_eq, spec_count_le, spec_point_at, spec_reads,
    LookupAccumulator,
};
use crate::keygen::{lemma_chal_powers_ge, lemma_gate_chal_le, pk_wf, ProvingKey};
use crate::scalar::{fr_u64, scalar_from_u64, scalar_powers, scalar_powers_from};
use crate::transcript::TranscriptWriter;
use crate::Error;

verus! {

/// Build a fresh prover accumulator, absorbing and emitting its contents in
/// the transcript's wire order. The caller supplies the synthesized advice
/// columns with their commitments and blinds, and the lookup and `beta`
/// commitments; this function owns the wire order and the challenge squeezes.
///
/// Fails with `InvalidInstances` exactly when the instance column count does
/// not match the key, and with `InstanceTooLarge` exactly when some instance
/// column has more rows than the domain's usable rows.
#[verifier::loop_isolation(false)]
#[verifier::rlimit(60)]
pub fn create_proof(
    pk: &ProvingKey,
    instances: &Vec<Vec<Fr>>,
    advice_polys: Vec<Vec<Fr>>,
    advice_commitments: Vec<G1Affine>,
    advice_blinds: Vec<Fr>,
    lookup_m: &Vec<G1Affine>,
    lookup_g: &Vec<G1Affine>,
    lookup_h: &Vec<G1Affine>,
    beta_commitment: G1Affine,
    transcript: &mut TranscriptWriter,
) -> (r: Result<Accumulator, Error>)
    requires
        pk_wf(*pk),
        advice_polys@.len() == pk.num_advice_columns,
        forall|c: int|
            0 <= c < advice_polys@.len() ==> (#[trigger] advice_polys@[c])@.len() == pk.num_rows,
        advice_commitments@.len() == pk.num_advice_columns,
        advice_blinds@.len() == pk.num_advice_columns,
        lookup_m@.len() == pk.lookups@.len(),
        lookup_g@.len() == pk.lookups@.len(),
        lookup_h@.len() == pk.lookups@.len(),
    ensures
        (r matches Err(e) && e == Error::InvalidInstances) <==> instances@.len()
            != pk.num_instance_columns,
        instances@.len() != pk.num_instance_columns ==> *final(transcript) == *old(transcript),
        instances@.len() == pk.num_instance_columns ==> ((r matches Err(e) && e
            == Error::InstanceTooLarge) <==> exists|c: int|
            0 <= c < instances@.len() && (#[trigger] instances@[c])@.len() + pk.blinding_factors + 1
                > pk.num_rows),
        r is Err ==> (r == Err::<Accumulator, Error>(Error::InvalidInstances) || r == Err::<
            Accumulator,
            Error,
        >(Error::InstanceTooLarge)),
        r matches Ok(a) ==> {
            &&& acc_shape(a, *pk)
            &&& acc_compat(*pk, a)
            &&& a.error == fr_u64(0)
            &&& pt_is_id(a.beta_error)
            &&& a.advice_commitments@ == advice_commitments@
            &&& a.advice_blinds@ == advice_blinds@
            &&& forall|c: int|
                0 <= c < a.advice_polys@.len() ==> (#[trigger] a.advice_polys@[c])@
                    == advice_polys@[c]@
            &&& a.beta_commitment == beta_commitment
            &&& forall|c: int, i: int|
                0 <= c < instances@.len() && 0 <= i < instances@[c]@.len()
                    ==> a.instance_polys@[c]@[i] == instances@[c]@[i]
            &&& forall|c: int, i: int|
                0 <= c < instances@.len() && instances@[c]@.len() <= i < pk.num_rows
                    ==> a.instance_polys@[c]@[i] == fr_u64(0)
            &&& a.ys@ == crate::scalar::spec_powers_seq(
                crate::scalar::fr_wide(crate::hash::blake2b_of(final(transcript).state@)),
                a.ys@.len(),
            )
            &&& forall|l: int|
                0 <= l < a.lookups@.len() ==> {
                    let x = #[trigger] a.lookups@[l];
                    x.m == lookup_m@[l] && x.g == lookup_g@[l] && x.h == lookup_h@[l]
                }
            &&& final(transcript).proof@.len() == old(transcript).proof@.len() + 32 * spec_reads(
                *pk,
            )
            &&& forall|c: int|
                0 <= c < pk.num_advice_columns ==> #[trigger] spec_point_at(
                    final(transcript).proof@,
                    old(transcript).proof@.len() as int,
                    spec_advice_read_pos(pk.advice_column_phase@, c),
                ) == Some(advice_commitments@[c])
            &&& forall|l: int|
                0 <= l < pk.lookups@.len() ==> #[trigger] spec_point_at(
                    final(transcript).proof@,
                    old(transcript).proof@.len() as int,
                    pk.num_advice_columns + l,
                ) == Some(lookup_m@[l]) && spec_point_at(
                    final(transcript).proof@,
                    old(transcript).proof@.len() as int,
                    pk.num_advice_columns + pk.lookups@.len() + 2 * l,
                ) == Some(lookup_g@[l]) && spec_point_at(
                    final(transcript).proof@,
                    old(transcript).proof@.len() as int,
                    pk.num_advice_columns + pk.lookups@.len() + 2 * l + 1,
                ) == Some(lookup_h@[l])
            &&& spec_point_at(
                final(transcript).proof@,
                old(transcript).proof@.len() as int,
                pk.num_advice_columns + 3 * pk.lookups@.len(),
            ) == Some(beta_commitment)
        },
{
    if instances.len() != pk.num_instance_columns {
        return Err(Error::InvalidInstances);
    }
    let ghost base = old(transcript).proof@.len() as int;
    let ghost aph = pk.advice_column_phase@;
    let ghost mut writes: int = 0;
    let usable_rows = pk.num_rows - (pk.blinding_factors + 1);

    // Pad each instance column to the domain, absorbing every value.
    let n_cols = instances.len();
    let mut instance_polys: Vec<Vec<Fr>> = Vec::new();
    let mut c: usize = 0;
    while c < n_cols
        invariant
            c <= n_cols,
            instance_polys@.len() == c,
            forall|i: int|
                0 <= i < c ==> (#[trigger] instance_polys@[i])@.len() == pk.num_rows,
            forall|i: int, t: int|
                0 <= i < c && 0 <= t < instances@[i]@.len() ==> instance_polys@[i]@[t]
                    == instances@[i]@[t],
            forall|i: int, t: int|
                0 <= i < c && instances@[i]@.len() <= t < pk.num_rows ==> instance_polys@[i]@[t]
                    == fr_u64(0),
            forall|i: int|
                0 <= i < c ==> (#[trigger] instances@[i])@.len() + pk.blinding_factors + 1
                    <= pk.num_rows,
            transcript.proof@ == old(transcript).proof@,
        decreases n_cols - c,
    {
        let col = &instances[c];
        if col.len() > usable_rows {
            return Err(Error::InstanceTooLarge);
        }
        let mut poly: Vec<Fr> = Vec::new();
        let mut t: usize = 0;
        while t < col.len()
            invariant
                t <= col@.len(),
                col@.len() <= pk.num_rows,
                poly@.len() == t,
                forall|i: int| 0 <= i < t ==> poly@[i] == col@[i],
                transcript.proof@ == old(transcript).proof@,
            decreases col@.len() - t,
        {
            transcript.common_scalar(&col[t]);
            poly.push(col[t]);
            t = t + 1;
        }
        while poly.len() < pk.num_rows
            invariant
                col@.len() <= poly@.len() <= pk.num_rows,
                forall|i: int| 0 <= i < col@.len() ==> poly@[i] == col@[i],
                forall|i: int| col@.len() <= i < poly@.len() ==> poly@[i] == fr_u64(0),
            decreases pk.num_rows - poly@.len(),
        {
            poly.push(scalar_from_u64(0));
        }
        instance_polys.push(poly);
        c = c + 1;
    }

    // Advice commitments are written phase by phase, with each phase's
    // challenges squeezed after its columns.
    let n_challenges = pk.num_challenges;
    let mut base_challenges = zero_scalar_vec(n_challenges);
    let mut max_phase: u8 = 0;
    let mut i: usize = 0;
    while i < pk.advice_column_phase.len()
        invariant
            i <= aph.len(),
            forall|t: int| 0 <= t < i ==> (#[trigger] aph[t]) <= max_phase,
        decreases pk.advice_column_phase@.len() - i,
    {
        if pk.advice_column_phase[i] > max_phase {
            max_phase = pk.advice_column_phase[i];
        }
        i = i + 1;
    }
    let mut i: usize = 0;
    while i < pk.challenge_phase.len()
        invariant
            i <= pk.challenge_phase@.len(),
            forall|t: int| 0 <= t < aph.len() ==> (#[trigger] aph[t]) <= max_phase,
        decreases pk.challenge_phase@.len() - i,
    {
        if pk.challenge_phase[i] > max_phase {
            max_phase = pk.challenge_phase[i];
        }
        i = i + 1;
    }
    let last_phase: usize = max_phase as usize;
    let n_advice = pk.num_advice_columns;
    proof {
        lemma_count_le_none(aph, -1, n_advice as int);
    }
    let mut phase: usize = 0;
    while phase <= last_phase
        invariant
            phase <= last_phase + 1,
            base_challenges@.len() == n_challenges,
            transcript.proof@.len() == base + 32 * writes,
            writes == spec_count_le(aph, phase as int - 1, n_advice as int),
            forall|cc: int|
                0 <= cc < n_advice && (aph[cc] as int) < phase ==> 0 <= spec_advice_read_pos(
                    aph,
                    cc,
                ) < writes && #[trigger] spec_point_at(
                    transcript.proof@,
                    base,
                    spec_advice_read_pos(aph, cc),
                ) == Some(advice_commitments@[cc]),
        decreases last_phase + 1 - phase,
    {
        let mut col: usize = 0;
        while col < n_advice
            invariant
                col <= n_advice,
                phase <= last_phase,
                transcript.proof@.len() == base + 32 * writes,
                writes == spec_count_le(aph, phase as int - 1, n_advice as int) + spec_count_eq(
                    aph,
                    phase as int,
                    col as int,
                ),
                forall|cc: int|
                    0 <= cc < n_advice && ((aph[cc] as int) < phase || ((aph[cc] as int) == phase
                        && cc < col)) ==> 0 <= spec_advice_read_pos(aph, cc) < writes
                        && #[trigger] spec_point_at(
                        transcript.proof@,
                        base,
                        spec_advice_read_pos(aph, cc),
                    ) == Some(advice_commitments@[cc]),
            decreases n_advice - col,
        {
            if pk.advice_column_phase[col] as usize == phase {
                let ghost pre = transcript.proof@;
                transcript.write_point(&advice_commitments[col]);
                proof {
                    lemma_slots_stable(
                        pre,
                        crate::curve::pt_bytes(advice_commitments@[col as int]),
                        base,
                        writes,
                    );
                    assert(transcript.proof@.subrange(base + 32 * writes, base + 32 * writes + 32)
                        =~= crate::curve::pt_bytes(advice_commitments@[col as int]));
                    writes = writes + 1;
                }
            }
            col = col + 1;
        }
        proof {
            lemma_count_le_step(aph, phase as int, n_advice as int);
        }
        let mut ch: usize = 0;
        while ch < n_challenges
            invariant
                ch <= n_challenges,
                base_challenges@.len() == n_challenges,
                transcript.proof@.len() == base + 32 * writes,
                forall|cc: int|
                    0 <= cc < n_advice && (aph[cc] as int) <= phase ==> 0 <= spec_advice_read_pos(
                        aph,
                        cc,
                    ) < writes && #[trigger] spec_point_at(
                        transcript.proof@,
                        base,
                        spec_advice_read_pos(aph, cc),
                    ) == Some(advice_commitments@[cc]),
            decreases n_challenges - ch,
        {
            if pk.challenge_phase[ch] as usize == phase {
                let v = transcript.squeeze_challenge_scalar();
                base_challenges[ch] = v;
            }
            ch = ch + 1;
        }
        phase = phase + 1;
    }
    proof {
        lemma_count_le_all(aph, last_phase as int, n_advice as int);
        assert(writes == n_advice as int);
    }

    // Expand each base challenge into its accumulated powers: enough for the
    // highest power any gate queries, and at least the base challenge itself.
    let queried_power = pk.max_queried_challenge_power();
    let max_power = if queried_power == 0 {
        1
    } else {
        queried_power
    };
    let mut challenges: Vec<Vec<Fr>> = Vec::new();
    let mut ch: usize = 0;
    while ch < n_challenges
        invariant
            ch <= n_challenges,
            base_challenges@.len() == n_challenges,
            challenges@.len() == ch,
            forall|i: int|
                0 <= i < ch ==> (#[trigger] challenges@[i])@.len() == max_power as int,
        decreases n_challenges - ch,
    {
        challenges.push(scalar_powers_from(base_challenges[ch], max_power));
        ch = ch + 1;
    }
    proof {
        assert forall|g: int| 0 <= g < pk.gates@.len() implies challenges_compat(
            #[trigger] pk.gates@[g],
            challenges@,
        ) by {
            let gate = pk.gates@[g];
            assert forall|q: int| 0 <= q < gate.queried_challenges@.len() implies {
                let cq = #[trigger] gate.queried_challenges@[q];
                &&& cq.index < challenges@.len()
                &&& 1 <= cq.power <= challenges@[cq.index as int]@.len()
            } by {
                lemma_chal_powers_ge(gate.queried_challenges@, q);
                lemma_gate_chal_le(pk.gates@, g);
            }
        }
    }

    // Lookup commitments and their challenges.
    let n_lookups = pk.lookups.len();
    let mut l: usize = 0;
    while l < n_lookups
        invariant
            l <= n_lookups,
            transcript.proof@.len() == base + 32 * writes,
            writes == n_advice as int + l,
            forall|cc: int|
                0 <= cc < n_advice ==> 0 <= spec_advice_read_pos(aph, cc) < writes
                    && #[trigger] spec_point_at(
                    transcript.proof@,
                    base,
                    spec_advice_read_pos(aph, cc),
                ) == Some(advice_commitments@[cc]),
            forall|i: int|
                0 <= i < l ==> #[trigger] spec_point_at(
                    transcript.proof@,
                    base,
                    n_advice as int + i,
                ) == Some(lookup_m@[i]),
        decreases n_lookups - l,
    {
        let ghost pre = transcript.proof@;
        transcript.write_point(&lookup_m[l]);
        proof {
            lemma_slots_stable(pre, crate::curve::pt_bytes(lookup_m@[l as int]), base, writes);
            assert(transcript.proof@.subrange(base + 32 * writes, base + 32 * writes + 32)
                =~= crate::curve::pt_bytes(lookup_m@[l as int]));
            writes = writes + 1;
        }
        l = l + 1;
    }
    let r_challenge = transcript.squeeze_challenge_scalar();
    let theta = transcript.squeeze_challenge_scalar();
    let mut lookups: Vec<LookupAccumulator> = Vec::new();
    let mut l: usize = 0;
    while l < n_lookups
        invariant
            l <= n_lookups,
            lookups@.len() == l,
            forall|i: int|
                0 <= i < l ==> {
                    let x = #[trigger] lookups@[i];
                    x.m == lookup_m@[i] && x.g == lookup_g@[i] && x.h == lookup_h@[i]
                },
            transcript.proof@.len() == base + 32 * writes,
            writes == n_advice as int + n_lookups as int + 2 * l,
            forall|cc: int|
                0 <= cc < n_advice ==> 0 <= spec_advice_read_pos(aph, cc) < writes
                    && #[trigger] spec_point_at(
                    transcript.proof@,
                    base,
                    spec_advice_read_pos(aph, cc),
                ) == Some(advice_commitments@[cc]),
            forall|i: int|
                0 <= i < n_lookups ==> #[trigger] spec_point_at(
                    transcript.proof@,
                    base,
                    n_advice as int + i,
                ) == Some(lookup_m@[i]),
            forall|i: int|
                0 <= i < l ==> #[trigger] spec_point_at(
                    transcript.proof@,
                    base,
                    n_advice as int + n_lookups as int + 2 * i,
                ) == Some(lookup_g@[i]) && spec_point_at(
                    transcript.proof@,
                    base,
                    n_advice as int + n_lookups as int + 2 * i + 1,
                ) == Some(lookup_h@[i]),
        decreases n_lookups - l,
    {
        let thetas = scalar_powers(theta, pk.lookups[l]);
        let ghost pre_g = transcript.proof@;
        transcript.write_point(&lookup_g[l]);
        proof {
            lemma_slots_stable(pre_g, crate::curve::pt_bytes(lookup_g@[l as int]), base, writes);
            assert(transcript.proof@.subrange(base + 32 * writes, base + 32 * writes + 32)
                =~= crate::curve::pt_bytes(lookup_g@[l as int]));
            writes = writes + 1;
        }
        let ghost pre_h = transcript.proof@;
        transcript.write_point(&lookup_h[l]);
        proof {
            lemma_slots_stable(pre_h, crate::curve::pt_bytes(lookup_h@[l as int]), base, writes);
            assert(transcript.proof@.subrange(base + 32 * writes, base + 32 * writes + 32)
                =~= crate::curve::pt_bytes(lookup_h@[l as int]));
            writes = writes + 1;
        }
        lookups.push(
            LookupAccumulator {
                m: lookup_m[l],
                r: r_challenge,
                thetas,
                g: lookup_g[l],
                h: lookup_h[l],
            },
        );
        l = l + 1;
    }

    // The beta state and the random-linear-combination challenge.
    let beta = transcript.squeeze_challenge_scalar();
    let ghost pre_b = transcript.proof@;
    transcript.write_point(&beta_commitment);
    proof {
        lemma_slots_stable(pre_b, crate::curve::pt_bytes(beta_commitment), base, writes);
        assert(transcript.proof@.subrange(base + 32 * writes, base + 32 * writes + 32)
            =~= crate::curve::pt_bytes(beta_commitment));
        writes = writes + 1;
    }
    let beta_error = g1_identity();
    let y = transcript.squeeze_challenge_scalar();
    let ys = scalar_powers(y, pk.num_folding_constraints());

    let acc = Accumulator {
        instance_polys,
        advice_polys,
        advice_commitments,
        advice_blinds,
        challenges,
        lookups,
        beta,
        beta_commitment,
        beta_error,
        ys,
        error: scalar_from_u64(0),
    };
    proof {
        assert(crate::scalar::spec_powers_seq(y, acc.ys@.len()) =~= acc.ys@);
    }
    Ok(acc)
}

} // verus!
