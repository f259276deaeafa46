//! End-to-end protocol flows: a prover builds accumulators and folds them over
//! a transcript, a verifier replays the proof bytes, and the two views must
//! agree field by field.

use halo2curves::bn256::{Fr, G1Affine};
use halo2curves::group::prime::PrimeCurveAffine;
use halo2curves::group::Curve;

use protostar::accumulator::Accumulator;
use protostar::expr::Expression;
use protostar::fold_verifier::VerifierAccumulator;
use protostar::gate::Gate;
use protostar::keygen::ProvingKey;
use protostar::queries::{AdviceQuery, Challenge};
use protostar::transcript::{TranscriptReader, TranscriptWriter};
use protostar::witness::create_proof;

fn point(k: u64) -> G1Affine {
    (G1Affine::generator() * Fr::from(k)).to_affine()
}

fn adv(col: usize) -> Expression {
    Expression::Advice(AdviceQuery { column_index: col, rotation: 0 })
}

fn prod(a: Expression, b: Expression) -> Expression {
    Expression::Product(Box::new(a), Box::new(b))
}

fn sum(a: Expression, b: Expression) -> Expression {
    Expression::Sum(Box::new(a), Box::new(b))
}

fn neg(a: Expression) -> Expression {
    Expression::Negated(Box::new(a))
}

/// `G = a * b - c` over three advice columns, domain size 8, no lookups.
fn mul_gate_pk() -> ProvingKey {
    let g = sum(prod(adv(0), adv(1)), neg(adv(2)));
    let gate = Gate::compile(&vec![g]);
    ProvingKey {
        num_rows: 8,
        selectors: vec![],
        fixed: vec![],
        num_instance_columns: 0,
        num_advice_columns: 3,
        num_challenges: 0,
        advice_column_phase: vec![0, 0, 0],
        challenge_phase: vec![],
        lookups: vec![],
        blinding_factors: 0,
        gates: vec![gate],
    }
}

/// Same gate, with one lookup argument of two input expressions.
fn lookup_pk() -> ProvingKey {
    let g = sum(prod(adv(0), adv(1)), neg(adv(2)));
    let gate = Gate::compile(&vec![g]);
    ProvingKey {
        num_rows: 8,
        selectors: vec![],
        fixed: vec![],
        num_instance_columns: 0,
        num_advice_columns: 3,
        num_challenges: 0,
        advice_column_phase: vec![0, 0, 0],
        challenge_phase: vec![],
        lookups: vec![2],
        blinding_factors: 0,
        gates: vec![gate],
    }
}

/// A satisfying witness for `a * b - c`: per-row values with `c = a * b`,
/// derived from a seed so different seeds give different witnesses.
fn satisfying_advice(seed: u64) -> Vec<Vec<Fr>> {
    let mut a = Vec::new();
    let mut b = Vec::new();
    let mut c = Vec::new();
    for row in 0..8u64 {
        let av = Fr::from(seed + 3 * row + 1);
        let bv = Fr::from(2 * seed + row + 5);
        a.push(av);
        b.push(bv);
        c.push(av * bv);
    }
    vec![a, b, c]
}

fn make_accumulator(
    pk: &ProvingKey,
    seed: u64,
    transcript: &mut TranscriptWriter,
) -> Accumulator {
    let n_lookups = pk.lookups.len();
    let ms: Vec<G1Affine> = (0..n_lookups as u64).map(|l| point(seed + 30 + l)).collect();
    let gs: Vec<G1Affine> = (0..n_lookups as u64).map(|l| point(seed + 40 + l)).collect();
    let hs: Vec<G1Affine> = (0..n_lookups as u64).map(|l| point(seed + 50 + l)).collect();
    create_proof(
        pk,
        &vec![],
        satisfying_advice(seed),
        vec![point(seed + 10), point(seed + 11), point(seed + 12)],
        vec![Fr::from(seed + 20), Fr::from(seed + 21), Fr::from(seed + 22)],
        &ms,
        &gs,
        &hs,
        point(seed + 60),
        transcript,
    )
    .unwrap()
}

/// The verifier's accumulator must be the verifier view of the prover's.
fn check_v_and_p(v: &VerifierAccumulator, p: &Accumulator) {
    assert_eq!(v.instance.len(), p.instance_polys.len());
    for (vc, pc) in v.instance.iter().zip(p.instance_polys.iter()) {
        for (row, value) in vc.iter().enumerate() {
            assert_eq!(*value, pc[row], "instance values disagree");
        }
    }
    assert_eq!(v.advice, p.advice_commitments, "advice commitments disagree");
    assert_eq!(v.challenges.len(), p.challenges.len());
    for (vc, pc) in v.challenges.iter().zip(p.challenges.iter()) {
        assert_eq!(*vc, pc[0], "base challenges disagree");
    }
    assert_eq!(v.lookup_accumulators.len(), p.lookups.len());
    for (vl, pl) in v.lookup_accumulators.iter().zip(p.lookups.iter()) {
        assert_eq!(vl.m, pl.m, "lookup m disagrees");
        assert_eq!(vl.r, pl.r, "lookup r disagrees");
        assert_eq!(vl.thetas, pl.thetas, "lookup thetas disagree");
        assert_eq!(vl.g, pl.g, "lookup g disagrees");
        assert_eq!(vl.h, pl.h, "lookup h disagrees");
    }
    assert_eq!(v.beta, p.beta, "beta disagrees");
    assert_eq!(v.beta_commitment, p.beta_commitment, "beta commitment disagrees");
    assert_eq!(v.beta_error, p.beta_error, "beta error disagrees");
    assert_eq!(v.ys, p.ys, "ys disagree");
    assert_eq!(v.error, p.error, "error disagrees");
}

/// One accumulator is written by the prover and read back by the verifier.
#[test]
fn test_one_verifier_acc() {
    let pk = mul_gate_pk();
    let mut transcript = TranscriptWriter::new();
    let p_acc = make_accumulator(&pk, 7, &mut transcript);
    let proof = transcript.finalize();

    let mut v_transcript = TranscriptReader::new(proof);
    let v_acc = VerifierAccumulator::new_from_prover(&mut v_transcript, &vec![], &pk).unwrap();
    check_v_and_p(&v_acc, &p_acc);
}

/// Folding an accumulator with itself reproduces it element-wise, and the
/// verifier's replay agrees.
#[test]
fn test_same_acc_fold() {
    let pk = mul_gate_pk();
    let mut transcript = TranscriptWriter::new();
    let p_acc = make_accumulator(&pk, 9, &mut transcript);
    let p_acc1 = Accumulator::fold(&pk, p_acc.duplicate(), p_acc.duplicate(), &mut transcript);

    // Element-wise equality with the input accumulator.
    for (fc, oc) in p_acc1.instance_polys.iter().zip(p_acc.instance_polys.iter()) {
        assert_eq!(fc, oc);
    }
    for (fc, oc) in p_acc1.advice_polys.iter().zip(p_acc.advice_polys.iter()) {
        assert_eq!(fc, oc);
    }
    assert_eq!(p_acc1.advice_commitments, p_acc.advice_commitments);
    assert_eq!(p_acc1.advice_blinds, p_acc.advice_blinds);
    assert_eq!(p_acc1.challenges, p_acc.challenges);
    assert_eq!(p_acc1.beta, p_acc.beta);
    assert_eq!(p_acc1.beta_commitment, p_acc.beta_commitment);
    assert_eq!(p_acc1.ys, p_acc.ys);
    assert_eq!(p_acc1.error, p_acc.error);

    let proof = transcript.finalize();
    let mut v_transcript = TranscriptReader::new(proof);
    let v_acc = VerifierAccumulator::new_from_prover(&mut v_transcript, &vec![], &pk).unwrap();
    let mut v_acc1 = v_acc.duplicate();
    v_acc1.fold(&v_acc, &pk, &mut v_transcript).unwrap();
    check_v_and_p(&v_acc1, &p_acc1);
}

/// Two accumulators are written and read back in sequence.
#[test]
fn test_two_verifier_acc() {
    let pk = mul_gate_pk();
    let mut transcript = TranscriptWriter::new();
    let acc0 = make_accumulator(&pk, 3, &mut transcript);
    let acc1 = make_accumulator(&pk, 4, &mut transcript);
    let proof = transcript.finalize();

    let mut v_transcript = TranscriptReader::new(proof);
    let v_acc0 = VerifierAccumulator::new_from_prover(&mut v_transcript, &vec![], &pk).unwrap();
    let v_acc1 = VerifierAccumulator::new_from_prover(&mut v_transcript, &vec![], &pk).unwrap();
    check_v_and_p(&v_acc0, &acc0);
    check_v_and_p(&v_acc1, &acc1);
}

/// Two accumulators are folded by the prover; the verifier replays the whole
/// proof, folds its own views, and every scalar and commitment agrees.
#[test]
fn test_two_verifier_acc_folding() {
    let pk = mul_gate_pk();
    let mut transcript = TranscriptWriter::new();
    let acc0 = make_accumulator(&pk, 3, &mut transcript);
    let acc1 = make_accumulator(&pk, 5, &mut transcript);
    let acc2 = Accumulator::fold(&pk, acc0.duplicate(), acc1.duplicate(), &mut transcript);

    let proof = transcript.finalize();
    let mut v_transcript = TranscriptReader::new(proof);
    let v_acc0 = VerifierAccumulator::new_from_prover(&mut v_transcript, &vec![], &pk).unwrap();
    let v_acc1 = VerifierAccumulator::new_from_prover(&mut v_transcript, &vec![], &pk).unwrap();
    let mut v_acc2 = v_acc0.duplicate();
    v_acc2.fold(&v_acc1, &pk, &mut v_transcript).unwrap();

    check_v_and_p(&v_acc0, &acc0);
    check_v_and_p(&v_acc1, &acc1);
    check_v_and_p(&v_acc2, &acc2);
}

/// The lookup state rides through construction and folding unchanged in shape,
/// and the verifier's view of it agrees with the prover's.
#[test]
fn test_lookup() {
    let pk = lookup_pk();
    let mut transcript = TranscriptWriter::new();
    let acc0 = make_accumulator(&pk, 12, &mut transcript);
    let acc1 = make_accumulator(&pk, 220, &mut transcript);
    let acc2 = Accumulator::fold(&pk, acc0.duplicate(), acc1.duplicate(), &mut transcript);
    assert_eq!(acc0.lookups.len(), 1);
    assert_eq!(acc0.lookups[0].thetas.len(), 2);

    let proof = transcript.finalize();
    let mut v_transcript = TranscriptReader::new(proof);
    let v_acc0 = VerifierAccumulator::new_from_prover(&mut v_transcript, &vec![], &pk).unwrap();
    let v_acc1 = VerifierAccumulator::new_from_prover(&mut v_transcript, &vec![], &pk).unwrap();
    let mut v_acc2 = v_acc0.duplicate();
    v_acc2.fold(&v_acc1, &pk, &mut v_transcript).unwrap();

    check_v_and_p(&v_acc0, &acc0);
    check_v_and_p(&v_acc1, &acc1);
    check_v_and_p(&v_acc2, &acc2);
}

/// The instance column count must match the key, and an instance column must
/// fit the usable rows.
#[test]
fn test_instance_errors() {
    let mut pk = mul_gate_pk();
    pk.num_instance_columns = 1;
    pk.blinding_factors = 2;

    let mut transcript = TranscriptWriter::new();
    let r = create_proof(
        &pk,
        &vec![],
        satisfying_advice(1),
        vec![point(1), point(2), point(3)],
        vec![Fr::from(1u64), Fr::from(2u64), Fr::from(3u64)],
        &vec![],
        &vec![],
        &vec![],
        point(4),
        &mut transcript,
    );
    assert_eq!(r.err(), Some(protostar::Error::InvalidInstances));

    // 6 instance rows exceed the 5 usable rows (8 minus 2 blinding minus 1).
    let too_long: Vec<Fr> = (0..6u64).map(Fr::from).collect();
    let mut transcript = TranscriptWriter::new();
    let r = create_proof(
        &pk,
        &vec![too_long],
        satisfying_advice(1),
        vec![point(1), point(2), point(3)],
        vec![Fr::from(1u64), Fr::from(2u64), Fr::from(3u64)],
        &vec![],
        &vec![],
        &vec![],
        point(4),
        &mut transcript,
    );
    assert_eq!(r.err(), Some(protostar::Error::InstanceTooLarge));

    // A fitting instance column is padded with zeros and read back verbatim.
    let values: Vec<Fr> = vec![Fr::from(41u64), Fr::from(42u64)];
    let mut transcript = TranscriptWriter::new();
    let acc = create_proof(
        &pk,
        &vec![values.clone()],
        satisfying_advice(1),
        vec![point(1), point(2), point(3)],
        vec![Fr::from(1u64), Fr::from(2u64), Fr::from(3u64)],
        &vec![],
        &vec![],
        &vec![],
        point(4),
        &mut transcript,
    )
    .unwrap();
    assert_eq!(acc.instance_polys[0].len(), 8);
    assert_eq!(acc.instance_polys[0][0], Fr::from(41u64));
    assert_eq!(acc.instance_polys[0][1], Fr::from(42u64));
    assert_eq!(acc.instance_polys[0][2], Fr::from(0u64));

    let proof = transcript.finalize();
    let mut v_transcript = TranscriptReader::new(proof);
    let v_acc =
        VerifierAccumulator::new_from_prover(&mut v_transcript, &vec![values], &pk).unwrap();
    check_v_and_p(&v_acc, &acc);

    let mut v_transcript = TranscriptReader::new(vec![]);
    let r = VerifierAccumulator::new_from_prover(&mut v_transcript, &vec![], &pk);
    assert_eq!(r.err(), Some(protostar::Error::InvalidInstances));
}

/// A gate querying the cube of a challenge makes the prover expand three
/// accumulated powers of the squeezed base challenge, and the verifier's base
/// challenge is its first power.
#[test]
fn test_challenge_powers_in_accumulator() {
    // G = c^3 * a - b.
    let c3 = Expression::Challenge(Challenge { index: 0, power: 3 });
    let g = sum(prod(c3, adv(0)), neg(adv(1)));
    let gate = Gate::compile(&vec![g]);
    let pk = ProvingKey {
        num_rows: 8,
        selectors: vec![],
        fixed: vec![],
        num_instance_columns: 0,
        num_advice_columns: 2,
        num_challenges: 1,
        advice_column_phase: vec![0, 0],
        challenge_phase: vec![0],
        lookups: vec![],
        blinding_factors: 0,
        gates: vec![gate],
    };

    let mut transcript = TranscriptWriter::new();
    let advice: Vec<Vec<Fr>> = vec![
        (0..8u64).map(Fr::from).collect(),
        (0..8u64).map(|r| Fr::from(r + 1)).collect(),
    ];
    let p_acc = create_proof(
        &pk,
        &vec![],
        advice,
        vec![point(1), point(2)],
        vec![Fr::from(3u64), Fr::from(4u64)],
        &vec![],
        &vec![],
        &vec![],
        point(5),
        &mut transcript,
    )
    .unwrap();

    assert_eq!(p_acc.challenges.len(), 1);
    assert_eq!(p_acc.challenges[0].len(), 3, "three accumulated powers");
    let base = p_acc.challenges[0][0];
    assert_eq!(p_acc.challenges[0][1], base * base);
    assert_eq!(p_acc.challenges[0][2], base * base * base);

    let proof = transcript.finalize();
    let mut v_transcript = TranscriptReader::new(proof);
    let v_acc = VerifierAccumulator::new_from_prover(&mut v_transcript, &vec![], &pk).unwrap();
    check_v_and_p(&v_acc, &p_acc);
}

/// Advice committed over two phases interleaves with the challenges squeezed
/// after each phase, and the verifier replays the same order.
#[test]
fn test_two_phase_ordering() {
    let g = sum(prod(adv(0), adv(1)), neg(adv(2)));
    let gate = Gate::compile(&vec![g]);
    let pk = ProvingKey {
        num_rows: 8,
        selectors: vec![],
        fixed: vec![],
        num_instance_columns: 0,
        num_advice_columns: 3,
        num_challenges: 2,
        advice_column_phase: vec![0, 0, 1],
        challenge_phase: vec![0, 1],
        lookups: vec![],
        blinding_factors: 0,
        gates: vec![gate],
    };
    let mut transcript = TranscriptWriter::new();
    let p_acc = create_proof(
        &pk,
        &vec![],
        satisfying_advice(6),
        vec![point(61), point(62), point(63)],
        vec![Fr::from(64u64), Fr::from(65u64), Fr::from(66u64)],
        &vec![],
        &vec![],
        &vec![],
        point(67),
        &mut transcript,
    )
    .unwrap();
    assert_eq!(p_acc.challenges.len(), 2);
    // The two phases squeeze from different transcript states.
    assert_ne!(p_acc.challenges[0][0], p_acc.challenges[1][0]);

    let proof = transcript.finalize();
    let mut v_transcript = TranscriptReader::new(proof);
    let v_acc = VerifierAccumulator::new_from_prover(&mut v_transcript, &vec![], &pk).unwrap();
    check_v_and_p(&v_acc, &p_acc);
}
