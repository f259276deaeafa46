//! Scenario tests of the error-polynomial machinery: identity folds, the
//! simple-selector fast path, challenge powers along the line, and rotation
//! wrap-around.

use halo2curves::bn256::{Fr, G1Affine};
use halo2curves::group::prime::PrimeCurveAffine;
use halo2curves::group::Curve;

use protostar::accumulator::{error_poly_coeffs, Accumulator};
use protostar::error_check::GateEvaluationCache;
use protostar::expr::Expression;
use protostar::fold_verifier::{LookupAccumulator, VerifierAccumulator};
use protostar::gate::Gate;
use protostar::keygen::ProvingKey;
use protostar::queries::{AdviceQuery, FixedQuery, Selector};

fn point(k: u64) -> G1Affine {
    (G1Affine::generator() * Fr::from(k)).to_affine()
}

fn adv(col: usize) -> Expression {
    Expression::Advice(AdviceQuery { column_index: col, rotation: 0 })
}

fn prod(a: Expression, b: Expression) -> Expression {
    Expression::Product(Box::new(a), Box::new(b))
}

fn sum(a: Expression, b: Expression) -> Expression {
    Expression::Sum(Box::new(a), Box::new(b))
}

fn neg(a: Expression) -> Expression {
    Expression::Negated(Box::new(a))
}

fn pk_for(gate: Gate, selectors: Vec<Vec<bool>>, fixed: Vec<Vec<Fr>>, n_advice: usize) -> ProvingKey {
    ProvingKey {
        num_rows: 8,
        selectors,
        fixed,
        num_instance_columns: 0,
        num_advice_columns: n_advice,
        num_challenges: 0,
        advice_column_phase: vec![0; n_advice],
        challenge_phase: vec![],
        lookups: vec![],
        blinding_factors: 0,
        gates: vec![gate],
    }
}

fn bare_accumulator(pk: &ProvingKey, advice_polys: Vec<Vec<Fr>>) -> Accumulator {
    let n = pk.num_advice_columns;
    Accumulator {
        instance_polys: vec![],
        advice_polys,
        advice_commitments: (0..n as u64).map(|k| point(k + 1)).collect(),
        advice_blinds: vec![Fr::from(0u64); n],
        challenges: vec![],
        lookups: vec![],
        beta: Fr::from(0u64),
        beta_commitment: point(99),
        beta_error: G1Affine::identity(),
        ys: vec![Fr::from(1u64)],
        error: Fr::from(0u64),
    }
}

/// The summed error polynomial of a fold between two satisfying witnesses of
/// `a * b - c` vanishes at both endpoints.
#[test]
fn test_identity_fold_endpoints() {
    let g = sum(prod(adv(0), adv(1)), neg(adv(2)));
    let gate = Gate::compile(&vec![g]);
    let pk = pk_for(gate, vec![], vec![], 3);

    let witness = |seed: u64| -> Vec<Vec<Fr>> {
        let mut a = Vec::new();
        let mut b = Vec::new();
        let mut c = Vec::new();
        for row in 0..8u64 {
            let av = Fr::from(seed * 7 + row + 2);
            let bv = Fr::from(seed + 11 * row + 3);
            a.push(av);
            b.push(bv);
            c.push(av * bv);
        }
        vec![a, b, c]
    };
    let acc0 = bare_accumulator(&pk, witness(1));
    let acc1 = bare_accumulator(&pk, witness(2));

    let (coeffs, e0, e1) = error_poly_coeffs(&pk, &acc0, &acc1);
    assert_eq!(e0, Fr::from(0u64));
    assert_eq!(e1, Fr::from(0u64));
    // The summed error polynomial has as many coefficients as samples: the
    // largest constraint degree (2), plus one for `ys`, plus one.
    assert_eq!(coeffs.len(), 4);
}

/// Folding two satisfying witnesses of the linear gate `a - b` gives a folded
/// error of exactly zero: the constraint vanishes along the whole line.
#[test]
fn test_linear_identity_fold_error_zero() {
    let g = sum(adv(0), neg(adv(1)));
    let gate = Gate::compile(&vec![g]);
    let pk = pk_for(gate, vec![], vec![], 2);

    let witness = |seed: u64| -> Vec<Vec<Fr>> {
        let col: Vec<Fr> = (0..8u64).map(|row| Fr::from(seed * 13 + row)).collect();
        vec![col.clone(), col]
    };
    let acc0 = bare_accumulator(&pk, witness(1));
    let acc1 = bare_accumulator(&pk, witness(4));

    let mut transcript = protostar::transcript::TranscriptWriter::new();
    let folded = Accumulator::fold(&pk, acc0, acc1, &mut transcript);
    assert_eq!(folded.error, Fr::from(0u64));
}

/// A gate guarded by a simple selector is skipped whole on rows where the
/// selector is off, and only the active rows contribute to the error.
#[test]
fn test_selector_fast_path() {
    // G = s * (a - 1), s off on rows 0..7 and on at row 7.
    let s = Selector { index: 0, is_simple: true };
    let g = prod(
        Expression::Selector(s),
        sum(adv(0), neg(Expression::Constant(Fr::from(1u64)))),
    );
    let gate = Gate::compile(&vec![g]);
    let mut sel_col = vec![false; 8];
    sel_col[7] = true;
    let pk = pk_for(gate, vec![sel_col], vec![], 1);

    // Rows 0..7 hold values that violate the raw constraint; row 7 holds 2,
    // so the only active row contributes exactly 1.
    let mut col = vec![Fr::from(5u64); 8];
    col[7] = Fr::from(2u64);
    let acc0 = bare_accumulator(&pk, vec![col.clone()]);
    let acc1 = bare_accumulator(&pk, vec![col]);

    let mut cache = GateEvaluationCache::new(
        &pk.gates[0],
        &acc0.challenges,
        &acc1.challenges,
        1,
    );
    for row in 0..7usize {
        assert!(!cache.evaluate(row, 8, &pk, &acc0, &acc1), "row {} must be skipped", row);
    }
    assert!(cache.evaluate(7, 8, &pk, &acc0, &acc1));
    assert_eq!(cache.gate_eval[0].evals[0], Fr::from(1u64));

    let (_, e0, e1) = error_poly_coeffs(&pk, &acc0, &acc1);
    assert_eq!(e0, Fr::from(1u64));
    assert_eq!(e1, Fr::from(1u64));
}

/// Rotations wrap modulo the domain: a gate reading `fixed[0]` at rotations
/// +1 and -1 sees rows 1 and 7 when evaluated at row 0.
#[test]
fn test_rotation_wrap() {
    let f = |rot: i32| Expression::Fixed(FixedQuery { column_index: 0, rotation: rot });
    let g = sum(f(1), f(-1));
    let gate = Gate::compile(&vec![g]);
    let fixed_col: Vec<Fr> = (0..8u64).map(|row| Fr::from(100 + row)).collect();
    let pk = pk_for(gate, vec![], vec![fixed_col], 0);

    let acc0 = bare_accumulator(&pk, vec![]);
    let acc1 = bare_accumulator(&pk, vec![]);
    let mut cache = GateEvaluationCache::new(
        &pk.gates[0],
        &acc0.challenges,
        &acc1.challenges,
        1,
    );
    assert!(cache.evaluate(0, 8, &pk, &acc0, &acc1));
    // fixed[1] + fixed[7] = 101 + 107.
    assert_eq!(cache.gate_eval[0].evals[0], Fr::from(208u64));
    assert!(cache.evaluate(7, 8, &pk, &acc0, &acc1));
    // fixed[0] + fixed[6] = 100 + 106.
    assert_eq!(cache.gate_eval[0].evals[0], Fr::from(206u64));
}

/// Folding with a fixed challenge of zero reproduces the first accumulator;
/// with one, the second — for the verifier's accumulator, field by field.
#[test]
fn test_fold_with_extremes() {
    let mk = |seed: u64| VerifierAccumulator {
        instance: vec![vec![Fr::from(seed + 1), Fr::from(seed + 2)]],
        advice: vec![point(seed + 3)],
        challenges: vec![Fr::from(seed + 4)],
        lookup_accumulators: vec![LookupAccumulator {
            m: point(seed + 5),
            r: Fr::from(seed + 6),
            thetas: vec![Fr::from(1u64), Fr::from(seed + 7)],
            g: point(seed + 8),
            h: point(seed + 9),
        }],
        beta: Fr::from(seed + 10),
        beta_commitment: point(seed + 11),
        beta_error: point(seed + 12),
        ys: vec![Fr::from(1u64), Fr::from(seed + 13)],
        error: Fr::from(seed + 14),
    };
    let a0 = mk(100);
    let a1 = mk(200);
    let coeffs = vec![Fr::from(17u64)];

    let at0 = VerifierAccumulator::fold_with(&a0, &a1, &coeffs, Fr::from(0u64));
    assert_eq!(at0.instance, a0.instance);
    assert_eq!(at0.advice, a0.advice);
    assert_eq!(at0.challenges, a0.challenges);
    assert_eq!(at0.beta, a0.beta);
    assert_eq!(at0.beta_commitment, a0.beta_commitment);
    assert_eq!(at0.beta_error, a0.beta_error);
    assert_eq!(at0.ys, a0.ys);
    assert_eq!(at0.error, a0.error);
    assert_eq!(at0.lookup_accumulators[0].m, a0.lookup_accumulators[0].m);
    assert_eq!(at0.lookup_accumulators[0].r, a0.lookup_accumulators[0].r);
    assert_eq!(at0.lookup_accumulators[0].thetas, a0.lookup_accumulators[0].thetas);
    assert_eq!(at0.lookup_accumulators[0].g, a0.lookup_accumulators[0].g);
    assert_eq!(at0.lookup_accumulators[0].h, a0.lookup_accumulators[0].h);

    let at1 = VerifierAccumulator::fold_with(&a0, &a1, &coeffs, Fr::from(1u64));
    assert_eq!(at1.instance, a1.instance);
    assert_eq!(at1.advice, a1.advice);
    assert_eq!(at1.challenges, a1.challenges);
    assert_eq!(at1.beta, a1.beta);
    assert_eq!(at1.beta_commitment, a1.beta_commitment);
    assert_eq!(at1.beta_error, a1.beta_error);
    assert_eq!(at1.ys, a1.ys);
    assert_eq!(at1.error, a1.error);
}
