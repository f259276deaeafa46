//! Unit tests of the building blocks: rotation arithmetic, the transcript's
//! byte-level round trip, polynomial evaluation, interpolation and quotient
//! extraction, and the query-driven row buffers.

use halo2curves::bn256::{Fr, G1Affine};
use halo2curves::group::prime::PrimeCurveAffine;
use halo2curves::group::Curve;

use protostar::error_check::{challenge_line_table, rotation_index};
use protostar::expr::Expression;
use protostar::poly::{eval_polynomial, lagrange_coeffs, quotient_poly};
use protostar::queries::{AdviceQuery, Challenge, FixedQuery, InstanceQuery, Selector};
use protostar::row::{Queries, Row};
use protostar::scalar::{scalar_lerp, scalar_powers};
use protostar::transcript::{TranscriptReader, TranscriptWriter};

fn point(k: u64) -> G1Affine {
    (G1Affine::generator() * Fr::from(k)).to_affine()
}

#[test]
fn test_rotation_index_wraps() {
    assert_eq!(rotation_index(0, 1, 8), 1);
    assert_eq!(rotation_index(0, -1, 8), 7);
    assert_eq!(rotation_index(7, 1, 8), 0);
    assert_eq!(rotation_index(3, -11, 8), 0);
    assert_eq!(rotation_index(3, 16, 8), 3);
    assert_eq!(rotation_index(5, 0, 8), 5);
}

#[test]
fn test_transcript_round_trip() {
    let mut w = TranscriptWriter::new();
    let s1 = Fr::from(12345u64);
    let p1 = point(42);
    w.common_scalar(&Fr::from(9u64));
    w.write_scalar(&s1);
    w.write_point(&p1);
    let c_w = w.squeeze_challenge_scalar();
    w.write_scalar(&c_w);
    let proof = w.finalize();

    let mut r = TranscriptReader::new(proof);
    r.common_scalar(&Fr::from(9u64));
    assert_eq!(r.read_scalar().unwrap(), s1);
    assert_eq!(r.read_point().unwrap(), p1);
    let c_r = r.squeeze_challenge_scalar();
    assert_eq!(c_r, c_w, "reader and writer squeeze the same challenge");
    assert_eq!(r.read_scalar().unwrap(), c_w);
    // The proof is exhausted: another read fails and reports it.
    assert_eq!(r.read_scalar().err(), Some(protostar::Error::TranscriptError));
}

#[test]
fn test_transcript_divergence_changes_challenge() {
    let mut w1 = TranscriptWriter::new();
    w1.common_scalar(&Fr::from(1u64));
    let c1 = w1.squeeze_challenge_scalar();
    let mut w2 = TranscriptWriter::new();
    w2.common_scalar(&Fr::from(2u64));
    let c2 = w2.squeeze_challenge_scalar();
    assert_ne!(c1, c2, "different absorbed values give different challenges");
}

#[test]
fn test_eval_polynomial_horner() {
    // 2 + 3 X at X = 5.
    let coeffs = vec![Fr::from(2u64), Fr::from(3u64)];
    assert_eq!(eval_polynomial(&coeffs, Fr::from(5u64)), Fr::from(17u64));
    // 1 + 2 X + 4 X^2 at X = 3.
    let coeffs = vec![Fr::from(1u64), Fr::from(2u64), Fr::from(4u64)];
    assert_eq!(eval_polynomial(&coeffs, Fr::from(3u64)), Fr::from(43u64));
    assert_eq!(eval_polynomial(&vec![], Fr::from(3u64)), Fr::from(0u64));
}

#[test]
fn test_lagrange_interpolation() {
    // Constant samples interpolate to a constant polynomial.
    let samples = vec![Fr::from(5u64), Fr::from(5u64)];
    let coeffs = lagrange_coeffs(&samples);
    assert_eq!(coeffs, vec![Fr::from(5u64), Fr::from(0u64)]);

    // Samples of 1 + 2 X at the nodes 0, 1, 2.
    let samples = vec![Fr::from(1u64), Fr::from(3u64), Fr::from(5u64)];
    let coeffs = lagrange_coeffs(&samples);
    for (node, expected) in samples.iter().enumerate() {
        assert_eq!(eval_polynomial(&coeffs, Fr::from(node as u64)), *expected);
    }
    assert_eq!(coeffs[0], Fr::from(1u64));
    assert_eq!(coeffs[1], Fr::from(2u64));
    assert_eq!(coeffs[2], Fr::from(0u64));
}

#[test]
fn test_quotient_poly() {
    // e(X) = k X - k X^2 = X (1 - X) k, with e(0) = e(1) = 0: e' = [k].
    let k = Fr::from(7u64);
    let e = vec![Fr::from(0u64), k, -k];
    let q = quotient_poly(&e, Fr::from(0u64), Fr::from(0u64));
    assert_eq!(q, vec![k]);

    // e(X) = (1 - X) e0 + X e1 exactly: the quotient is empty for length 2.
    let e = vec![Fr::from(4u64), Fr::from(2u64)];
    let q = quotient_poly(&e, Fr::from(4u64), Fr::from(6u64));
    assert_eq!(q.len(), 0);
}

#[test]
fn test_scalar_lerp_endpoints() {
    let a = Fr::from(11u64);
    let b = Fr::from(29u64);
    assert_eq!(scalar_lerp(a, b, Fr::from(0u64)), a);
    assert_eq!(scalar_lerp(a, b, Fr::from(1u64)), b);
    assert_eq!(scalar_lerp(a, a, Fr::from(77u64)), a);
}

#[test]
fn test_scalar_powers_start_at_one() {
    let y = Fr::from(3u64);
    let p = scalar_powers(y, 4);
    assert_eq!(p, vec![Fr::from(1u64), Fr::from(3u64), Fr::from(9u64), Fr::from(27u64)]);
}

#[test]
fn test_challenge_line_table_rows() {
    let acc = vec![Fr::from(10u64), Fr::from(20u64)];
    let new = vec![Fr::from(16u64), Fr::from(14u64)];
    let table = challenge_line_table(&acc, &new, 4);
    assert_eq!(table.len(), 4);
    assert_eq!(table[0], acc);
    assert_eq!(table[1], new);
    assert_eq!(table[2], vec![Fr::from(22u64), Fr::from(8u64)]);
    assert_eq!(table[3], vec![Fr::from(28u64), Fr::from(2u64)]);
}

#[test]
fn test_queries_and_row_evaluation() {
    // G = s * fixed[0](rot 0) + a(rot 0) * c^2, collected without compiling.
    let s = Selector { index: 0, is_simple: false };
    let g = Expression::Sum(
        Box::new(Expression::Product(
            Box::new(Expression::Selector(s)),
            Box::new(Expression::Fixed(FixedQuery { column_index: 0, rotation: 0 })),
        )),
        Box::new(Expression::Product(
            Box::new(Expression::Advice(AdviceQuery { column_index: 0, rotation: 0 })),
            Box::new(Expression::Challenge(Challenge { index: 0, power: 2 })),
        )),
    );
    let polys = vec![g];
    let queries = Queries::from_polys(&polys);
    assert_eq!(queries.selectors, vec![s]);
    assert_eq!(queries.fixed, vec![FixedQuery { column_index: 0, rotation: 0 }]);
    assert_eq!(queries.advice, vec![AdviceQuery { column_index: 0, rotation: 0 }]);
    assert_eq!(queries.challenges, vec![Challenge { index: 0, power: 2 }]);

    let qexpr = queries.queried_expression(&polys[0]);
    // Challenge powers table: c = 3, so c^2 = 9.
    let chal_values = queries.queried_challenges(&vec![vec![Fr::from(3u64), Fr::from(9u64)]]);
    assert_eq!(chal_values, vec![Fr::from(9u64)]);

    let selectors = vec![vec![true; 4]];
    let fixed = vec![vec![Fr::from(100u64); 4]];
    let advice0 = vec![vec![Fr::from(2u64); 4]];
    let advice1 = vec![vec![Fr::from(6u64); 4]];
    let instance0: Vec<Vec<Fr>> = vec![];
    let instance1: Vec<Vec<Fr>> = vec![];

    let mut row = Row::new(queries, 3);
    row.populate_all_evaluated(
        0,
        4,
        &selectors,
        &fixed,
        &instance0,
        &instance1,
        &advice0,
        &advice1,
    );
    // At sample 0: 1 * 100 + 2 * 9 = 118. At sample 1: 1 * 100 + 6 * 9 = 154.
    // At sample 2 the advice buffer has walked to 10: 1 * 100 + 10 * 9 = 190.
    assert_eq!(row.evaluate_at(0, &qexpr, &chal_values), Fr::from(118u64));
    assert_eq!(row.evaluate_at(1, &qexpr, &chal_values), Fr::from(154u64));
    assert_eq!(row.evaluate_at(2, &qexpr, &chal_values), Fr::from(190u64));

    // A single-assignment load evaluates against that assignment alone.
    let mut row2 = Row::new(Queries::from_polys(&polys), 1);
    row2.populate_all(1, 4, &selectors, &fixed, &instance0, &advice0);
    assert_eq!(row2.evaluate_at(0, &qexpr, &chal_values), Fr::from(118u64));
}

#[test]
fn test_expr_evaluate_buffers() {
    // G = (a + i) * 5 - sel, indexed over singleton tables.
    let g = Expression::Sum(
        Box::new(Expression::Scaled(
            Box::new(Expression::Sum(
                Box::new(Expression::Advice(AdviceQuery { column_index: 0, rotation: 0 })),
                Box::new(Expression::Instance(InstanceQuery { column_index: 0, rotation: 0 })),
            )),
            Fr::from(5u64),
        )),
        Box::new(Expression::Negated(Box::new(Expression::Selector(Selector {
            index: 0,
            is_simple: false,
        })))),
    );
    let gate = protostar::gate::Gate::compile(&vec![g]);
    let value = gate.polys[0].evaluate(
        &vec![Fr::from(1u64)],
        &vec![],
        &vec![Fr::from(2u64)],
        &vec![Fr::from(3u64)],
        &vec![],
    );
    // (2 + 3) * 5 - 1 = 24.
    assert_eq!(value, Fr::from(24u64));
}

#[test]
fn test_read_point_rejects_invalid_encoding() {
    // 32 bytes that are not a valid compressed point.
    let mut r = TranscriptReader::new(vec![0xffu8; 32]);
    assert_eq!(r.read_point().err(), Some(protostar::Error::TranscriptError));
    // Fewer than 32 remaining bytes also fail.
    let mut r = TranscriptReader::new(vec![1u8; 5]);
    assert_eq!(r.read_point().err(), Some(protostar::Error::TranscriptError));
    assert_eq!(r.read_scalar().err(), Some(protostar::Error::TranscriptError));
}
