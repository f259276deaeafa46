//! Coefficient-form polynomials over the scalar field.
//!
//! The prover interpolates the summed error samples at the integer nodes
//! `0, 1, ...` into coefficients, extracts the quotient polynomial that the
//! transcript carries, and the verifier evaluates that quotient by Horner's
//! rule. Coefficients are stored in ascending order of degree.

use vstd::prelude::*;

use halo2curves::bn256::Fr;

use crate::scalar::{
    fadd, finv, fmul, fneg, fr_u64, fsub, scalar_add, scalar_from_u64, scalar_invert, scalar_mul,
    scalar_neg, scalar_sub,
};

verus! {

/// Horner evaluation of ascending coefficients: the empty polynomial is zero.
pub open spec fn spec_horner(coeffs: Seq<Fr>, x: Fr) -> Fr
    decreases coeffs.len(),
{
    if coeffs.len() == 0 {
        fr_u64(0)
    } else {
        fadd(fmul(spec_horner(coeffs.drop_first(), x), x), coeffs[0])
    }
}

/// Evaluate a polynomial, given by ascending coefficients, at `x` by Horner's
/// rule.
pub fn eval_polynomial(coeffs: &Vec<Fr>, x: Fr) -> (r: Fr)
    ensures
        r == spec_horner(coeffs@, x),
{
    let n = coeffs.len();
    let mut acc = scalar_from_u64(0);
    let mut i: usize = n;
    while i > 0
        invariant
            i <= n,
            n == coeffs@.len(),
            acc == spec_horner(coeffs@.subrange(i as int, n as int), x),
        decreases i,
    {
        let m = scalar_mul(acc, x);
        acc = scalar_add(m, coeffs[i - 1]);
        proof {
            assert(coeffs@.subrange(i - 1, n as int).drop_first() =~= coeffs@.subrange(
                i as int,
                n as int,
            ));
        }
        i = i - 1;
    }
    proof {
        assert(coeffs@.subrange(0, n as int) =~= coeffs@);
    }
    acc
}

/// Coefficients of `p(X) * (X + c)`.
pub open spec fn spec_mul_linear(p: Seq<Fr>, c: Fr) -> Seq<Fr> {
    Seq::new(
        p.len() + 1,
        |k: int|
            if k == 0 {
                fmul(c, p[0])
            } else if k == p.len() {
                p[k - 1]
            } else {
                fadd(p[k - 1], fmul(c, p[k]))
            },
    )
}

/// Multiply ascending coefficients by the linear factor `X + c`.
pub fn poly_mul_linear(p: &Vec<Fr>, c: Fr) -> (r: Vec<Fr>)
    requires
        p@.len() >= 1,
        p@.len() < usize::MAX,
    ensures
        r@ == spec_mul_linear(p@, c),
{
    let n = p.len();
    let mut out: Vec<Fr> = Vec::new();
    out.push(scalar_mul(c, p[0]));
    let mut k: usize = 1;
    while k < n
        invariant
            1 <= k <= n,
            n == p@.len(),
            out@.len() == k,
            forall|i: int| 0 <= i < k ==> out@[i] == spec_mul_linear(p@, c)[i],
        decreases n - k,
    {
        let m = scalar_mul(c, p[k]);
        out.push(scalar_add(p[k - 1], m));
        proof {
            assert(out@[k as int] == fadd(p@[k - 1], fmul(c, p@[k as int])));
        }
        k = k + 1;
    }
    out.push(p[n - 1]);
    proof {
        assert(out@ =~= spec_mul_linear(p@, c));
    }
    out
}

/// The interpolation basis numerator for node `i` over the nodes `0 .. upto`:
/// the product of `X - m` over every node `m != i`, in ascending node order.
pub open spec fn spec_basis(i: int, upto: int) -> Seq<Fr>
    decreases upto,
{
    if upto <= 0 {
        seq![fr_u64(1)]
    } else if upto - 1 == i {
        spec_basis(i, upto - 1)
    } else {
        spec_mul_linear(spec_basis(i, upto - 1), fneg(fr_u64((upto - 1) as u64)))
    }
}

/// The denominator for node `i` over the nodes `0 .. upto`: the product of
/// `i - m` over every node `m != i`, in ascending node order.
pub open spec fn spec_denom(i: int, upto: int) -> Fr
    decreases upto,
{
    if upto <= 0 {
        fr_u64(1)
    } else if upto - 1 == i {
        spec_denom(i, upto - 1)
    } else {
        fmul(spec_denom(i, upto - 1), fsub(fr_u64(i as u64), fr_u64((upto - 1) as u64)))
    }
}

/// Unwrap an inverse that is known to exist.
pub open spec fn spec_unwrap(o: Option<Fr>) -> Fr {
    match o {
        Some(v) => v,
        None => fr_u64(0),
    }
}

/// The contribution of node `i` to the interpolated coefficients: the basis
/// numerator scaled by `samples[i] / denom(i)`.
pub open spec fn spec_contribution(samples: Seq<Fr>, i: int) -> Seq<Fr> {
    let n = samples.len() as int;
    let scale = fmul(samples[i], spec_unwrap(finv(spec_denom(i, n))));
    Seq::new(spec_basis(i, n).len(), |k: int| fmul(spec_basis(i, n)[k], scale))
}

/// The interpolated coefficients after the contributions of nodes `0 .. i`.
pub open spec fn spec_lagrange_upto(samples: Seq<Fr>, i: int) -> Seq<Fr>
    decreases i,
{
    if i <= 0 {
        Seq::new(samples.len(), |k: int| fr_u64(0))
    } else {
        let prev = spec_lagrange_upto(samples, i - 1);
        let c = spec_contribution(samples, i - 1);
        Seq::new(
            prev.len(),
            |k: int|
                if k < c.len() {
                    fadd(prev[k], c[k])
                } else {
                    prev[k]
                },
        )
    }
}

/// The coefficients interpolating the samples at the nodes `0, 1, ...`.
pub open spec fn spec_lagrange(samples: Seq<Fr>) -> Seq<Fr> {
    spec_lagrange_upto(samples, samples.len() as int)
}

/// The basis numerator over `n` nodes, one of them skipped, has `n`
/// coefficients.
pub proof fn lemma_basis_len(i: int, upto: int)
    requires
        0 <= i < upto,
    ensures
        spec_basis(i, upto).len() == upto,
    decreases upto,
{
    if upto == 1 {
    } else if upto - 1 == i {
        lemma_basis_len_small(i, upto - 1);
    } else {
        lemma_basis_len(i, upto - 1);
    }
}

/// Before the skipped node is reached the basis has one coefficient more than
/// nodes seen.
proof fn lemma_basis_len_small(i: int, upto: int)
    requires
        upto <= i,
        0 <= upto,
    ensures
        spec_basis(i, upto).len() == upto + 1,
    decreases upto,
{
    if upto > 0 {
        lemma_basis_len_small(i, upto - 1);
    }
}

/// The reduced coefficients of `e(X) - e0 - X * (e1 - e0)`, already divided
/// once by `X`: entry 0 is `e[1] - (e1 - e0)`, and entry `k` is `e[k + 1]`.
/// (The constant term `e[0] - e0` of the reduced polynomial is zero whenever
/// `e(0) == e0`, so dividing by `X` drops it.)
pub open spec fn spec_reduced_shift(e: Seq<Fr>, e0: Fr, e1: Fr) -> Seq<Fr> {
    Seq::new(
        (e.len() - 1) as nat,
        |k: int|
            if k == 0 {
                fsub(e[1], fsub(e1, e0))
            } else {
                e[k + 1]
            },
    )
}

/// Division of ascending coefficients by `1 - X`: the quotient coefficient at
/// `k` is the prefix sum of the dividend's coefficients up to `k`.
pub open spec fn spec_div_one_minus_x(d: Seq<Fr>, k: int) -> Fr
    decreases k,
{
    if k <= 0 {
        d[0]
    } else {
        fadd(d[k], spec_div_one_minus_x(d, k - 1))
    }
}

/// Extract the quotient `e'` with `e(X) = (1-X)·e0 + X·e1 + X·(1-X)·e'(X)`
/// from the coefficients of `e`, given the endpoint values `e0 = e(0)` and
/// `e1 = e(1)`: subtract the endpoint line, divide by `X`, then divide by
/// `1 - X` by prefix sums, dropping the vanishing remainder.
pub fn quotient_poly(e: &Vec<Fr>, e0: Fr, e1: Fr) -> (r: Vec<Fr>)
    requires
        e@.len() >= 2,
    ensures
        r@.len() == e@.len() - 2,
        forall|k: int|
            0 <= k < r@.len() ==> r@[k] == spec_div_one_minus_x(
                spec_reduced_shift(e@, e0, e1),
                k,
            ),
{
    let n = e.len();
    let d1 = scalar_sub(e[1], scalar_sub(e1, e0));
    let mut out: Vec<Fr> = Vec::new();
    let mut running = d1;
    let mut k: usize = 0;
    while k < n - 2
        invariant
            k <= n - 2,
            n == e@.len(),
            n >= 2,
            d1 == spec_reduced_shift(e@, e0, e1)[0],
            out@.len() == k,
            running == spec_div_one_minus_x(spec_reduced_shift(e@, e0, e1), if k == 0 {
                0int
            } else {
                k - 1
            }),
            forall|t: int|
                0 <= t < k ==> out@[t] == spec_div_one_minus_x(spec_reduced_shift(e@, e0, e1), t),
        decreases n - 2 - k,
    {
        if k > 0 {
            running = scalar_add(e[k + 1], running);
        }
        out.push(running);
        k = k + 1;
    }
    out
}

/// Interpolate the samples taken at the nodes `0, 1, ...` into ascending
/// coefficients. The node differences are nonzero small integers, so every
/// denominator has an inverse.
#[verifier::loop_isolation(false)]
pub fn lagrange_coeffs(samples: &Vec<Fr>) -> (r: Vec<Fr>)
    requires
        samples@.len() < u32::MAX,
    ensures
        r@ == spec_lagrange(samples@),
        r@.len() == samples@.len(),
{
    let n = samples.len();
    let mut out: Vec<Fr> = Vec::new();
    let mut k: usize = 0;
    while k < n
        invariant
            k <= n,
            out@.len() == k,
            forall|t: int| 0 <= t < k ==> out@[t] == fr_u64(0),
        decreases n - k,
    {
        out.push(scalar_from_u64(0));
        k = k + 1;
    }
    proof {
        assert(out@ =~= spec_lagrange_upto(samples@, 0));
    }

    let mut i: usize = 0;
    while i < n
        invariant
            i <= n,
            out@ == spec_lagrange_upto(samples@, i as int),
            out@.len() == n,
        decreases n - i,
    {
        // Build the basis numerator for node i and its denominator.
        let mut basis: Vec<Fr> = Vec::new();
        basis.push(scalar_from_u64(1));
        let mut denom = scalar_from_u64(1);
        let mut m: usize = 0;
        while m < n
            invariant
                m <= n,
                basis@ == spec_basis(i as int, m as int),
                1 <= basis@.len() <= m + 1,
                denom == spec_denom(i as int, m as int),
                denom != fr_u64(0),
            decreases n - m,
        {
            if m != i {
                let node = scalar_from_u64(m as u64);
                basis = poly_mul_linear(&basis, scalar_neg(node));
                let d = scalar_sub(scalar_from_u64(i as u64), scalar_from_u64(m as u64));
                denom = scalar_mul(denom, d);
            }
            m = m + 1;
        }

        // The denominator is a product of nonzero factors, hence nonzero in a
        // field, so it has an inverse.
        let inv = match scalar_invert(denom) {
            Some(v) => v,
            None => {
                proof {
                    assert(false);
                }
                scalar_from_u64(0)
            },
        };
        let scale = scalar_mul(samples[i], inv);

        // Add the scaled basis into the accumulated coefficients.
        proof {
            lemma_basis_len(i as int, n as int);
        }
        let mut k: usize = 0;
        let ghost before = out@;
        while k < n
            invariant
                k <= n,
                out@.len() == n,
                basis@.len() == n,
                forall|t: int|
                    0 <= t < k ==> out@[t] == fadd(before[t], fmul(basis@[t], scale)),
                forall|t: int| k <= t < n ==> out@[t] == before[t],
            decreases n - k,
        {
            let m2 = scalar_mul(basis[k], scale);
            let v = scalar_add(out[k], m2);
            out[k] = v;
            k = k + 1;
        }
        proof {
            assert(out@ =~= spec_lagrange_upto(samples@, i + 1));
        }
        i = i + 1;
    }
    out
}

} // verus!
