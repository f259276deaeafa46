//! The bn256 scalar field, seen through trusted wrappers.
//!
//! Field arithmetic is performed by `halo2curves`; every operation the library
//! relies on is a wrapper here whose result is a named, uninterpreted spec
//! function. Contracts elsewhere in the crate are stated over those names, and
//! the algebraic facts the proofs need (identities, commutativity of addition,
//! subtraction as the inverse of addition) are stated beside each call, where
//! the `ff` documentation of a prime field plainly gives them.

use vstd::prelude::*;

use halo2curves::bn256::Fr;
use halo2curves::ff::Field;
use halo2curves::ff::FromUniformBytes;
use halo2curves::ff::PrimeField;

verus! {

#[verifier::external_type_specification]
#[verifier::external_body]
pub struct ExFr(Fr);

/// What bn256 field addition returns.
pub uninterp spec fn fadd(a: Fr, b: Fr) -> Fr;

/// What bn256 field subtraction returns.
pub uninterp spec fn fsub(a: Fr, b: Fr) -> Fr;

/// What bn256 field multiplication returns.
pub uninterp spec fn fmul(a: Fr, b: Fr) -> Fr;

/// What bn256 field negation returns.
pub uninterp spec fn fneg(a: Fr) -> Fr;

/// What `Fr::from(u64)` returns.
pub uninterp spec fn fr_u64(n: u64) -> Fr;

/// What `ff::Field::invert` returns: the multiplicative inverse, or `None` on zero.
pub uninterp spec fn finv(a: Fr) -> Option<Fr>;

/// Relies on `Fr::from(u64)` of halo2curves: the canonical embedding of small
/// integers, injective because the field modulus is far above `u64::MAX`.
#[verifier::external_body]
pub(crate) fn scalar_from_u64(n: u64) -> (r: Fr)
    ensures
        r == fr_u64(n),
        forall|m: u64| m != n ==> r != fr_u64(m),
{
    Fr::from(n)
}

/// Relies on bn256 field addition: commutative, with `Fr::from(0)` as identity.
#[verifier::external_body]
pub(crate) fn scalar_add(a: Fr, b: Fr) -> (r: Fr)
    ensures
        r == fadd(a, b),
        r == fadd(b, a),
        a == fr_u64(0) ==> r == b,
        b == fr_u64(0) ==> r == a,
{
    a + b
}

/// Relies on bn256 field subtraction: the inverse of addition, zero exactly on
/// equal arguments.
#[verifier::external_body]
pub(crate) fn scalar_sub(a: Fr, b: Fr) -> (r: Fr)
    ensures
        r == fsub(a, b),
        fadd(r, b) == a,
        fadd(b, r) == a,
        a == b ==> r == fr_u64(0),
        a != b ==> r != fr_u64(0),
        b == fr_u64(0) ==> r == a,
{
    a - b
}

/// Relies on bn256 field multiplication: commutative, with `Fr::from(1)` as
/// identity and `Fr::from(0)` absorbing.
#[verifier::external_body]
pub(crate) fn scalar_mul(a: Fr, b: Fr) -> (r: Fr)
    ensures
        r == fmul(a, b),
        r == fmul(b, a),
        a == fr_u64(0) ==> r == fr_u64(0),
        b == fr_u64(0) ==> r == fr_u64(0),
        a == fr_u64(1) ==> r == b,
        b == fr_u64(1) ==> r == a,
        a != fr_u64(0) && b != fr_u64(0) ==> r != fr_u64(0),
{
    a * b
}

/// Relies on bn256 field negation: the additive inverse, fixing zero.
#[verifier::external_body]
pub(crate) fn scalar_neg(a: Fr) -> (r: Fr)
    ensures
        r == fneg(a),
        fadd(a, r) == fr_u64(0),
        fadd(r, a) == fr_u64(0),
        a == fr_u64(0) ==> r == fr_u64(0),
{
    -a
}

/// Relies on `ff::Field::invert` for bn256: fails exactly on zero, and
/// otherwise returns the multiplicative inverse.
#[verifier::external_body]
pub(crate) fn scalar_invert(a: Fr) -> (r: Option<Fr>)
    ensures
        r == finv(a),
        r is Some <==> a != fr_u64(0),
        r matches Some(x) ==> fmul(a, x) == fr_u64(1) && fmul(x, a) == fr_u64(1),
{
    Option::<Fr>::from(a.invert())
}

/// What `ff::PrimeField::to_repr` returns: the canonical 32-byte encoding.
pub uninterp spec fn fr_repr(a: Fr) -> Seq<u8>;

/// What `ff::PrimeField::from_repr` returns: the encoded element, or `None`
/// on a non-canonical encoding.
pub uninterp spec fn fr_of_repr(bytes: Seq<u8>) -> Option<Fr>;

/// What `ff::FromUniformBytes::<64>::from_uniform_bytes` returns.
pub uninterp spec fn fr_wide(bytes: Seq<u8>) -> Fr;

/// Relies on `to_repr` for bn256 `Fr`: the canonical little-endian encoding,
/// 32 bytes, decoded back to the same element by `from_repr`.
#[verifier::external_body]
pub(crate) fn scalar_to_repr(a: &Fr) -> (r: Vec<u8>)
    ensures
        r@ == fr_repr(*a),
        r@.len() == 32,
        fr_of_repr(r@) == Some(*a),
{
    a.to_repr().as_ref().to_vec()
}

/// Relies on `from_repr` for bn256 `Fr`: succeeds exactly on canonical
/// encodings, and what it decodes re-encodes to the same bytes.
#[verifier::external_body]
pub(crate) fn scalar_from_repr(bytes: &[u8]) -> (r: Option<Fr>)
    requires
        bytes@.len() == 32,
    ensures
        r == fr_of_repr(bytes@),
        r matches Some(x) ==> fr_repr(x) == bytes@,
{
    Option::<Fr>::from(Fr::from_repr(halo2curves::serde::Repr::from(bytes)))
}

/// Relies on `from_uniform_bytes` for bn256 `Fr`: a field element computed
/// from 64 bytes alone.
#[verifier::external_body]
pub(crate) fn scalar_from_uniform(bytes: &[u8]) -> (r: Fr)
    requires
        bytes@.len() == 64,
    ensures
        r == fr_wide(bytes@),
{
    let mut arr = [0u8; 64];
    arr.copy_from_slice(bytes);
    Fr::from_uniform_bytes(&arr)
}

/// The `k`-th power of `y`, with `fpow(y, 0) == Fr::from(1)`.
pub open spec fn fpow(y: Fr, k: nat) -> Fr
    decreases k,
{
    if k == 0 {
        fr_u64(1)
    } else {
        fmul(fpow(y, (k - 1) as nat), y)
    }
}

/// The first `count` powers of `y`, starting from `Fr::from(1)`.
pub fn scalar_powers(y: Fr, count: usize) -> (r: Vec<Fr>)
    ensures
        r@.len() == count,
        forall|k: int| 0 <= k < count ==> r@[k] == fpow(y, k as nat),
{
    let mut out: Vec<Fr> = Vec::new();
    let mut cur = scalar_from_u64(1);
    let mut k: usize = 0;
    while k < count
        invariant
            k <= count,
            out@.len() == k,
            cur == fpow(y, k as nat),
            forall|i: int| 0 <= i < k ==> out@[i] == fpow(y, i as nat),
        decreases count - k,
    {
        out.push(cur);
        cur = scalar_mul(cur, y);
        k = k + 1;
    }
    out
}

/// The sequence `1, y, y^2, ...` of length `n`.
pub open spec fn spec_powers_seq(y: Fr, n: nat) -> Seq<Fr> {
    Seq::new(n, |k: int| fpow(y, k as nat))
}

/// The powers `y^1 .. y^count` of `y`.
pub fn scalar_powers_from(y: Fr, count: usize) -> (r: Vec<Fr>)
    ensures
        r@.len() == count,
        forall|k: int| 0 <= k < count ==> r@[k] == fpow(y, (k + 1) as nat),
{
    let mut out: Vec<Fr> = Vec::new();
    let one = scalar_from_u64(1);
    let mut cur = scalar_mul(one, y);
    proof {
        assert(fpow(y, 1) == fmul(fpow(y, 0), y));
        assert(fpow(y, 0) == fr_u64(1));
    }
    let mut k: usize = 0;
    while k < count
        invariant
            k <= count,
            out@.len() == k,
            cur == fpow(y, (k + 1) as nat),
            forall|i: int| 0 <= i < k ==> out@[i] == fpow(y, (i + 1) as nat),
        decreases count - k,
    {
        out.push(cur);
        cur = scalar_mul(cur, y);
        k = k + 1;
    }
    out
}

/// The value of every element of the accumulator fold line
/// `x0 + alpha * (x1 - x0)`.
pub open spec fn flerp(x0: Fr, x1: Fr, alpha: Fr) -> Fr {
    fadd(fmul(fsub(x1, x0), alpha), x0)
}

/// Linear interpolation between two scalars, as used for every scalar entry of
/// a folded accumulator. At the line's endpoints it reproduces the endpoints.
pub fn scalar_lerp(x0: Fr, x1: Fr, alpha: Fr) -> (r: Fr)
    ensures
        r == flerp(x0, x1, alpha),
        alpha == fr_u64(0) ==> r == x0,
        alpha == fr_u64(1) ==> r == x1,
        x0 == x1 ==> r == x0,
{
    let d = scalar_sub(x1, x0);
    let m = scalar_mul(d, alpha);
    scalar_add(m, x0)
}

} // verus!
