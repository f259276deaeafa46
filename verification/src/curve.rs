//! The bn256 curve, seen through trusted wrappers.
//!
//! Accumulator folding treats commitments as opaque group elements: every
//! curve computation the library relies on is one wrapper here, its result a
//! named, uninterpreted spec function, with the group facts the folding laws
//! need (the identity and the unit scalar reproduce an endpoint) stated where
//! the `group` crate documents them.

use vstd::prelude::*;

use halo2curves::bn256::{Fr, G1Affine};
use halo2curves::group::prime::PrimeCurveAffine;
use halo2curves::group::{Curve, GroupEncoding};

use crate::scalar::fr_u64;

verus! {

#[verifier::external_type_specification]
#[verifier::external_body]
pub struct ExG1Affine(G1Affine);

/// What the affine line interpolation `p0 + s * (p1 - p0)` returns.
pub uninterp spec fn plerp(p0: G1Affine, p1: G1Affine, s: Fr) -> G1Affine;

/// What the two-term linear combination `a * sa + b * sb` returns, in affine
/// form.
pub uninterp spec fn plin2(a: G1Affine, sa: Fr, b: G1Affine, sb: Fr) -> G1Affine;

/// What the three-term linear combination `a * sa + b * sb + c * sc` returns,
/// in affine form.
pub uninterp spec fn plin3(a: G1Affine, sa: Fr, b: G1Affine, sb: Fr, c: G1Affine, sc: Fr) -> G1Affine;

/// What `G1Affine::is_identity` returns.
pub uninterp spec fn pt_is_id(p: G1Affine) -> bool;

/// What the compressed encoding `G1Affine::to_bytes` returns.
pub uninterp spec fn pt_bytes(p: G1Affine) -> Seq<u8>;

/// What `G1Affine::from_bytes` returns: the decoded point, or `None` on an
/// invalid encoding.
pub uninterp spec fn pt_of_bytes(b: Seq<u8>) -> Option<G1Affine>;

/// Relies on bn256 group arithmetic of halo2curves (`Sub`, `Mul`, `Add`,
/// `Curve::to_affine`): scaling by `Fr::from(0)` gives the identity, adding
/// the identity changes nothing, and scaling by `Fr::from(1)` changes nothing,
/// so the interpolated line reproduces its endpoints.
#[verifier::external_body]
pub(crate) fn point_lerp(p0: G1Affine, p1: G1Affine, s: Fr) -> (r: G1Affine)
    ensures
        r == plerp(p0, p1, s),
        s == fr_u64(0) ==> r == p0,
        s == fr_u64(1) ==> r == p1,
        p0 == p1 ==> r == p0,
{
    ((p1 - p0) * s + p0).to_affine()
}

/// Relies on bn256 group arithmetic of halo2curves: the two-term combination
/// `a * sa + b * sb` in affine form.
#[verifier::external_body]
pub(crate) fn point_lin2(a: G1Affine, sa: Fr, b: G1Affine, sb: Fr) -> (r: G1Affine)
    ensures
        r == plin2(a, sa, b, sb),
{
    (a * sa + b * sb).to_affine()
}

/// Relies on bn256 group arithmetic of halo2curves: the three-term combination
/// `a * sa + b * sb + c * sc` in affine form. With a unit scalar on one point
/// and zero on the others it returns that point.
#[verifier::external_body]
pub(crate) fn point_lin3(a: G1Affine, sa: Fr, b: G1Affine, sb: Fr, c: G1Affine, sc: Fr) -> (r: G1Affine)
    ensures
        r == plin3(a, sa, b, sb, c, sc),
        sa == fr_u64(1) && sb == fr_u64(0) && sc == fr_u64(0) ==> r == a,
        sa == fr_u64(0) && sb == fr_u64(1) && sc == fr_u64(0) ==> r == b,
{
    (a * sa + b * sb + c * sc).to_affine()
}

/// Relies on `G1Affine::identity` and the uniqueness of the group identity:
/// the returned point is the one point for which `is_identity` holds.
#[verifier::external_body]
pub(crate) fn g1_identity() -> (r: G1Affine)
    ensures
        pt_is_id(r),
        forall|q: G1Affine| pt_is_id(q) ==> q == r,
{
    G1Affine::identity()
}

/// Relies on `GroupEncoding::to_bytes` for bn256: a 32-byte compressed
/// encoding that `from_bytes` decodes back to the same point.
#[verifier::external_body]
pub(crate) fn point_to_bytes(p: &G1Affine) -> (r: Vec<u8>)
    ensures
        r@ == pt_bytes(*p),
        r@.len() == 32,
        pt_of_bytes(r@) == Some(*p),
{
    p.to_bytes().as_ref().to_vec()
}

/// Relies on `GroupEncoding::from_bytes` for bn256: succeeds exactly on valid
/// compressed encodings.
#[verifier::external_body]
pub(crate) fn point_from_bytes(b: &[u8]) -> (r: Option<G1Affine>)
    requires
        b@.len() == 32,
    ensures
        r == pt_of_bytes(b@),
{
    Option::<G1Affine>::from(G1Affine::from_bytes(&b.into()))
}

} // verus!
