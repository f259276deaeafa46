//! The hash behind the Fiat-Shamir transcript, as a trusted wrapper.

use vstd::prelude::*;

verus! {

/// What the unkeyed BLAKE2b-512 digest of a byte string is.
pub uninterp spec fn blake2b_of(input: Seq<u8>) -> Seq<u8>;

/// Relies on `blake2b_simd::blake2b`: the 64-byte BLAKE2b-512 digest, a
/// function of the input bytes alone.
#[verifier::external_body]
pub(crate) fn blake2b_hash(input: &Vec<u8>) -> (r: Vec<u8>)
    ensures
        r@ == blake2b_of(input@),
        r@.len() == 64,
{
    blake2b_simd::blake2b(input.as_slice()).as_bytes().to_vec()
}

} // verus!
