//! A byte-level Fiat-Shamir transcript.
//!
//! The writer absorbs every value into a running byte string and appends the
//! proof bytes it emits; the reader replays the same absorption while decoding
//! the proof bytes. A challenge is squeezed by hashing the absorbed string, so
//! a reader that has absorbed the same bytes as the writer squeezes the same
//! challenge: prover and verifier agree as long as writes and reads are
//! symmetric.

use vstd::prelude::*;

use halo2curves::bn256::{Fr, G1Affine};

use crate::curve::{point_from_bytes, point_to_bytes, pt_bytes, pt_of_bytes};
use crate::hash::{blake2b_hash, blake2b_of};
use crate::scalar::{fr_of_repr, fr_repr, fr_wide, scalar_from_repr, scalar_from_uniform, scalar_to_repr};
use crate::Error;

verus! {

/// Absorption prefix of a squeeze.
pub const PREFIX_CHALLENGE: u8 = 0;

/// Absorption prefix of a point.
pub const PREFIX_POINT: u8 = 1;

/// Absorption prefix of a scalar.
pub const PREFIX_SCALAR: u8 = 2;

/// Append all of `src` to `dst`.
pub fn push_bytes(dst: &mut Vec<u8>, src: &Vec<u8>)
    ensures
        final(dst)@ == old(dst)@ + src@,
{
    let mut i: usize = 0;
    while i < src.len()
        invariant
            i <= src@.len(),
            dst@ == old(dst)@ + src@.subrange(0, i as int),
        decreases src@.len() - i,
    {
        dst.push(src[i]);
        proof {
            assert(old(dst)@ + src@.subrange(0, i as int) + seq![src@[i as int]] =~= old(dst)@
                + src@.subrange(0, i + 1));
        }
        i = i + 1;
    }
    proof {
        assert(src@.subrange(0, src@.len() as int) =~= src@);
    }
}

/// Copy `len` bytes of `src` starting at `start`.
pub fn read_exact(src: &Vec<u8>, start: usize, len: usize) -> (r: Vec<u8>)
    requires
        start + len <= src@.len(),
    ensures
        r@ == src@.subrange(start as int, start as int + len as int),
{
    let mut out: Vec<u8> = Vec::new();
    let total = src.len();
    let mut i: usize = 0;
    while i < len
        invariant
            i <= len,
            start + len <= total,
            total == src@.len(),
            out@.len() == i,
            forall|k: int| 0 <= k < i ==> out@[k] == src@[start + k],
        decreases len - i,
    {
        out.push(src[start + i]);
        i = i + 1;
    }
    proof {
        assert(out@ =~= src@.subrange(start as int, start as int + len as int));
    }
    out
}

/// The proof bytes that writing a list of scalars emits: their canonical
/// encodings, in order.
pub open spec fn scalars_repr(s: Seq<Fr>) -> Seq<u8>
    decreases s.len(),
{
    if s.len() == 0 {
        Seq::<u8>::empty()
    } else {
        scalars_repr(s.drop_last()) + fr_repr(s.last())
    }
}

/// The bytes a transcript absorbs while carrying a list of scalars: each is
/// prefixed and then absorbed in order, identically on the writing and the
/// reading side.
pub open spec fn scalars_absorbed(s: Seq<Fr>) -> Seq<u8>
    decreases s.len(),
{
    if s.len() == 0 {
        Seq::<u8>::empty()
    } else {
        scalars_absorbed(s.drop_last()) + seq![PREFIX_SCALAR] + fr_repr(s.last())
    }
}

/// The prover's transcript: absorbs values, emits proof bytes, squeezes
/// challenges from the absorbed string.
pub struct TranscriptWriter {
    /// Every byte absorbed so far.
    pub state: Vec<u8>,
    /// The proof bytes emitted so far.
    pub proof: Vec<u8>,
}

impl TranscriptWriter {
    /// An empty transcript.
    pub fn new() -> (r: TranscriptWriter)
        ensures
            r.state@ == Seq::<u8>::empty(),
            r.proof@ == Seq::<u8>::empty(),
    {
        TranscriptWriter { state: Vec::new(), proof: Vec::new() }
    }

    /// Absorb a scalar without emitting it.
    pub fn common_scalar(&mut self, s: &Fr)
        ensures
            final(self).state@ == old(self).state@ + seq![PREFIX_SCALAR] + fr_repr(*s),
            final(self).proof@ == old(self).proof@,
    {
        self.state.push(PREFIX_SCALAR);
        let repr = scalar_to_repr(s);
        push_bytes(&mut self.state, &repr);
    }

    /// Absorb a scalar and emit its encoding, which is 32 bytes long and
    /// decodes back to the same scalar.
    pub fn write_scalar(&mut self, s: &Fr)
        ensures
            final(self).state@ == old(self).state@ + seq![PREFIX_SCALAR] + fr_repr(*s),
            final(self).proof@ == old(self).proof@ + fr_repr(*s),
            fr_repr(*s).len() == 32,
            fr_of_repr(fr_repr(*s)) == Some(*s),
    {
        self.common_scalar(s);
        let repr = scalar_to_repr(s);
        push_bytes(&mut self.proof, &repr);
    }

    /// Absorb a point without emitting it.
    pub fn common_point(&mut self, p: &G1Affine)
        ensures
            final(self).state@ == old(self).state@ + seq![PREFIX_POINT] + pt_bytes(*p),
            final(self).proof@ == old(self).proof@,
    {
        self.state.push(PREFIX_POINT);
        let enc = point_to_bytes(p);
        push_bytes(&mut self.state, &enc);
    }

    /// Absorb a point and emit its compressed encoding, which is 32 bytes long
    /// and decodes back to the same point.
    pub fn write_point(&mut self, p: &G1Affine)
        ensures
            final(self).state@ == old(self).state@ + seq![PREFIX_POINT] + pt_bytes(*p),
            final(self).proof@ == old(self).proof@ + pt_bytes(*p),
            pt_bytes(*p).len() == 32,
            pt_of_bytes(pt_bytes(*p)) == Some(*p),
    {
        self.common_point(p);
        let enc = point_to_bytes(p);
        push_bytes(&mut self.proof, &enc);
    }

    /// Squeeze a challenge: hash the absorbed string, prefixed once more, into
    /// a field element.
    pub fn squeeze_challenge_scalar(&mut self) -> (r: Fr)
        ensures
            final(self).state@ == old(self).state@ + seq![PREFIX_CHALLENGE],
            final(self).proof@ == old(self).proof@,
            r == fr_wide(blake2b_of(old(self).state@ + seq![PREFIX_CHALLENGE])),
    {
        self.state.push(PREFIX_CHALLENGE);
        let digest = blake2b_hash(&self.state);
        scalar_from_uniform(digest.as_slice())
    }

    /// The finished proof.
    pub fn finalize(self) -> (r: Vec<u8>)
        ensures
            r@ == self.proof@,
    {
        self.proof
    }
}

/// The verifier's transcript: decodes proof bytes while absorbing the same
/// values the writer absorbed.
pub struct TranscriptReader {
    /// Every byte absorbed so far.
    pub state: Vec<u8>,
    /// The proof bytes under replay.
    pub proof: Vec<u8>,
    /// How many proof bytes were consumed.
    pub offset: usize,
}

impl TranscriptReader {
    /// Start replaying a proof.
    pub fn new(proof: Vec<u8>) -> (r: TranscriptReader)
        ensures
            r.state@ == Seq::<u8>::empty(),
            r.proof@ == proof@,
            r.offset == 0,
    {
        TranscriptReader { state: Vec::new(), proof, offset: 0 }
    }

    /// Absorb a scalar that is known out of band.
    pub fn common_scalar(&mut self, s: &Fr)
        ensures
            final(self).state@ == old(self).state@ + seq![PREFIX_SCALAR] + fr_repr(*s),
            final(self).proof@ == old(self).proof@,
            final(self).offset == old(self).offset,
    {
        self.state.push(PREFIX_SCALAR);
        let repr = scalar_to_repr(s);
        push_bytes(&mut self.state, &repr);
    }

    /// Absorb a point that is known out of band.
    pub fn common_point(&mut self, p: &G1Affine)
        ensures
            final(self).state@ == old(self).state@ + seq![PREFIX_POINT] + pt_bytes(*p),
            final(self).proof@ == old(self).proof@,
            final(self).offset == old(self).offset,
    {
        self.state.push(PREFIX_POINT);
        let enc = point_to_bytes(p);
        push_bytes(&mut self.state, &enc);
    }

    /// Decode the next 32 proof bytes as a scalar and absorb it. Fails, and
    /// leaves the transcript unchanged, when fewer than 32 bytes remain or the
    /// bytes are not a canonical encoding.
    pub fn read_scalar(&mut self) -> (r: Result<Fr, Error>)
        ensures
            r is Ok <==> (old(self).offset + 32 <= old(self).proof@.len() && fr_of_repr(
                old(self).proof@.subrange(
                    old(self).offset as int,
                    old(self).offset as int + 32,
                ),
            ) is Some),
            r matches Ok(s) ==> {
                &&& Some(s) == fr_of_repr(
                    old(self).proof@.subrange(old(self).offset as int, old(self).offset as int + 32),
                )
                &&& fr_repr(s) == old(self).proof@.subrange(
                    old(self).offset as int,
                    old(self).offset as int + 32,
                )
                &&& final(self).offset == old(self).offset + 32
                &&& final(self).state@ == old(self).state@ + seq![PREFIX_SCALAR] + fr_repr(s)
                &&& final(self).proof@ == old(self).proof@
            },
            r is Err ==> *final(self) == *old(self),
            r matches Err(e) ==> e == Error::TranscriptError,
    {
        if self.offset > self.proof.len() || self.proof.len() - self.offset < 32 {
            return Err(Error::TranscriptError);
        }
        let bytes = read_exact(&self.proof, self.offset, 32);
        match scalar_from_repr(bytes.as_slice()) {
            Some(s) => {
                self.offset = self.offset + 32;
                self.common_scalar(&s);
                Ok(s)
            },
            None => Err(Error::TranscriptError),
        }
    }

    /// Decode the next 32 proof bytes as a point and absorb it. Fails, and
    /// leaves the transcript unchanged, when fewer than 32 bytes remain or the
    /// bytes are not a valid compressed encoding.
    pub fn read_point(&mut self) -> (r: Result<G1Affine, Error>)
        ensures
            r is Ok <==> (old(self).offset + 32 <= old(self).proof@.len() && pt_of_bytes(
                old(self).proof@.subrange(
                    old(self).offset as int,
                    old(self).offset as int + 32,
                ),
            ) is Some),
            r matches Ok(p) ==> {
                &&& Some(p) == pt_of_bytes(
                    old(self).proof@.subrange(old(self).offset as int, old(self).offset as int + 32),
                )
                &&& final(self).offset == old(self).offset + 32
                &&& final(self).state@ == old(self).state@ + seq![PREFIX_POINT] + pt_bytes(p)
                &&& final(self).proof@ == old(self).proof@
            },
            r is Err ==> *final(self) == *old(self),
            r matches Err(e) ==> e == Error::TranscriptError,
    {
        if self.offset > self.proof.len() || self.proof.len() - self.offset < 32 {
            return Err(Error::TranscriptError);
        }
        let bytes = read_exact(&self.proof, self.offset, 32);
        match point_from_bytes(bytes.as_slice()) {
            Some(p) => {
                self.offset = self.offset + 32;
                self.common_point(&p);
                Ok(p)
            },
            None => Err(Error::TranscriptError),
        }
    }

    /// Squeeze a challenge from the absorbed string, exactly as the writer
    /// does.
    pub fn squeeze_challenge_scalar(&mut self) -> (r: Fr)
        ensures
            final(self).state@ == old(self).state@ + seq![PREFIX_CHALLENGE],
            final(self).proof@ == old(self).proof@,
            final(self).offset == old(self).offset,
            r == fr_wide(blake2b_of(old(self).state@ + seq![PREFIX_CHALLENGE])),
    {
        self.state.push(PREFIX_CHALLENGE);
        let digest = blake2b_hash(&self.state);
        scalar_from_uniform(digest.as_slice())
    }
}

} // verus!
