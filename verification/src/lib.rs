//! Folding core of a Protostar-style accumulation scheme over a PLONK-ish
//! arithmetization, instantiated over the bn256 scalar field and curve of
//! `halo2curves`.
//!
//! The crate compiles gate constraint expressions into a query-indexed form,
//! evaluates the per-row error polynomial of a fold between two accumulators,
//! and runs the mirrored prover/verifier protocols that combine two
//! accumulators into one under a transcript-derived challenge.

pub mod accumulator;
pub mod curve;
pub mod error_check;
pub mod expr;
pub mod fold_verifier;
pub mod gate;
pub mod hash;
pub mod keygen;
pub mod laws;
pub mod poly;
pub mod queries;
pub mod row;
pub mod scalar;
pub mod transcript;
pub mod witness;

use vstd::prelude::*;

verus! {

/// Failure kinds surfaced by the folding protocol.
#[derive(Clone, Copy, Debug, PartialEq, Eq, Structural)]
pub enum Error {
    /// Instance column count or sizing does not match the proving key.
    InvalidInstances,
    /// Instance row count exceeds the usable rows of the domain.
    InstanceTooLarge,
    /// A query referred to an out-of-range row or column. Produced by the
    /// synthesis plumbing around this crate; the verified functions prove
    /// their accesses in range instead.
    BoundsFailure,
    /// The underlying transcript read or write failed.
    TranscriptError,
    /// A compiled gate carries inconsistent degrees or indices. The compiler's
    /// contracts rule this out for gates it produced, so the verified
    /// functions never return it.
    InternalInvariantViolated,
}

} // verus!
