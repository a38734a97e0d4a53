//! Error kinds of the claim-reduction engine.
//!
//! Every failure is terminal for the call in which it occurs: callers get
//! the error back unchanged, and nothing is retried or rolled back inside
//! this crate.

use vstd::prelude::*;

verus! {

/// The ways a claim reduction can fail.
#[derive(Clone, Copy, Debug, PartialEq, Eq, Structural)]
pub enum Error {
    /// The proof's shape disagrees with the oracle variant being checked:
    /// a malformed or adversarial proof.
    StructuralMismatch,
    /// A recomputed evaluation disagrees with the claimed one: the canonical
    /// proof-invalid outcome.
    IncorrectEvaluation,
    /// The caller-supplied zerocheck challenge vector has the wrong length.
    ChallengeVectorMismatch,
    /// A query or point has the wrong length for the polynomial it is
    /// applied to.
    IncorrectQuerySize { expected: usize },
    /// A claim names a batch that the accumulator does not know.
    UnknownBatchId { batch_id: usize },
    /// An oracle id that the oracle set has never allocated.
    UnknownOracleId { oracle_id: usize },
    /// A batch holds no claims yet, so nothing can be extracted from it.
    EmptyBatch { batch_id: usize },
    /// Some position of a batch has no claim, so no dense evaluation vector
    /// can be assembled.
    MissingEvals { batch_id: usize },
    /// Two claims disagree on one committed polynomial's value at a shared
    /// point: as severe as an incorrect evaluation.
    ConflictingEvals { batch_id: usize },
    /// No witness is registered for the oracle: a prover-side lookup
    /// failure, irrelevant to the verifier path.
    InvalidWitness { oracle_id: usize },
}

} // verus!
