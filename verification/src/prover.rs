//! What the host requires of a proof's journal before it accepts the proof.
//!
//! The receipt's journal must decode to a [`PublicCommitment`] that attests
//! the escrow's conditions were met; anything else is refused.
use crate::commitment::{parse_journal, ExecutionResult, PublicCommitment};
use crate::error::CommitmentError;
use crate::interface::ExecutionState;
use vstd::prelude::*;

verus! {

/// Errors that can occur during proof generation and verification.
#[derive(Debug, Clone, PartialEq, Eq)]
#[non_exhaustive]
pub enum ProverError {
    /// Receipt verification against the guest image id failed.
    VerifyReceipt(String),
    /// The committed journal could not be decoded into a commitment.
    Journal(CommitmentError),
    /// The proof did not attest that the escrow's conditions were met.
    UnexpectedOutcome(ExecutionResult),
}

/// The commitment a verified receipt's journal carries, accepted only when it
/// attests that the escrow's conditions were met.
pub fn attested_commitment(journal: &[u8]) -> (r: Result<PublicCommitment, ProverError>)
    ensures
        match parse_journal(journal@) {
            Err(e) => r == Err::<PublicCommitment, ProverError>(ProverError::Journal(e)),
            Ok(j) => if j.outcome == ExecutionResult::Success(ExecutionState::ConditionsMet) {
                r matches Ok(c) && c@ == j
            } else {
                r == Err::<PublicCommitment, ProverError>(ProverError::UnexpectedOutcome(j.outcome))
            },
        },
{
    let commitment = match PublicCommitment::from_journal_bytes(journal) {
        Ok(c) => c,
        Err(e) => return Err(ProverError::Journal(e)),
    };
    match commitment.outcome {
        ExecutionResult::Success(ExecutionState::ConditionsMet) => Ok(commitment),
        other => Err(ProverError::UnexpectedOutcome(other)),
    }
}

} // verus!
