//! Structured errors for commitment, signature, credential and protocol
//! operations. No error is used for control flow; each names the failure
//! it reports.

use vstd::prelude::*;

verus! {

/// Errors from commitment operations.
#[derive(Debug)]
pub enum CommitmentError {
    InvalidComputeCommitment,
    InvalidCommitment,
    InvalidProof,
    SerializationError,
    ProofVerificationFailed,
    BatchVerifyError,
}

/// Errors from signature-share and aggregation operations.
#[derive(Debug)]
pub enum SignatureError {
    SerializationError,
    CommitmentError(CommitmentError),
    InvalidShare(usize),
    DuplicateShare(usize),
    ThresholdNotMet,
    InsufficientShares { needed: usize, got: usize },
    ProofError(String),
    UserError(String),
    SignatureVerificationFailed,
    CommitmentConsistencyFailed,
    InvalidState(String),
}

/// Errors from protocol orchestration.
#[derive(Debug)]
pub enum ProtocolError {
    SignatureError(SignatureError),
    CommitmentError(CommitmentError),
    InvalidState(String),
    UserError(String),
}

/// Errors from credential state handling.
#[derive(Debug)]
pub enum CredentialError {
    MissingSignature(String),
    ProofGenerationFailed(CommitmentError),
    RandomizationFailed(String),
    InvalidState(String),
}

} // verus!
