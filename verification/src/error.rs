//! The error taxonomy of the enclave call boundary.
//!
//! Every failing call returns one of these and leaves the rest of the
//! enclave's state unchanged; recovery is always a host-side policy.

use vstd::prelude::*;

verus! {

/// Failures of the attestation state machine.
#[derive(Clone, Copy, Debug, PartialEq, Eq)]
pub enum AttestationError {
    /// A verification step was called while the state machine was not at the
    /// step that precedes it.
    WrongState,
    /// The quote does not embed the report issued by the last `new_ereport`.
    QuoteReportMismatch,
    /// The quote was not produced by the targeted quoting enclave, or the
    /// quoting enclave's own report does not match the quote.
    QeReportMismatch,
    /// The verification authority's report does not embed the verified quote.
    ReportQuoteMismatch,
    /// The verification authority's report carries the wrong nonce.
    NonceMismatch,
    /// The report was not signed by the trusted verification authority.
    UntrustedSigner,
    /// No verification report has been cached yet.
    NoCachedReport,
}

/// Failures of the secure channel layer.
#[derive(Clone, Copy, Debug, PartialEq, Eq)]
pub enum SessionError {
    /// The session identifier names no established channel (never opened, or
    /// already closed).
    UnknownSession,
    /// The message does not authenticate under the session's key and
    /// associated data.
    AuthFailure,
    /// The message authenticates but carries a sequence number other than the
    /// next one expected (a replay or a gap).
    SequenceMismatch,
    /// A key-exchange response arrived for a peer with no pending handshake,
    /// or from a responder other than the one the handshake was opened with.
    HandshakeMismatch,
}

/// Failures of the transaction admission pipeline and of block formation.
#[derive(Clone, Copy, Debug, PartialEq, Eq)]
pub enum ValidationError {
    /// A locally encrypted transaction was not produced by this enclave, or
    /// its payload does not decode to a transaction.
    MalformedCiphertext,
    /// The transaction's tombstone block is not strictly greater than the
    /// current block index.
    TombstoneExpired,
    /// The supplied membership proofs are not exactly the ones requested, or
    /// are internally inconsistent.
    ProofMismatch,
    /// The transaction violates the structural transaction rules.
    RuleViolation,
    /// Two transactions in the batch spend the same key image.
    DuplicateKeyImage,
}

/// Failures of the identity and sealing store.
#[derive(Clone, Copy, Debug, PartialEq, Eq)]
pub enum SealingError {
    /// The sealed blob is corrupt.
    Malformed,
    /// The sealed blob was sealed by a different enclave measurement.
    ForeignMeasurement,
    /// No signing key has been established yet (initialization has not run).
    MissingKey,
}

/// Any failure an enclave call can return.
#[derive(Clone, Copy, Debug, PartialEq, Eq)]
pub enum Error {
    /// The attestation state machine rejected the call.
    Attestation(AttestationError),
    /// The secure channel layer rejected the call.
    Session(SessionError),
    /// The admission pipeline or the block former rejected the call.
    Validation(ValidationError),
    /// The identity and sealing store rejected the call.
    Sealing(SealingError),
    /// A call payload did not decode to the value it should carry.
    Serialization,
}

} // verus!
