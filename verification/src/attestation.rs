//! Attestation evidence and the attestation state machine's states.
//!
//! A report binds the reporting enclave's measurement, the quoting enclave it
//! targets, and a one-time nonce; a quote is a report countersigned by a
//! quoting enclave; a verification report is a quote countersigned by a
//! verification authority, carrying the nonce the enclave issued for the
//! upstream request. The state machine itself advances inside the enclave.

use vstd::prelude::*;

verus! {

/// A one-time nonce bound into a report.
pub type QuoteNonce = u64;

/// The opaque token a caller includes in the upstream verification request.
pub type IasNonce = u64;

/// Identifies the quoting enclave a report should be quoted by.
#[derive(Clone, Copy, Debug, PartialEq, Eq, Structural)]
pub struct TargetInfo {
    /// The measurement of the quoting enclave.
    pub qe_measurement: u64,
}

/// Hardware-signed evidence of an enclave's identity.
#[derive(Clone, Copy, Debug, PartialEq, Eq, Structural)]
pub struct Report {
    /// The measurement of the enclave the report speaks for.
    pub measurement: u64,
    /// The measurement of the quoting enclave the report is targeted at.
    pub target: u64,
    /// The one-time nonce bound into the report.
    pub nonce: u64,
}

/// A report countersigned by a quoting enclave.
#[derive(Clone, Copy, Debug, PartialEq, Eq, Structural)]
pub struct Quote {
    /// The report the quote embeds.
    pub report: Report,
    /// The measurement of the quoting enclave that produced the quote.
    pub qe_measurement: u64,
}

/// A quote countersigned by a verification authority.
#[derive(Clone, Copy, Debug, PartialEq, Eq, Structural)]
pub struct VerificationReport {
    /// The identity of the authority that signed the report.
    pub signer: u64,
    /// The quote the report embeds.
    pub quote: Quote,
    /// The nonce the enclave issued for the upstream request.
    pub ias_nonce: u64,
}

/// Where the attestation state machine stands.
#[derive(Clone, Copy, Debug)]
pub enum AttestationState {
    /// Nothing is pending.
    Idle,
    /// A report has been issued and awaits its quote.
    ReportIssued {
        /// The report issued by the last `new_ereport`.
        report: Report,
    },
    /// A quote has been verified and awaits the authority's report.
    QuoteVerified {
        /// The verified quote.
        quote: Quote,
        /// The nonce issued for the upstream verification request.
        ias_nonce: u64,
    },
    /// The authority's report has been checked and cached.
    ReportCached,
}

} // verus!
