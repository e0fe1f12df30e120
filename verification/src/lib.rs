//! Verified engine for a consensus node's secure enclave.
//!
//! The enclave mediates everything the untrusted host may do with sensitive
//! consensus state: it proves its identity through an attestation state
//! machine, establishes authenticated channels with clients and peer nodes,
//! admits transactions through a two-phase validation pipeline that never
//! exposes plaintext, relays validated transactions to peers, and forms and
//! signs blocks.
//!
//! The hardware and cryptographic collaborators (quoting enclave, transport
//! encryption, signatures, sealing) are outside the enclave's logic; this
//! crate models each of them by plain values with the algebraic behaviour the
//! engine relies on — an authenticated ciphertext is a key-tagged byte string,
//! a key pair is a scalar with a public image, a report is the tuple of
//! measurements and nonces it binds together — so that every protocol
//! decision the enclave makes is verified code with an exact contract.

use vstd::prelude::*;

pub mod attestation;
pub mod blockchain;
pub mod enclave;
pub mod cipher;
pub mod error;
pub mod identity;
pub mod laws;
pub mod session;
pub mod tx;

verus! {

/// A handle to an enclave that the untrusted side can freely duplicate and
/// share across worker threads, each duplicate delegating to the same
/// underlying synchronized enclave state. The concrete enclave itself holds
/// exclusive state and cannot implement this; the untrusted wrapper does.
pub trait ConsensusEnclaveProxy: Clone + Send + Sync {
}

} // verus!
