//! The identity and sealing store's primitives.
//!
//! Key pairs are modeled by their private scalar together with a public
//! image of it; sealing binds a secret to the measurement of the enclave
//! that sealed it, so that only an enclave with the same measurement can
//! unseal it.

use vstd::prelude::*;
use vstd::bytes::{
    lemma_auto_spec_u64_to_from_le_bytes, spec_u64_from_le_bytes, spec_u64_to_le_bytes,
    u64_to_le_bytes,
};
use crate::cipher::read_u64_at;
use crate::error::SealingError;

verus! {

/// The public half of the enclave's channel-encryption key pair.
#[derive(Clone, Copy, Debug, PartialEq, Eq, Structural)]
pub struct X25519Public(pub u64);

/// The public half of the enclave's block-signing key pair.
#[derive(Clone, Copy, Debug, PartialEq, Eq, Structural)]
pub struct Ed25519Public(pub u64);

/// The public image of a private scalar.
pub open spec fn spec_public_of(key: u64) -> u64 {
    key
}

/// Computes the public image of a private scalar.
pub fn public_of(key: u64) -> (r: u64)
    ensures
        r == spec_public_of(key),
{
    key
}

/// The sealed form of a signing key: the sealing enclave's measurement
/// followed by the key.
pub open spec fn spec_seal_key(measurement: u64, key: u64) -> Seq<u8> {
    spec_u64_to_le_bytes(measurement) + spec_u64_to_le_bytes(key)
}

/// The key inside `blob` for an enclave of the given measurement, or the
/// sealing failure: a blob of the wrong shape is corrupt, and one sealed by
/// another measurement never unseals.
pub open spec fn spec_unseal_key(measurement: u64, blob: Seq<u8>) -> Result<u64, SealingError> {
    if blob.len() != 16 {
        Err(SealingError::Malformed)
    } else if spec_u64_from_le_bytes(blob.subrange(0, 8)) != measurement {
        Err(SealingError::ForeignMeasurement)
    } else {
        Ok(spec_u64_from_le_bytes(blob.subrange(8, 16)))
    }
}

/// Unsealing a blob under the measurement that sealed it yields the key.
pub proof fn lemma_seal_round_trip(measurement: u64, key: u64)
    ensures
        spec_unseal_key(measurement, spec_seal_key(measurement, key)) == Ok::<u64, SealingError>(
            key,
        ),
{
    lemma_auto_spec_u64_to_from_le_bytes();
    let blob = spec_seal_key(measurement, key);
    assert(blob.subrange(0, 8) =~= spec_u64_to_le_bytes(measurement));
    assert(blob.subrange(8, 16) =~= spec_u64_to_le_bytes(key));
}

/// A blob sealed by one measurement never unseals under another.
pub proof fn lemma_seal_foreign(measurement: u64, other: u64, key: u64)
    requires
        measurement != other,
    ensures
        spec_unseal_key(other, spec_seal_key(measurement, key)) == Err::<u64, SealingError>(
            SealingError::ForeignMeasurement,
        ),
{
    lemma_auto_spec_u64_to_from_le_bytes();
    let blob = spec_seal_key(measurement, key);
    assert(blob.subrange(0, 8) =~= spec_u64_to_le_bytes(measurement));
}

/// Seals `key` for an enclave of the given measurement.
pub fn seal_key(measurement: u64, key: u64) -> (r: Vec<u8>)
    ensures
        r@ == spec_seal_key(measurement, key),
{
    let mut out = u64_to_le_bytes(measurement);
    let mut k = u64_to_le_bytes(key);
    out.append(&mut k);
    proof {
        assert(out@ =~= spec_seal_key(measurement, key));
    }
    out
}

/// Unseals `blob` under `measurement`, exactly as [`spec_unseal_key`] says.
pub fn unseal_key(measurement: u64, blob: &[u8]) -> (r: Result<u64, SealingError>)
    ensures
        r == spec_unseal_key(measurement, blob@),
{
    if blob.len() != 16 {
        return Err(SealingError::Malformed);
    }
    let m = read_u64_at(blob, 0);
    if m != measurement {
        return Err(SealingError::ForeignMeasurement);
    }
    let k = read_u64_at(blob, 8);
    Ok(k)
}

} // verus!
