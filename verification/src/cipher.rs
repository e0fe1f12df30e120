//! The model of authenticated encryption used throughout the enclave.
//!
//! A ciphertext is a byte string that carries, in the clear of the model, the
//! key it was produced under, the sequence number it was bound to, and the
//! associated data it authenticates; opening checks those against the
//! opener's expectation and yields the payload. This captures exactly the
//! algebra the engine relies on — opening succeeds precisely for byte strings
//! sealed under the same key, sequence number and associated data — while the
//! byte layout keeps ciphertexts plain `Vec<u8>` values the host can carry.

use vstd::prelude::*;
use vstd::bytes::{
    lemma_auto_spec_u64_to_from_le_bytes, spec_u64_from_le_bytes, spec_u64_to_le_bytes,
    u64_from_le_bytes, u64_to_le_bytes,
};
use vstd::slice::{slice_subrange, slice_to_vec};
use crate::error::SessionError;

verus! {

/// Bytes of a payload sealed under `key` with no sequence number or
/// associated data: the form used for the enclave's own at-rest ciphertexts.
pub open spec fn spec_sealed_blob(key: u64, payload: Seq<u8>) -> Seq<u8> {
    spec_u64_to_le_bytes(key) + payload
}

/// The payload of `data` if it is a blob sealed under `key`.
pub open spec fn spec_open_blob(key: u64, data: Seq<u8>) -> Option<Seq<u8>> {
    if data.len() >= 8 && data.subrange(0, 8) == spec_u64_to_le_bytes(key) {
        Some(data.subrange(8, data.len() as int))
    } else {
        None
    }
}

/// Opening a sealed blob under the sealing key yields the payload back.
pub proof fn lemma_blob_round_trip(key: u64, payload: Seq<u8>)
    ensures
        spec_open_blob(key, spec_sealed_blob(key, payload)) == Some(payload),
{
    lemma_auto_spec_u64_to_from_le_bytes();
    let data = spec_sealed_blob(key, payload);
    assert(data.subrange(0, 8) =~= spec_u64_to_le_bytes(key));
    assert(data.subrange(8, data.len() as int) =~= payload);
}

/// Bytes of a channel message: `payload` sealed under `key`, bound to the
/// sequence number `seq` and authenticating the associated data `aad`.
pub open spec fn spec_sealed_msg(key: u64, seq: u64, aad: Seq<u8>, payload: Seq<u8>) -> Seq<u8> {
    spec_u64_to_le_bytes(key) + spec_u64_to_le_bytes(seq) + spec_u64_to_le_bytes(aad.len() as u64)
        + aad + payload
}

/// The payload of `data` if it is a channel message sealed under `key` with
/// sequence number `expected_seq` and associated data `aad`; otherwise the
/// session failure that an opener reports. A message that does not
/// authenticate (wrong shape, key or associated data) is an `AuthFailure`; one
/// that authenticates under the wrong sequence number is a
/// `SequenceMismatch`.
pub open spec fn spec_open_msg(key: u64, expected_seq: u64, aad: Seq<u8>, data: Seq<u8>) -> Result<
    Seq<u8>,
    SessionError,
> {
    if data.len() < 24 {
        Err(SessionError::AuthFailure)
    } else if data.subrange(0, 8) != spec_u64_to_le_bytes(key) {
        Err(SessionError::AuthFailure)
    } else if spec_u64_from_le_bytes(data.subrange(16, 24)) != aad.len() as u64 {
        Err(SessionError::AuthFailure)
    } else if data.len() < 24 + aad.len() {
        Err(SessionError::AuthFailure)
    } else if data.subrange(24, 24 + aad.len() as int) != aad {
        Err(SessionError::AuthFailure)
    } else if spec_u64_from_le_bytes(data.subrange(8, 16)) != expected_seq {
        Err(SessionError::SequenceMismatch)
    } else {
        Ok(data.subrange(24 + aad.len() as int, data.len() as int))
    }
}

/// Opening a sealed message with the key, sequence number and associated data
/// it was sealed with yields the payload back.
pub proof fn lemma_msg_round_trip(key: u64, seq: u64, aad: Seq<u8>, payload: Seq<u8>)
    requires
        aad.len() <= u64::MAX,
    ensures
        spec_open_msg(key, seq, aad, spec_sealed_msg(key, seq, aad, payload)) == Ok::<
            Seq<u8>,
            SessionError,
        >(payload),
{
    lemma_auto_spec_u64_to_from_le_bytes();
    let data = spec_sealed_msg(key, seq, aad, payload);
    assert(data.subrange(0, 8) =~= spec_u64_to_le_bytes(key));
    assert(data.subrange(8, 16) =~= spec_u64_to_le_bytes(seq));
    assert(data.subrange(16, 24) =~= spec_u64_to_le_bytes(aad.len() as u64));
    assert(data.subrange(24, 24 + aad.len() as int) =~= aad);
    assert(data.subrange(24 + aad.len() as int, data.len() as int) =~= payload);
}

/// Reads the little-endian `u64` that starts at byte `pos` of `data`.
pub fn read_u64_at(data: &[u8], pos: usize) -> (x: u64)
    requires
        pos + 8 <= data@.len(),
    ensures
        x == spec_u64_from_le_bytes(data@.subrange(pos as int, pos as int + 8)),
{
    let n = data.len();
    assert(pos + 8 <= n);
    let sub = slice_subrange(data, pos, pos + 8);
    u64_from_le_bytes(sub)
}

/// Whether two byte slices hold the same bytes.
pub fn slice_eq(a: &[u8], b: &[u8]) -> (r: bool)
    ensures
        r == (a@ == b@),
{
    if a.len() != b.len() {
        return false;
    }
    let mut i: usize = 0;
    while i < a.len()
        invariant
            i <= a@.len(),
            a@.len() == b@.len(),
            forall|j: int| 0 <= j < i ==> a@[j] == b@[j],
        decreases a@.len() - i,
    {
        if a[i] != b[i] {
            return false;
        }
        i += 1;
    }
    proof {
        assert(a@ =~= b@);
    }
    true
}

/// Seals `payload` under `key` as an at-rest blob.
pub fn seal_blob(key: u64, payload: &[u8]) -> (r: Vec<u8>)
    ensures
        r@ == spec_sealed_blob(key, payload@),
{
    let mut out = u64_to_le_bytes(key);
    out.extend_from_slice(payload);
    proof {
        assert(out@ =~= spec_sealed_blob(key, payload@));
    }
    out
}

/// Opens an at-rest blob under `key`, yielding its payload exactly when
/// `data` was sealed under `key`.
pub fn open_blob(key: u64, data: &[u8]) -> (r: Option<Vec<u8>>)
    ensures
        match r {
            Some(p) => spec_open_blob(key, data@) == Some(p@),
            None => spec_open_blob(key, data@) is None,
        },
{
    proof {
        lemma_auto_spec_u64_to_from_le_bytes();
    }
    if data.len() < 8 {
        return None;
    }
    let tag = read_u64_at(data, 0);
    if tag != key {
        return None;
    }
    let payload = slice_to_vec(slice_subrange(data, 8, data.len()));
    Some(payload)
}

/// Seals `payload` under `key` as a channel message bound to `seq` and `aad`.
pub fn seal_msg(key: u64, seq: u64, aad: &[u8], payload: &[u8]) -> (r: Vec<u8>)
    ensures
        r@ == spec_sealed_msg(key, seq, aad@, payload@),
{
    let mut out = u64_to_le_bytes(key);
    let mut seq_bytes = u64_to_le_bytes(seq);
    let mut len_bytes = u64_to_le_bytes(aad.len() as u64);
    out.append(&mut seq_bytes);
    out.append(&mut len_bytes);
    out.extend_from_slice(aad);
    out.extend_from_slice(payload);
    proof {
        assert(out@ =~= spec_sealed_msg(key, seq, aad@, payload@));
    }
    out
}

/// Opens a channel message under `key`, expecting the sequence number
/// `expected_seq` and the associated data `aad`; the result is exactly what
/// [`spec_open_msg`] gives.
pub fn open_msg(key: u64, expected_seq: u64, aad: &[u8], data: &[u8]) -> (r: Result<
    Vec<u8>,
    SessionError,
>)
    ensures
        match r {
            Ok(p) => spec_open_msg(key, expected_seq, aad@, data@) == Ok::<
                Seq<u8>,
                SessionError,
            >(p@),
            Err(e) => spec_open_msg(key, expected_seq, aad@, data@) == Err::<
                Seq<u8>,
                SessionError,
            >(e),
        },
{
    proof {
        lemma_auto_spec_u64_to_from_le_bytes();
    }
    if data.len() < 24 {
        return Err(SessionError::AuthFailure);
    }
    let tag = read_u64_at(data, 0);
    if tag != key {
        return Err(SessionError::AuthFailure);
    }
    let seq = read_u64_at(data, 8);
    let alen = read_u64_at(data, 16);
    if alen != aad.len() as u64 {
        return Err(SessionError::AuthFailure);
    }
    if data.len() - 24 < aad.len() {
        return Err(SessionError::AuthFailure);
    }
    let embedded_aad = slice_subrange(data, 24, 24 + aad.len());
    if !slice_eq(embedded_aad, aad) {
        return Err(SessionError::AuthFailure);
    }
    if seq != expected_seq {
        return Err(SessionError::SequenceMismatch);
    }
    let payload = slice_to_vec(slice_subrange(data, 24 + aad.len(), data.len()));
    Ok(payload)
}

} // verus!
