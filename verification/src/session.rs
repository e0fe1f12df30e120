//! Secure channel sessions and their tables.
//!
//! A session is the key agreed by an authenticated key exchange together
//! with one sequence counter per direction; replay protection demands that
//! each inbound message carry exactly the next expected sequence number.
//! Client and peer sessions live in separate tables keyed by session
//! identifier.

use vstd::prelude::*;
use std::collections::HashMap;
use crate::cipher::{open_msg, seal_msg, spec_open_msg, spec_sealed_msg};
use crate::error::{Error, SessionError};

verus! {

broadcast use vstd::std_specs::hash::group_hash_axioms;

/// Identifies a node on the network.
pub type ResponderId = u64;

/// The handle of an established client channel.
#[derive(Clone, Copy, Debug, Default, PartialEq, Eq, PartialOrd, Ord, Hash, Structural)]
pub struct ClientSession(pub u64);

/// The handle of an established peer channel.
#[derive(Clone, Copy, Debug, Default, PartialEq, Eq, PartialOrd, Ord, Hash, Structural)]
pub struct PeerSession(pub u64);

/// An end-user client's opening key-exchange message.
#[derive(Clone, Copy, Debug, PartialEq, Eq, Structural)]
pub struct ClientAuthRequest {
    /// The client's key share.
    pub share: u64,
}

/// The enclave's answer to a client's key exchange.
#[derive(Clone, Copy, Debug, PartialEq, Eq, Structural)]
pub struct ClientAuthResponse {
    /// The responder identity the enclave answers as.
    pub responder_id: ResponderId,
    /// The enclave's key share.
    pub share: u64,
}

/// An initiating node's opening key-exchange message.
#[derive(Clone, Copy, Debug, PartialEq, Eq, Structural)]
pub struct PeerAuthRequest {
    /// The initiator's identity.
    pub initiator_id: ResponderId,
    /// The initiator's key share.
    pub share: u64,
}

/// A responding node's answer to a peer key exchange.
#[derive(Clone, Copy, Debug, PartialEq, Eq, Structural)]
pub struct PeerAuthResponse {
    /// The responder's identity.
    pub responder_id: ResponderId,
    /// The responder's key share.
    pub share: u64,
}

/// An encrypted application message on an established channel.
#[derive(Clone, Debug)]
pub struct EnclaveMessage<S> {
    /// Associated data, authenticated but not encrypted.
    pub aad: Vec<u8>,
    /// The channel the message belongs to.
    pub channel_id: S,
    /// The ciphertext.
    pub data: Vec<u8>,
}

/// The key both ends derive from their two shares.
pub open spec fn spec_session_key(a: u64, b: u64) -> u64 {
    a ^ b
}

/// Derives the session key from the two key shares.
pub fn session_key(a: u64, b: u64) -> (r: u64)
    ensures
        r == spec_session_key(a, b),
{
    a ^ b
}

/// One established channel's state.
#[derive(Clone, Copy, Debug)]
pub struct SessionState {
    /// The agreed channel key.
    pub key: u64,
    /// The sequence number the next inbound message must carry.
    pub inbound_seq: u64,
    /// The sequence number the next outbound message will carry.
    pub outbound_seq: u64,
}

/// Whether the session named by `id`, if any, can still advance its inbound
/// counter.
pub open spec fn spec_inbound_room(m: Map<u64, SessionState>, id: u64) -> bool {
    m.contains_key(id) ==> m[id].inbound_seq < u64::MAX
}

/// Whether the session named by `id`, if any, can still advance its outbound
/// counter.
pub open spec fn spec_outbound_room(m: Map<u64, SessionState>, id: u64) -> bool {
    m.contains_key(id) ==> m[id].outbound_seq < u64::MAX
}

/// What decrypting `data` on session `id` does to a table: an unknown
/// session is rejected; otherwise the message is opened under the session's
/// key and next expected sequence number, and on success the counter
/// advances.
pub open spec fn spec_table_decrypt(
    m: Map<u64, SessionState>,
    id: u64,
    aad: Seq<u8>,
    data: Seq<u8>,
) -> (Map<u64, SessionState>, Result<Seq<u8>, Error>) {
    if !m.contains_key(id) {
        (m, Err(Error::Session(SessionError::UnknownSession)))
    } else {
        let s = m[id];
        match spec_open_msg(s.key, s.inbound_seq, aad, data) {
            Err(e) => (m, Err(Error::Session(e))),
            Ok(p) => (
                m.insert(
                    id,
                    SessionState {
                        key: s.key,
                        inbound_seq: (s.inbound_seq + 1) as u64,
                        outbound_seq: s.outbound_seq,
                    },
                ),
                Ok(p),
            ),
        }
    }
}

/// What encrypting `payload` for session `id` does to a table: an unknown
/// session is rejected; otherwise the payload is sealed under the session's
/// key and next outbound sequence number, which then advances.
pub open spec fn spec_table_encrypt(
    m: Map<u64, SessionState>,
    id: u64,
    aad: Seq<u8>,
    payload: Seq<u8>,
) -> (Map<u64, SessionState>, Result<Seq<u8>, Error>) {
    if !m.contains_key(id) {
        (m, Err(Error::Session(SessionError::UnknownSession)))
    } else {
        let s = m[id];
        (
            m.insert(
                id,
                SessionState {
                    key: s.key,
                    inbound_seq: s.inbound_seq,
                    outbound_seq: (s.outbound_seq + 1) as u64,
                },
            ),
            Ok(spec_sealed_msg(s.key, s.outbound_seq, aad, payload)),
        )
    }
}

/// Decrypts `data` on session `id`, exactly as [`spec_table_decrypt`] says.
pub fn table_decrypt(
    table: &mut HashMap<u64, SessionState>,
    id: u64,
    aad: &[u8],
    data: &[u8],
) -> (r: Result<Vec<u8>, Error>)
    requires
        spec_inbound_room(old(table)@, id),
    ensures
        final(table)@ == spec_table_decrypt(old(table)@, id, aad@, data@).0,
        match r {
            Ok(p) => spec_table_decrypt(old(table)@, id, aad@, data@).1 == Ok::<Seq<u8>, Error>(
                p@,
            ),
            Err(e) => spec_table_decrypt(old(table)@, id, aad@, data@).1 == Err::<
                Seq<u8>,
                Error,
            >(e),
        },
{
    let s = match table.get(&id) {
        Some(s) => *s,
        None => {
            return Err(Error::Session(SessionError::UnknownSession));
        },
    };
    match open_msg(s.key, s.inbound_seq, aad, data) {
        Err(e) => Err(Error::Session(e)),
        Ok(p) => {
            let s2 = SessionState {
                key: s.key,
                inbound_seq: s.inbound_seq + 1,
                outbound_seq: s.outbound_seq,
            };
            table.insert(id, s2);
            Ok(p)
        },
    }
}

/// Encrypts `payload` for session `id`, exactly as [`spec_table_encrypt`]
/// says.
pub fn table_encrypt(
    table: &mut HashMap<u64, SessionState>,
    id: u64,
    aad: &[u8],
    payload: &[u8],
) -> (r: Result<Vec<u8>, Error>)
    requires
        spec_outbound_room(old(table)@, id),
    ensures
        final(table)@ == spec_table_encrypt(old(table)@, id, aad@, payload@).0,
        match r {
            Ok(d) => spec_table_encrypt(old(table)@, id, aad@, payload@).1 == Ok::<
                Seq<u8>,
                Error,
            >(d@),
            Err(e) => spec_table_encrypt(old(table)@, id, aad@, payload@).1 == Err::<
                Seq<u8>,
                Error,
            >(e),
        },
{
    let s = match table.get(&id) {
        Some(s) => *s,
        None => {
            return Err(Error::Session(SessionError::UnknownSession));
        },
    };
    let data = seal_msg(s.key, s.outbound_seq, aad, payload);
    let s2 = SessionState {
        key: s.key,
        inbound_seq: s.inbound_seq,
        outbound_seq: s.outbound_seq + 1,
    };
    table.insert(id, s2);
    Ok(data)
}

} // verus!
