//! The enclave engine: one synchronous call interface over all the
//! components.
//!
//! Every call's effect on the enclave's state and its result are given by a
//! transition function on the enclave's mathematical model; the executable
//! methods are proved to follow those transitions exactly. A failing call
//! leaves every part of the state unchanged except, for channel messages,
//! the sequence counter a successful decryption advances — which is what
//! keeps a rejected message from desynchronizing the channel.

use vstd::prelude::*;
use std::collections::HashMap;
use crate::attestation::{
    AttestationState, IasNonce, Quote, QuoteNonce, Report, TargetInfo, VerificationReport,
};
use crate::blockchain::{
    batch_images, block_digest, has_dup, redact, sign_block, spec_batch_images, spec_block_digest,
    spec_has_dup, spec_redact, spec_sign_block, Block, BlockSignature, RedactedTx, RedactedTxModel,
};
use crate::cipher::{open_blob, seal_blob, spec_open_blob, spec_sealed_blob};
use crate::error::{AttestationError, Error, SealingError, SessionError, ValidationError};
use crate::identity::{
    public_of, seal_key, spec_public_of, spec_seal_key, spec_unseal_key, unseal_key, Ed25519Public,
    X25519Public,
};
use crate::session::{
    session_key, spec_inbound_room, spec_outbound_room, spec_session_key, spec_table_decrypt,
    spec_table_encrypt, table_decrypt, table_encrypt, ClientAuthRequest, ClientAuthResponse,
    ClientSession, EnclaveMessage, PeerAuthRequest, PeerAuthResponse, PeerSession, ResponderId,
    SessionState,
};
use crate::tx::{
    check_proofs_consistent, check_tx_rules, decode_tx, decode_tx_batch, encode_tx,
    encode_tx_batch, highest_indices, key_images, spec_dec_tx, spec_dec_tx_batch, spec_enc_tx,
    spec_enc_tx_batch, spec_highest_indices, spec_key_images, spec_proofs_consistent,
    spec_tx_hash, spec_tx_rules_ok, spec_wf_context, tx_hash, LocallyEncryptedTx, Tx,
    TxContext, TxContextModel, TxModel, TxOutMembershipProof, WellFormedEncryptedTx,
    WellFormedTxContext, WellFormedTxContextModel,
};
use vstd::slice::slice_to_vec;

verus! {

broadcast use vstd::std_specs::hash::group_hash_axioms;

/// The sealed form of the block-signing key, persisted by the host.
pub type SealedBlockSigningKey = Vec<u8>;

/// The enclave's entire state.
pub struct Enclave {
    /// The enclave's own code measurement.
    pub measurement: u64,
    /// The identity of the trusted verification authority.
    pub ias_authority: u64,
    /// The source of fresh nonces, key shares and session identifiers.
    pub fresh_ctr: u64,
    /// The private half of the channel-encryption key pair.
    pub channel_key: u64,
    /// The key sealing transactions for the enclave's private use.
    pub local_tx_key: u64,
    /// The key sealing transactions proven well-formed.
    pub wellformed_key: u64,
    /// The private half of the block-signing key pair, once established.
    pub signing_key: Option<u64>,
    /// The identity this node answers peers as.
    pub self_peer_id: ResponderId,
    /// The identity this node answers clients as.
    pub self_client_id: ResponderId,
    /// Where the attestation state machine stands.
    pub attestation: AttestationState,
    /// The last verification report accepted, until replaced.
    pub cached_report: Option<VerificationReport>,
    /// Established client sessions.
    pub clients: HashMap<u64, SessionState>,
    /// Established peer sessions.
    pub peers: HashMap<u64, SessionState>,
    /// Outbound peer handshakes awaiting their response, by peer identity.
    pub pending_peer: HashMap<u64, u64>,
}

/// The mathematical model of an [`Enclave`].
pub ghost struct EnclaveModel {
    pub measurement: u64,
    pub ias_authority: u64,
    pub fresh_ctr: u64,
    pub channel_key: u64,
    pub local_tx_key: u64,
    pub wellformed_key: u64,
    pub signing_key: Option<u64>,
    pub self_peer_id: u64,
    pub self_client_id: u64,
    pub attestation: AttestationState,
    pub cached_report: Option<VerificationReport>,
    pub clients: Map<u64, SessionState>,
    pub peers: Map<u64, SessionState>,
    pub pending_peer: Map<u64, u64>,
}

impl View for Enclave {
    type V = EnclaveModel;

    open spec fn view(&self) -> EnclaveModel {
        EnclaveModel {
            measurement: self.measurement,
            ias_authority: self.ias_authority,
            fresh_ctr: self.fresh_ctr,
            channel_key: self.channel_key,
            local_tx_key: self.local_tx_key,
            wellformed_key: self.wellformed_key,
            signing_key: self.signing_key,
            self_peer_id: self.self_peer_id,
            self_client_id: self.self_client_id,
            attestation: self.attestation,
            cached_report: self.cached_report,
            clients: self.clients@,
            peers: self.peers@,
            pending_peer: self.pending_peer@,
        }
    }
}

/// The enclave's well-formedness: every session identifier ever handed out
/// is below the fresh counter, so new identifiers never collide with live
/// sessions.
pub open spec fn enclave_wf(m: EnclaveModel) -> bool {
    &&& forall|id: u64| #[trigger] m.clients.dom().contains(id) ==> id < m.fresh_ctr
    &&& forall|id: u64| #[trigger] m.peers.dom().contains(id) ==> id < m.fresh_ctr
}

/// The state of a freshly constructed enclave: identity material derived
/// from the seed, no signing key, nothing attested, no sessions.
pub open spec fn spec_new_enclave(measurement: u64, ias_authority: u64, seed: u64) -> EnclaveModel {
    EnclaveModel {
        measurement,
        ias_authority,
        fresh_ctr: (seed + 3) as u64,
        channel_key: seed,
        local_tx_key: (seed + 1) as u64,
        wellformed_key: (seed + 2) as u64,
        signing_key: None,
        self_peer_id: 0,
        self_client_id: 0,
        attestation: AttestationState::Idle,
        cached_report: None,
        clients: Map::empty(),
        peers: Map::empty(),
        pending_peer: Map::empty(),
    }
}

/// What initialization does: with no sealed key, a fresh signing key is
/// generated and returned sealed under this enclave's measurement; with a
/// sealed key, it is unsealed or the call fails with the sealing error, and
/// on success the same blob is handed back.
pub open spec fn spec_enclave_init(
    m: EnclaveModel,
    peer_id: u64,
    client_id: u64,
    sealed: Option<Seq<u8>>,
) -> (EnclaveModel, Result<Seq<u8>, Error>) {
    match sealed {
        None => (
            EnclaveModel {
                fresh_ctr: (m.fresh_ctr + 1) as u64,
                signing_key: Some(m.fresh_ctr),
                self_peer_id: peer_id,
                self_client_id: client_id,
                ..m
            },
            Ok(spec_seal_key(m.measurement, m.fresh_ctr)),
        ),
        Some(b) => match spec_unseal_key(m.measurement, b) {
            Err(e) => (m, Err(Error::Sealing(e))),
            Ok(k) => (
                EnclaveModel {
                    signing_key: Some(k),
                    self_peer_id: peer_id,
                    self_client_id: client_id,
                    ..m
                },
                Ok(b),
            ),
        },
    }
}

/// What issuing a new report does: a fresh nonce is bound into a report for
/// the targeted quoting enclave, and any pending attestation is superseded.
pub open spec fn spec_new_ereport(m: EnclaveModel, qe_info: TargetInfo) -> (
    EnclaveModel,
    (Report, u64),
) {
    let report = Report {
        measurement: m.measurement,
        target: qe_info.qe_measurement,
        nonce: m.fresh_ctr,
    };
    (
        EnclaveModel {
            fresh_ctr: (m.fresh_ctr + 1) as u64,
            attestation: AttestationState::ReportIssued { report },
            ..m
        },
        (report, m.fresh_ctr),
    )
}

/// What checking a quote does: out of order, or with a quote that does not
/// embed the issued report, or with an inconsistent quoting enclave, the
/// pending attestation is discarded; otherwise a nonce for the upstream
/// verification request is issued.
pub open spec fn spec_verify_quote(m: EnclaveModel, quote: Quote, qe_report: Report) -> (
    EnclaveModel,
    Result<u64, Error>,
) {
    match m.attestation {
        AttestationState::ReportIssued { report } => {
            if quote.report != report {
                (
                    EnclaveModel { attestation: AttestationState::Idle, ..m },
                    Err(Error::Attestation(AttestationError::QuoteReportMismatch)),
                )
            } else if quote.qe_measurement != report.target || qe_report.measurement
                != quote.qe_measurement {
                (
                    EnclaveModel { attestation: AttestationState::Idle, ..m },
                    Err(Error::Attestation(AttestationError::QeReportMismatch)),
                )
            } else {
                (
                    EnclaveModel {
                        fresh_ctr: (m.fresh_ctr + 1) as u64,
                        attestation: AttestationState::QuoteVerified {
                            quote,
                            ias_nonce: m.fresh_ctr,
                        },
                        ..m
                    },
                    Ok(m.fresh_ctr),
                )
            }
        },
        _ => (
            EnclaveModel { attestation: AttestationState::Idle, ..m },
            Err(Error::Attestation(AttestationError::WrongState)),
        ),
    }
}

/// What checking the authority's report does: it must be signed by the
/// trusted authority, embed the verified quote and carry the issued nonce;
/// then it is cached. Any failure discards the pending attestation and
/// leaves the previously cached report in place.
pub open spec fn spec_verify_ias_report(m: EnclaveModel, vr: VerificationReport) -> (
    EnclaveModel,
    Result<(), Error>,
) {
    match m.attestation {
        AttestationState::QuoteVerified { quote, ias_nonce } => {
            if vr.signer != m.ias_authority {
                (
                    EnclaveModel { attestation: AttestationState::Idle, ..m },
                    Err(Error::Attestation(AttestationError::UntrustedSigner)),
                )
            } else if vr.quote != quote {
                (
                    EnclaveModel { attestation: AttestationState::Idle, ..m },
                    Err(Error::Attestation(AttestationError::ReportQuoteMismatch)),
                )
            } else if vr.ias_nonce != ias_nonce {
                (
                    EnclaveModel { attestation: AttestationState::Idle, ..m },
                    Err(Error::Attestation(AttestationError::NonceMismatch)),
                )
            } else {
                (
                    EnclaveModel {
                        attestation: AttestationState::ReportCached,
                        cached_report: Some(vr),
                        ..m
                    },
                    Ok(()),
                )
            }
        },
        _ => (
            EnclaveModel { attestation: AttestationState::Idle, ..m },
            Err(Error::Attestation(AttestationError::WrongState)),
        ),
    }
}

/// What accepting a client handshake does: a session keyed by the two
/// shares is added under a fresh identifier.
pub open spec fn spec_client_accept(m: EnclaveModel, req: ClientAuthRequest) -> (
    EnclaveModel,
    (ClientAuthResponse, u64),
) {
    let share = m.fresh_ctr;
    let sid = (m.fresh_ctr + 1) as u64;
    (
        EnclaveModel {
            fresh_ctr: (m.fresh_ctr + 2) as u64,
            clients: m.clients.insert(
                sid,
                SessionState {
                    key: spec_session_key(req.share, share),
                    inbound_seq: 0,
                    outbound_seq: 0,
                },
            ),
            ..m
        },
        (ClientAuthResponse { responder_id: m.self_client_id, share }, sid),
    )
}

/// What closing a client session does: its key state is removed
/// irrecoverably; an unknown identifier is rejected.
pub open spec fn spec_client_close(m: EnclaveModel, id: u64) -> (EnclaveModel, Result<(), Error>) {
    if m.clients.contains_key(id) {
        (EnclaveModel { clients: m.clients.remove(id), ..m }, Ok(()))
    } else {
        (m, Err(Error::Session(SessionError::UnknownSession)))
    }
}

/// What discarding a client message does: the message is decrypted, which
/// advances the session's inbound counter, and the payload is dropped.
pub open spec fn spec_client_discard(m: EnclaveModel, id: u64, aad: Seq<u8>, data: Seq<u8>) -> (
    EnclaveModel,
    Result<(), Error>,
) {
    let r = spec_table_decrypt(m.clients, id, aad, data);
    let m2 = EnclaveModel { clients: r.0, ..m };
    match r.1 {
        Ok(_) => (m2, Ok(())),
        Err(e) => (m2, Err(e)),
    }
}

/// The context handed back for one proposed transaction.
pub open spec fn spec_tx_context(local_key: u64, t: TxModel) -> TxContextModel {
    TxContextModel {
        locally_encrypted_tx: spec_sealed_blob(local_key, spec_enc_tx(t)),
        tx_hash: spec_tx_hash(t),
        highest_indices: spec_highest_indices(t),
        key_images: spec_key_images(t),
    }
}

/// What proposing a client transaction does: the message is decrypted on
/// the client session, its payload must decode to one transaction, and the
/// transaction is re-encrypted for the enclave with its context exposed.
pub open spec fn spec_client_tx_propose(m: EnclaveModel, id: u64, aad: Seq<u8>, data: Seq<u8>) -> (
    EnclaveModel,
    Result<TxContextModel, Error>,
) {
    let r = spec_table_decrypt(m.clients, id, aad, data);
    let m2 = EnclaveModel { clients: r.0, ..m };
    match r.1 {
        Err(e) => (m2, Err(e)),
        Ok(p) => match spec_dec_tx(p) {
            None => (m2, Err(Error::Serialization)),
            Some(t) => (m2, Ok(spec_tx_context(m.local_tx_key, t))),
        },
    }
}

/// What proposing peer transactions does: as for a client, but the payload
/// carries a batch and a context is returned for each transaction.
pub open spec fn spec_peer_tx_propose(m: EnclaveModel, id: u64, aad: Seq<u8>, data: Seq<u8>) -> (
    EnclaveModel,
    Result<Seq<TxContextModel>, Error>,
) {
    let r = spec_table_decrypt(m.peers, id, aad, data);
    let m2 = EnclaveModel { peers: r.0, ..m };
    match r.1 {
        Err(e) => (m2, Err(e)),
        Ok(p) => match spec_dec_tx_batch(p) {
            None => (m2, Err(Error::Serialization)),
            Some(ts) => (m2, Ok(ts.map_values(|t: TxModel| spec_tx_context(m.local_tx_key, t)))),
        },
    }
}

/// What opening a peer handshake does: a pending entry with a fresh share
/// is recorded for the peer (superseding any earlier one) and the opening
/// message is produced.
pub open spec fn spec_peer_init(m: EnclaveModel, peer_id: u64) -> (EnclaveModel, PeerAuthRequest) {
    (
        EnclaveModel {
            fresh_ctr: (m.fresh_ctr + 1) as u64,
            pending_peer: m.pending_peer.insert(peer_id, m.fresh_ctr),
            ..m
        },
        PeerAuthRequest { initiator_id: m.self_peer_id, share: m.fresh_ctr },
    )
}

/// What accepting a peer handshake does: a session keyed by the two shares
/// is added under a fresh identifier.
pub open spec fn spec_peer_accept(m: EnclaveModel, req: PeerAuthRequest) -> (
    EnclaveModel,
    (PeerAuthResponse, u64),
) {
    let share = m.fresh_ctr;
    let sid = (m.fresh_ctr + 1) as u64;
    (
        EnclaveModel {
            fresh_ctr: (m.fresh_ctr + 2) as u64,
            peers: m.peers.insert(
                sid,
                SessionState {
                    key: spec_session_key(req.share, share),
                    inbound_seq: 0,
                    outbound_seq: 0,
                },
            ),
            ..m
        },
        (PeerAuthResponse { responder_id: m.self_peer_id, share }, sid),
    )
}

/// What finishing a peer handshake does: the response must answer a pending
/// handshake and come from the peer it was opened with; then the session is
/// established and the pending entry consumed.
pub open spec fn spec_peer_connect(m: EnclaveModel, peer_id: u64, res: PeerAuthResponse) -> (
    EnclaveModel,
    Result<u64, Error>,
) {
    if !m.pending_peer.contains_key(peer_id) {
        (m, Err(Error::Session(SessionError::HandshakeMismatch)))
    } else if res.responder_id != peer_id {
        (m, Err(Error::Session(SessionError::HandshakeMismatch)))
    } else {
        let share = m.pending_peer[peer_id];
        let sid = m.fresh_ctr;
        (
            EnclaveModel {
                fresh_ctr: (m.fresh_ctr + 1) as u64,
                pending_peer: m.pending_peer.remove(peer_id),
                peers: m.peers.insert(
                    sid,
                    SessionState {
                        key: spec_session_key(share, res.share),
                        inbound_seq: 0,
                        outbound_seq: 0,
                    },
                ),
                ..m
            },
            Ok(sid),
        )
    }
}

/// What closing a peer session does.
pub open spec fn spec_peer_close(m: EnclaveModel, id: u64) -> (EnclaveModel, Result<(), Error>) {
    if m.peers.contains_key(id) {
        (EnclaveModel { peers: m.peers.remove(id), ..m }, Ok(()))
    } else {
        (m, Err(Error::Session(SessionError::UnknownSession)))
    }
}

/// The transaction inside one well-formed ciphertext, if it is one.
pub open spec fn spec_open_one(key: u64, b: Seq<u8>) -> Option<TxModel> {
    match spec_open_blob(key, b) {
        None => None,
        Some(p) => spec_dec_tx(p),
    }
}

/// The transactions inside a batch of ciphertexts, if every one opens.
pub open spec fn spec_open_all(key: u64, bs: Seq<Seq<u8>>) -> Option<Seq<TxModel>>
    decreases bs.len(),
{
    if bs.len() == 0 {
        Some(Seq::<TxModel>::empty())
    } else {
        match spec_open_all(key, bs.drop_last()) {
            None => None,
            Some(ts) => match spec_open_one(key, bs.last()) {
                None => None,
                Some(t) => Some(ts.push(t)),
            },
        }
    }
}

/// One ciphertext that does not open spoils the whole batch.
pub proof fn lemma_open_all_fails(key: u64, bs: Seq<Seq<u8>>, i: int)
    requires
        0 <= i < bs.len(),
        spec_open_one(key, bs[i]) is None,
    ensures
        spec_open_all(key, bs) is None,
    decreases bs.len(),
{
    if i == bs.len() - 1 {
        assert(bs.last() == bs[i]);
    } else {
        assert(bs.drop_last()[i] == bs[i]);
        lemma_open_all_fails(key, bs.drop_last(), i);
    }
}

/// What re-encrypting validated transactions for a peer does: every
/// ciphertext must be one of this enclave's well-formed transactions, and
/// the batch is sealed to the peer session with the caller's associated
/// data bound in.
pub open spec fn spec_txs_for_peer(m: EnclaveModel, bs: Seq<Seq<u8>>, aad: Seq<u8>, peer: u64) -> (
    EnclaveModel,
    Result<Seq<u8>, Error>,
) {
    if !m.peers.contains_key(peer) {
        (m, Err(Error::Session(SessionError::UnknownSession)))
    } else {
        match spec_open_all(m.wellformed_key, bs) {
            None => (m, Err(Error::Validation(ValidationError::MalformedCiphertext))),
            Some(ts) => {
                let r = spec_table_encrypt(m.peers, peer, aad, spec_enc_tx_batch(ts));
                (EnclaveModel { peers: r.0, ..m }, r.1)
            },
        }
    }
}

/// What the well-formedness check does, in the order its failures are
/// reported: the ciphertext must be this enclave's and decode, the
/// tombstone block must be strictly ahead of the current block index, the
/// proofs must be exactly the requested ones, and the structural rules must
/// hold; then the transaction is re-encrypted as well-formed with its
/// public context.
pub open spec fn spec_tx_is_well_formed(
    m: EnclaveModel,
    letx: Seq<u8>,
    block_index: u64,
    prfs: Seq<TxOutMembershipProof>,
) -> Result<(Seq<u8>, WellFormedTxContextModel), Error> {
    match spec_open_blob(m.local_tx_key, letx) {
        None => Err(Error::Validation(ValidationError::MalformedCiphertext)),
        Some(p) => match spec_dec_tx(p) {
            None => Err(Error::Validation(ValidationError::MalformedCiphertext)),
            Some(t) => if t.tombstone_block <= block_index {
                Err(Error::Validation(ValidationError::TombstoneExpired))
            } else if !spec_proofs_consistent(t, prfs) {
                Err(Error::Validation(ValidationError::ProofMismatch))
            } else if !spec_tx_rules_ok(t) {
                Err(Error::Validation(ValidationError::RuleViolation))
            } else {
                Ok((spec_sealed_blob(m.wellformed_key, spec_enc_tx(t)), spec_wf_context(t)))
            },
        },
    }
}

/// What block formation does: with a signing key established, every entry
/// must open as a well-formed transaction with exactly its requested
/// proofs, no key image may occur twice in the batch, and the redacted
/// transactions are digested against the parent and signed.
pub open spec fn spec_form_block(
    m: EnclaveModel,
    parent: Block,
    bs: Seq<Seq<u8>>,
    pss: Seq<Seq<TxOutMembershipProof>>,
) -> Result<(Block, Seq<RedactedTxModel>, BlockSignature), Error> {
    match m.signing_key {
        None => Err(Error::Sealing(SealingError::MissingKey)),
        Some(k) => match spec_open_all(m.wellformed_key, bs) {
            None => Err(Error::Validation(ValidationError::MalformedCiphertext)),
            Some(ts) => if !(forall|i: int|
                0 <= i < ts.len() ==> spec_proofs_consistent(#[trigger] ts[i], pss[i])) {
                Err(Error::Validation(ValidationError::ProofMismatch))
            } else if spec_has_dup(spec_batch_images(ts)) {
                Err(Error::Validation(ValidationError::DuplicateKeyImage))
            } else {
                let rtxs = ts.map_values(|t: TxModel| spec_redact(t));
                let digest = spec_block_digest(parent.id, rtxs);
                Ok(
                    (
                        Block { id: digest, parent_id: parent.id, index: (parent.index + 1) as u64 },
                        rtxs,
                        spec_sign_block(k, digest),
                    ),
                )
            },
        },
    }
}

impl Enclave {
    /// Creates an enclave with the given measurement, trusted verification
    /// authority, and entropy seed for its identity material.
    pub fn new(measurement: u64, ias_authority: u64, seed: u64) -> (r: Enclave)
        requires
            seed <= u64::MAX - 3,
        ensures
            r@ == spec_new_enclave(measurement, ias_authority, seed),
            enclave_wf(r@),
    {
        let e = Enclave {
            measurement,
            ias_authority,
            fresh_ctr: seed + 3,
            channel_key: seed,
            local_tx_key: seed + 1,
            wellformed_key: seed + 2,
            signing_key: None,
            self_peer_id: 0,
            self_client_id: 0,
            attestation: AttestationState::Idle,
            cached_report: None,
            clients: HashMap::new(),
            peers: HashMap::new(),
            pending_peer: HashMap::new(),
        };
        proof {
            assert(e@.clients =~= Map::<u64, SessionState>::empty());
            assert(e@.peers =~= Map::<u64, SessionState>::empty());
            assert(e@.pending_peer =~= Map::<u64, u64>::empty());
            assert(e@ == spec_new_enclave(measurement, ias_authority, seed));
        }
        e
    }

    /// Performs one-time initialization: establishes the signing key, fresh
    /// or unsealed, and records this node's identities.
    pub fn enclave_init(
        &mut self,
        self_peer_id: &ResponderId,
        self_client_id: &ResponderId,
        sealed_key: &Option<SealedBlockSigningKey>,
    ) -> (r: Result<SealedBlockSigningKey, Error>)
        requires
            old(self).fresh_ctr < u64::MAX,
            enclave_wf(old(self)@),
        ensures
            enclave_wf(final(self)@),
            final(self)@ == spec_enclave_init(
                old(self)@,
                *self_peer_id,
                *self_client_id,
                match sealed_key {
                    None => None,
                    Some(b) => Some(b@),
                },
            ).0,
            match r {
                Ok(b) => spec_enclave_init(
                    old(self)@,
                    *self_peer_id,
                    *self_client_id,
                    match sealed_key {
                        None => None,
                        Some(b2) => Some(b2@),
                    },
                ).1 == Ok::<Seq<u8>, Error>(b@),
                Err(e) => spec_enclave_init(
                    old(self)@,
                    *self_peer_id,
                    *self_client_id,
                    match sealed_key {
                        None => None,
                        Some(b2) => Some(b2@),
                    },
                ).1 == Err::<Seq<u8>, Error>(e),
            },
    {
        match sealed_key {
            None => {
                let k = self.fresh_ctr;
                self.fresh_ctr = self.fresh_ctr + 1;
                self.signing_key = Some(k);
                self.self_peer_id = *self_peer_id;
                self.self_client_id = *self_client_id;
                Ok(seal_key(self.measurement, k))
            },
            Some(b) => match unseal_key(self.measurement, b.as_slice()) {
                Err(e) => Err(Error::Sealing(e)),
                Ok(k) => {
                    self.signing_key = Some(k);
                    self.self_peer_id = *self_peer_id;
                    self.self_client_id = *self_client_id;
                    Ok(slice_to_vec(b.as_slice()))
                },
            },
        }
    }

    /// The public half of the channel-encryption key pair.
    pub fn get_identity(&self) -> (r: Result<X25519Public, Error>)
        ensures
            r == Ok::<X25519Public, Error>(X25519Public(spec_public_of(self@.channel_key))),
    {
        Ok(X25519Public(public_of(self.channel_key)))
    }

    /// The public half of the block-signing key pair, once initialization
    /// has established it.
    pub fn get_signer(&self) -> (r: Result<Ed25519Public, Error>)
        ensures
            match self@.signing_key {
                Some(k) => r == Ok::<Ed25519Public, Error>(Ed25519Public(spec_public_of(k))),
                None => r == Err::<Ed25519Public, Error>(Error::Sealing(SealingError::MissingKey)),
            },
    {
        match self.signing_key {
            Some(k) => Ok(Ed25519Public(public_of(k))),
            None => Err(Error::Sealing(SealingError::MissingKey)),
        }
    }

    /// Issues a fresh report targeted at the given quoting enclave.
    pub fn new_ereport(&mut self, qe_info: TargetInfo) -> (r: Result<(Report, QuoteNonce), Error>)
        requires
            old(self).fresh_ctr < u64::MAX,
            enclave_wf(old(self)@),
        ensures
            enclave_wf(final(self)@),
            final(self)@ == spec_new_ereport(old(self)@, qe_info).0,
            r == Ok::<(Report, QuoteNonce), Error>(spec_new_ereport(old(self)@, qe_info).1),
    {
        let nonce = self.fresh_ctr;
        self.fresh_ctr = self.fresh_ctr + 1;
        let report = Report {
            measurement: self.measurement,
            target: qe_info.qe_measurement,
            nonce,
        };
        self.attestation = AttestationState::ReportIssued { report };
        proof {
            assert(self@.clients == old(self)@.clients);
            assert(self@.peers == old(self)@.peers);
            assert(self@.fresh_ctr == old(self)@.fresh_ctr + 1);
            assert(enclave_wf(self@));
        }
        Ok((report, nonce))
    }

    /// Checks a quote and its generating enclave against the issued report.
    pub fn verify_quote(&mut self, quote: Quote, qe_report: Report) -> (r: Result<IasNonce, Error>)
        requires
            old(self).fresh_ctr < u64::MAX,
            enclave_wf(old(self)@),
        ensures
            enclave_wf(final(self)@),
            final(self)@ == spec_verify_quote(old(self)@, quote, qe_report).0,
            match r {
                Ok(n) => spec_verify_quote(old(self)@, quote, qe_report).1 == Ok::<u64, Error>(n),
                Err(e) => spec_verify_quote(old(self)@, quote, qe_report).1 == Err::<u64, Error>(
                    e,
                ),
            },
    {
        match self.attestation {
            AttestationState::ReportIssued { report } => {
                if quote.report != report {
                    self.attestation = AttestationState::Idle;
                    Err(Error::Attestation(AttestationError::QuoteReportMismatch))
                } else if quote.qe_measurement != report.target || qe_report.measurement
                    != quote.qe_measurement {
                    self.attestation = AttestationState::Idle;
                    Err(Error::Attestation(AttestationError::QeReportMismatch))
                } else {
                    let n = self.fresh_ctr;
                    self.fresh_ctr = self.fresh_ctr + 1;
                    self.attestation = AttestationState::QuoteVerified { quote, ias_nonce: n };
                    Ok(n)
                }
            },
            _ => {
                self.attestation = AttestationState::Idle;
                Err(Error::Attestation(AttestationError::WrongState))
            },
        }
    }

    /// Checks and caches the verification authority's report.
    pub fn verify_ias_report(&mut self, ias_report: VerificationReport) -> (r: Result<(), Error>)
        requires
            enclave_wf(old(self)@),
        ensures
            enclave_wf(final(self)@),
            final(self)@ == spec_verify_ias_report(old(self)@, ias_report).0,
            match r {
                Ok(_) => spec_verify_ias_report(old(self)@, ias_report).1 == Ok::<(), Error>(()),
                Err(e) => spec_verify_ias_report(old(self)@, ias_report).1 == Err::<(), Error>(e),
            },
    {
        match self.attestation {
            AttestationState::QuoteVerified { quote, ias_nonce } => {
                if ias_report.signer != self.ias_authority {
                    self.attestation = AttestationState::Idle;
                    Err(Error::Attestation(AttestationError::UntrustedSigner))
                } else if ias_report.quote != quote {
                    self.attestation = AttestationState::Idle;
                    Err(Error::Attestation(AttestationError::ReportQuoteMismatch))
                } else if ias_report.ias_nonce != ias_nonce {
                    self.attestation = AttestationState::Idle;
                    Err(Error::Attestation(AttestationError::NonceMismatch))
                } else {
                    self.attestation = AttestationState::ReportCached;
                    self.cached_report = Some(ias_report);
                    Ok(())
                }
            },
            _ => {
                self.attestation = AttestationState::Idle;
                Err(Error::Attestation(AttestationError::WrongState))
            },
        }
    }

    /// The cached verification report, if one has been accepted.
    pub fn get_ias_report(&self) -> (r: Result<VerificationReport, Error>)
        ensures
            match self@.cached_report {
                Some(vr) => r == Ok::<VerificationReport, Error>(vr),
                None => r == Err::<VerificationReport, Error>(
                    Error::Attestation(AttestationError::NoCachedReport),
                ),
            },
    {
        match self.cached_report {
            Some(vr) => Ok(vr),
            None => Err(Error::Attestation(AttestationError::NoCachedReport)),
        }
    }

    /// Accepts an inbound client handshake.
    pub fn client_accept(&mut self, req: ClientAuthRequest) -> (r: Result<
        (ClientAuthResponse, ClientSession),
        Error,
    >)
        requires
            old(self).fresh_ctr <= u64::MAX - 2,
            enclave_wf(old(self)@),
        ensures
            enclave_wf(final(self)@),
            final(self)@ == spec_client_accept(old(self)@, req).0,
            match r {
                Ok(v) => v.0 == spec_client_accept(old(self)@, req).1.0 && v.1 == ClientSession(
                    spec_client_accept(old(self)@, req).1.1,
                ),
                Err(_) => false,
            },
    {
        let share = self.fresh_ctr;
        let sid = self.fresh_ctr + 1;
        self.fresh_ctr = self.fresh_ctr + 2;
        let key = session_key(req.share, share);
        self.clients.insert(sid, SessionState { key, inbound_seq: 0, outbound_seq: 0 });
        proof {
            assert(self@.peers == old(self)@.peers);
            assert(self@.fresh_ctr == old(self)@.fresh_ctr + 2);
            assert forall|id: u64| #[trigger] self@.clients.dom().contains(id) implies id
                < self@.fresh_ctr by {
                if id != sid {
                    assert(old(self)@.clients.dom().contains(id));
                }
            }
            assert(enclave_wf(self@));
        }
        Ok((ClientAuthResponse { responder_id: self.self_client_id, share }, ClientSession(sid)))
    }

    /// Destroys a client session.
    pub fn client_close(&mut self, channel_id: ClientSession) -> (r: Result<(), Error>)
        requires
            enclave_wf(old(self)@),
        ensures
            enclave_wf(final(self)@),
            final(self)@ == spec_client_close(old(self)@, channel_id.0).0,
            match r {
                Ok(_) => spec_client_close(old(self)@, channel_id.0).1 == Ok::<(), Error>(()),
                Err(e) => spec_client_close(old(self)@, channel_id.0).1 == Err::<(), Error>(e),
            },
    {
        match self.clients.remove(&channel_id.0) {
            Some(_) => Ok(()),
            None => {
                proof {
                    assert(self@.clients =~= old(self)@.clients);
                    assert(self@ == old(self)@);
                }
                Err(Error::Session(SessionError::UnknownSession))
            },
        }
    }

    /// Decrypts a client message and discards its payload, keeping the
    /// channel's sequence state in sync with the client.
    pub fn client_discard_message(&mut self, msg: EnclaveMessage<ClientSession>) -> (r: Result<
        (),
        Error,
    >)
        requires
            spec_inbound_room(old(self)@.clients, msg.channel_id.0),
            enclave_wf(old(self)@),
        ensures
            enclave_wf(final(self)@),
            final(self)@ == spec_client_discard(old(self)@, msg.channel_id.0, msg.aad@, msg.data@).0,
            match r {
                Ok(_) => spec_client_discard(old(self)@, msg.channel_id.0, msg.aad@, msg.data@).1
                    == Ok::<(), Error>(()),
                Err(e) => spec_client_discard(old(self)@, msg.channel_id.0, msg.aad@, msg.data@).1
                    == Err::<(), Error>(e),
            },
    {
        match table_decrypt(
            &mut self.clients,
            msg.channel_id.0,
            msg.aad.as_slice(),
            msg.data.as_slice(),
        ) {
            Ok(_) => Ok(()),
            Err(e) => Err(e),
        }
    }

    /// Opens an outbound peer handshake.
    pub fn peer_init(&mut self, peer_id: &ResponderId) -> (r: Result<PeerAuthRequest, Error>)
        requires
            old(self).fresh_ctr < u64::MAX,
            enclave_wf(old(self)@),
        ensures
            enclave_wf(final(self)@),
            final(self)@ == spec_peer_init(old(self)@, *peer_id).0,
            r == Ok::<PeerAuthRequest, Error>(spec_peer_init(old(self)@, *peer_id).1),
    {
        let share = self.fresh_ctr;
        self.fresh_ctr = self.fresh_ctr + 1;
        self.pending_peer.insert(*peer_id, share);
        proof {
            assert(self@.clients == old(self)@.clients);
            assert(self@.peers == old(self)@.peers);
            assert(self@.fresh_ctr == old(self)@.fresh_ctr + 1);
            assert(enclave_wf(self@));
        }
        Ok(PeerAuthRequest { initiator_id: self.self_peer_id, share })
    }

    /// Accepts an inbound peer handshake.
    pub fn peer_accept(&mut self, req: PeerAuthRequest) -> (r: Result<
        (PeerAuthResponse, PeerSession),
        Error,
    >)
        requires
            old(self).fresh_ctr <= u64::MAX - 2,
            enclave_wf(old(self)@),
        ensures
            enclave_wf(final(self)@),
            final(self)@ == spec_peer_accept(old(self)@, req).0,
            match r {
                Ok(v) => v.0 == spec_peer_accept(old(self)@, req).1.0 && v.1 == PeerSession(
                    spec_peer_accept(old(self)@, req).1.1,
                ),
                Err(_) => false,
            },
    {
        let share = self.fresh_ctr;
        let sid = self.fresh_ctr + 1;
        self.fresh_ctr = self.fresh_ctr + 2;
        let key = session_key(req.share, share);
        self.peers.insert(sid, SessionState { key, inbound_seq: 0, outbound_seq: 0 });
        proof {
            assert(self@.clients == old(self)@.clients);
            assert(self@.fresh_ctr == old(self)@.fresh_ctr + 2);
            assert forall|id: u64| #[trigger] self@.peers.dom().contains(id) implies id
                < self@.fresh_ctr by {
                if id != sid {
                    assert(old(self)@.peers.dom().contains(id));
                }
            }
            assert(enclave_wf(self@));
        }
        Ok((PeerAuthResponse { responder_id: self.self_peer_id, share }, PeerSession(sid)))
    }

    /// Finishes an outbound peer handshake with the peer's response.
    pub fn peer_connect(&mut self, peer_id: &ResponderId, res: PeerAuthResponse) -> (r: Result<
        PeerSession,
        Error,
    >)
        requires
            old(self).fresh_ctr < u64::MAX,
            enclave_wf(old(self)@),
        ensures
            enclave_wf(final(self)@),
            final(self)@ == spec_peer_connect(old(self)@, *peer_id, res).0,
            match r {
                Ok(s) => spec_peer_connect(old(self)@, *peer_id, res).1 == Ok::<u64, Error>(s.0),
                Err(e) => spec_peer_connect(old(self)@, *peer_id, res).1 == Err::<u64, Error>(e),
            },
    {
        let share = match self.pending_peer.get(peer_id) {
            Some(s) => *s,
            None => {
                return Err(Error::Session(SessionError::HandshakeMismatch));
            },
        };
        if res.responder_id != *peer_id {
            return Err(Error::Session(SessionError::HandshakeMismatch));
        }
        let sid = self.fresh_ctr;
        self.fresh_ctr = self.fresh_ctr + 1;
        self.pending_peer.remove(peer_id);
        let key = session_key(share, res.share);
        self.peers.insert(sid, SessionState { key, inbound_seq: 0, outbound_seq: 0 });
        Ok(PeerSession(sid))
    }

    /// Admits one transaction from a client: decrypts it on the session,
    /// re-encrypts it for the enclave and exposes its context.
    pub fn client_tx_propose(&mut self, msg: EnclaveMessage<ClientSession>) -> (r: Result<
        TxContext,
        Error,
    >)
        requires
            spec_inbound_room(old(self)@.clients, msg.channel_id.0),
            enclave_wf(old(self)@),
        ensures
            enclave_wf(final(self)@),
            final(self)@ == spec_client_tx_propose(old(self)@, msg.channel_id.0, msg.aad@, msg.data@).0,
            match r {
                Ok(c) => spec_client_tx_propose(old(self)@, msg.channel_id.0, msg.aad@, msg.data@).1
                    == Ok::<TxContextModel, Error>(c@),
                Err(e) => spec_client_tx_propose(
                    old(self)@,
                    msg.channel_id.0,
                    msg.aad@,
                    msg.data@,
                ).1 == Err::<TxContextModel, Error>(e),
            },
    {
        let local_key = self.local_tx_key;
        match table_decrypt(
            &mut self.clients,
            msg.channel_id.0,
            msg.aad.as_slice(),
            msg.data.as_slice(),
        ) {
            Err(e) => Err(e),
            Ok(p) => match decode_tx(p.as_slice()) {
                None => Err(Error::Serialization),
                Some(t) => {
                    let enc = encode_tx(&t);
                    let ctx = TxContext {
                        locally_encrypted_tx: LocallyEncryptedTx(
                            seal_blob(local_key, enc.as_slice()),
                        ),
                        tx_hash: tx_hash(&t),
                        highest_indices: highest_indices(&t),
                        key_images: key_images(&t),
                    };
                    Ok(ctx)
                },
            },
        }
    }

    /// Admits a batch of transactions from a peer, one context per
    /// transaction.
    pub fn peer_tx_propose(&mut self, msg: EnclaveMessage<PeerSession>) -> (r: Result<
        Vec<TxContext>,
        Error,
    >)
        requires
            spec_inbound_room(old(self)@.peers, msg.channel_id.0),
            enclave_wf(old(self)@),
        ensures
            enclave_wf(final(self)@),
            final(self)@ == spec_peer_tx_propose(old(self)@, msg.channel_id.0, msg.aad@, msg.data@).0,
            match r {
                Ok(cs) => spec_peer_tx_propose(old(self)@, msg.channel_id.0, msg.aad@, msg.data@).1
                    == Ok::<Seq<TxContextModel>, Error>(cs@.map_values(|c: TxContext| c@)),
                Err(e) => spec_peer_tx_propose(old(self)@, msg.channel_id.0, msg.aad@, msg.data@).1
                    == Err::<Seq<TxContextModel>, Error>(e),
            },
    {
        let local_key = self.local_tx_key;
        match table_decrypt(
            &mut self.peers,
            msg.channel_id.0,
            msg.aad.as_slice(),
            msg.data.as_slice(),
        ) {
            Err(e) => Err(e),
            Ok(p) => match decode_tx_batch(p.as_slice()) {
                None => Err(Error::Serialization),
                Some(ts) => {
                    let ghost models = ts@.map_values(|t: Tx| t@);
                    let mut out: Vec<TxContext> = Vec::new();
                    let mut i: usize = 0;
                    while i < ts.len()
                        invariant
                            i <= ts@.len(),
                            models == ts@.map_values(|t: Tx| t@),
                            out@.len() == i,
                            forall|k: int|
                                0 <= k < i ==> (#[trigger] out@[k])@ == spec_tx_context(
                                    local_key,
                                    models[k],
                                ),
                        decreases ts@.len() - i,
                    {
                        let t = &ts[i];
                        let enc = encode_tx(t);
                        let ctx = TxContext {
                            locally_encrypted_tx: LocallyEncryptedTx(
                                seal_blob(local_key, enc.as_slice()),
                            ),
                            tx_hash: tx_hash(t),
                            highest_indices: highest_indices(t),
                            key_images: key_images(t),
                        };
                        proof {
                            assert(models[i as int] == ts@[i as int]@);
                        }
                        out.push(ctx);
                        i += 1;
                    }
                    proof {
                        assert(out@.map_values(|c: TxContext| c@) =~= models.map_values(
                            |t: TxModel| spec_tx_context(local_key, t),
                        ));
                    }
                    Ok(out)
                },
            },
        }
    }

    /// Checks a locally encrypted transaction for well-formedness against
    /// the current block index and the membership proofs requested for it.
    pub fn tx_is_well_formed(
        &self,
        locally_encrypted_tx: LocallyEncryptedTx,
        block_index: u64,
        proofs: Vec<TxOutMembershipProof>,
    ) -> (r: Result<(WellFormedEncryptedTx, WellFormedTxContext), Error>)
        ensures
            match r {
                Ok(v) => spec_tx_is_well_formed(self@, locally_encrypted_tx.0@, block_index, proofs@)
                    == Ok::<(Seq<u8>, WellFormedTxContextModel), Error>((v.0.0@, v.1@)),
                Err(e) => spec_tx_is_well_formed(
                    self@,
                    locally_encrypted_tx.0@,
                    block_index,
                    proofs@,
                ) == Err::<(Seq<u8>, WellFormedTxContextModel), Error>(e),
            },
    {
        let p = match open_blob(self.local_tx_key, locally_encrypted_tx.0.as_slice()) {
            None => {
                return Err(Error::Validation(ValidationError::MalformedCiphertext));
            },
            Some(p) => p,
        };
        let t = match decode_tx(p.as_slice()) {
            None => {
                return Err(Error::Validation(ValidationError::MalformedCiphertext));
            },
            Some(t) => t,
        };
        if t.tombstone_block <= block_index {
            return Err(Error::Validation(ValidationError::TombstoneExpired));
        }
        if !check_proofs_consistent(&t, &proofs) {
            return Err(Error::Validation(ValidationError::ProofMismatch));
        }
        if !check_tx_rules(&t) {
            return Err(Error::Validation(ValidationError::RuleViolation));
        }
        let enc = encode_tx(&t);
        let wtx = WellFormedEncryptedTx(seal_blob(self.wellformed_key, enc.as_slice()));
        let ctx = WellFormedTxContext::from(&t);
        Ok((wtx, ctx))
    }

    /// Re-encrypts well-formed transactions for a peer session, binding the
    /// caller's associated data.
    #[verifier::loop_isolation(false)]
    pub fn txs_for_peer(
        &mut self,
        encrypted_txs: &[WellFormedEncryptedTx],
        aad: &[u8],
        peer: &PeerSession,
    ) -> (r: Result<EnclaveMessage<PeerSession>, Error>)
        requires
            spec_outbound_room(old(self)@.peers, peer.0),
            enclave_wf(old(self)@),
        ensures
            enclave_wf(final(self)@),
            final(self)@ == spec_txs_for_peer(
                old(self)@,
                encrypted_txs@.map_values(|w: WellFormedEncryptedTx| w.0@),
                aad@,
                peer.0,
            ).0,
            match r {
                Ok(msg) => spec_txs_for_peer(
                    old(self)@,
                    encrypted_txs@.map_values(|w: WellFormedEncryptedTx| w.0@),
                    aad@,
                    peer.0,
                ).1 == Ok::<Seq<u8>, Error>(msg.data@) && msg.channel_id == *peer && msg.aad@
                    == aad@,
                Err(e) => spec_txs_for_peer(
                    old(self)@,
                    encrypted_txs@.map_values(|w: WellFormedEncryptedTx| w.0@),
                    aad@,
                    peer.0,
                ).1 == Err::<Seq<u8>, Error>(e),
            },
    {
        let ghost bviews = encrypted_txs@.map_values(|w: WellFormedEncryptedTx| w.0@);
        if !self.peers.contains_key(&peer.0) {
            return Err(Error::Session(SessionError::UnknownSession));
        }
        let wf_key = self.wellformed_key;
        let mut txs: Vec<Tx> = Vec::new();
        let mut i: usize = 0;
        proof {
            assert(bviews.take(0) =~= Seq::<Seq<u8>>::empty());
        }
        while i < encrypted_txs.len()
            invariant
                i <= bviews.len(),
                bviews == encrypted_txs@.map_values(|w: WellFormedEncryptedTx| w.0@),
                wf_key == self.wellformed_key,
                spec_open_all(wf_key, bviews.take(i as int)) == Some(
                    txs@.map_values(|t: Tx| t@),
                ),
            decreases bviews.len() - i,
        {
            proof {
                assert(bviews[i as int] == encrypted_txs@[i as int].0@);
            }
            let p = match open_blob(wf_key, encrypted_txs[i].0.as_slice()) {
                None => {
                    proof {
                        lemma_open_all_fails(wf_key, bviews, i as int);
                    }
                    return Err(Error::Validation(ValidationError::MalformedCiphertext));
                },
                Some(p) => p,
            };
            let t = match decode_tx(p.as_slice()) {
                None => {
                    proof {
                        lemma_open_all_fails(wf_key, bviews, i as int);
                    }
                    return Err(Error::Validation(ValidationError::MalformedCiphertext));
                },
                Some(t) => t,
            };
            let ghost pre = txs@.map_values(|t2: Tx| t2@);
            txs.push(t);
            proof {
                assert(bviews.take(i as int + 1).drop_last() =~= bviews.take(i as int));
                assert(bviews.take(i as int + 1).last() == bviews[i as int]);
                assert(txs@.map_values(|t2: Tx| t2@) =~= pre.push(t@));
            }
            i += 1;
        }
        proof {
            assert(bviews.take(bviews.len() as int) =~= bviews);
        }
        let payload = encode_tx_batch(&txs);
        match table_encrypt(&mut self.peers, peer.0, aad, payload.as_slice()) {
            Err(e) => Err(e),
            Ok(data) => Ok(
                EnclaveMessage { aad: slice_to_vec(aad), channel_id: *peer, data },
            ),
        }
    }

    /// Destroys a peer session.
    pub fn peer_close(&mut self, channel_id: &PeerSession) -> (r: Result<(), Error>)
        requires
            enclave_wf(old(self)@),
        ensures
            enclave_wf(final(self)@),
            final(self)@ == spec_peer_close(old(self)@, channel_id.0).0,
            match r {
                Ok(_) => spec_peer_close(old(self)@, channel_id.0).1 == Ok::<(), Error>(()),
                Err(e) => spec_peer_close(old(self)@, channel_id.0).1 == Err::<(), Error>(e),
            },
    {
        match self.peers.remove(&channel_id.0) {
            Some(_) => Ok(()),
            None => {
                proof {
                    assert(self@.peers =~= old(self)@.peers);
                    assert(self@ == old(self)@);
                }
                Err(Error::Session(SessionError::UnknownSession))
            },
        }
    }

    /// Forms a new block from well-formed transactions and their proofs:
    /// redacts them, rejects any in-batch double spend, digests against the
    /// parent and signs.
    #[verifier::loop_isolation(false)]
    pub fn form_block(
        &self,
        parent_block: &Block,
        txs: &[(WellFormedEncryptedTx, Vec<TxOutMembershipProof>)],
    ) -> (r: Result<(Block, Vec<RedactedTx>, BlockSignature), Error>)
        requires
            parent_block.index < u64::MAX,
        ensures
            match r {
                Ok(v) => spec_form_block(
                    self@,
                    *parent_block,
                    txs@.map_values(|e: (WellFormedEncryptedTx, Vec<TxOutMembershipProof>)| e.0.0@),
                    txs@.map_values(|e: (WellFormedEncryptedTx, Vec<TxOutMembershipProof>)| e.1@),
                ) == Ok::<(Block, Seq<RedactedTxModel>, BlockSignature), Error>(
                    (v.0, v.1@.map_values(|t: RedactedTx| t@), v.2),
                ),
                Err(e) => spec_form_block(
                    self@,
                    *parent_block,
                    txs@.map_values(|e: (WellFormedEncryptedTx, Vec<TxOutMembershipProof>)| e.0.0@),
                    txs@.map_values(|e: (WellFormedEncryptedTx, Vec<TxOutMembershipProof>)| e.1@),
                ) == Err::<(Block, Seq<RedactedTxModel>, BlockSignature), Error>(e),
            },
    {
        let ghost bviews = txs@.map_values(
            |e: (WellFormedEncryptedTx, Vec<TxOutMembershipProof>)| e.0.0@,
        );
        let ghost pviews = txs@.map_values(
            |e: (WellFormedEncryptedTx, Vec<TxOutMembershipProof>)| e.1@,
        );
        let k = match self.signing_key {
            Some(k) => k,
            None => {
                return Err(Error::Sealing(SealingError::MissingKey));
            },
        };
        let wf_key = self.wellformed_key;
        let mut decoded: Vec<Tx> = Vec::new();
        let mut i: usize = 0;
        proof {
            assert(bviews.take(0) =~= Seq::<Seq<u8>>::empty());
        }
        while i < txs.len()
            invariant
                i <= bviews.len(),
                bviews == txs@.map_values(
                    |e: (WellFormedEncryptedTx, Vec<TxOutMembershipProof>)| e.0.0@,
                ),
                wf_key == self.wellformed_key,
                decoded@.len() == i,
                spec_open_all(wf_key, bviews.take(i as int)) == Some(
                    decoded@.map_values(|t: Tx| t@),
                ),
            decreases bviews.len() - i,
        {
            proof {
                assert(bviews[i as int] == txs@[i as int].0.0@);
            }
            let p = match open_blob(wf_key, txs[i].0.0.as_slice()) {
                None => {
                    proof {
                        lemma_open_all_fails(wf_key, bviews, i as int);
                    }
                    return Err(Error::Validation(ValidationError::MalformedCiphertext));
                },
                Some(p) => p,
            };
            let t = match decode_tx(p.as_slice()) {
                None => {
                    proof {
                        lemma_open_all_fails(wf_key, bviews, i as int);
                    }
                    return Err(Error::Validation(ValidationError::MalformedCiphertext));
                },
                Some(t) => t,
            };
            let ghost pre = decoded@.map_values(|t2: Tx| t2@);
            decoded.push(t);
            proof {
                assert(bviews.take(i as int + 1).drop_last() =~= bviews.take(i as int));
                assert(bviews.take(i as int + 1).last() == bviews[i as int]);
                assert(decoded@.map_values(|t2: Tx| t2@) =~= pre.push(t@));
            }
            i += 1;
        }
        proof {
            assert(bviews.take(bviews.len() as int) =~= bviews);
        }
        let ghost models = decoded@.map_values(|t: Tx| t@);
        let mut j: usize = 0;
        while j < decoded.len()
            invariant
                j <= models.len(),
                models == decoded@.map_values(|t: Tx| t@),
                models.len() == pviews.len(),
                pviews == txs@.map_values(
                    |e: (WellFormedEncryptedTx, Vec<TxOutMembershipProof>)| e.1@,
                ),
                decoded@.len() == txs@.len(),
                forall|a: int|
                    0 <= a < j ==> spec_proofs_consistent(#[trigger] models[a], pviews[a]),
            decreases models.len() - j,
        {
            proof {
                assert(models[j as int] == decoded@[j as int]@);
                assert(pviews[j as int] == txs@[j as int].1@);
            }
            if !check_proofs_consistent(&decoded[j], &txs[j].1) {
                return Err(Error::Validation(ValidationError::ProofMismatch));
            }
            j += 1;
        }
        let images = batch_images(&decoded);
        if has_dup(&images) {
            return Err(Error::Validation(ValidationError::DuplicateKeyImage));
        }
        let mut rtxs: Vec<RedactedTx> = Vec::new();
        let mut n: usize = 0;
        while n < decoded.len()
            invariant
                n <= models.len(),
                models == decoded@.map_values(|t: Tx| t@),
                rtxs@.len() == n,
                forall|a: int|
                    0 <= a < n ==> (#[trigger] rtxs@[a])@ == spec_redact(models[a]),
            decreases models.len() - n,
        {
            proof {
                assert(models[n as int] == decoded@[n as int]@);
            }
            let rtx = redact(&decoded[n]);
            rtxs.push(rtx);
            n += 1;
        }
        proof {
            assert(rtxs@.map_values(|t: RedactedTx| t@) =~= models.map_values(
                |t: TxModel| spec_redact(t),
            ));
        }
        let digest = block_digest(parent_block.id, &rtxs);
        let block = Block { id: digest, parent_id: parent_block.id, index: parent_block.index + 1 };
        let sig = sign_block(k, digest);
        Ok((block, rtxs, sig))
    }
}

} // verus!
