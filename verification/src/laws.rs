//! The laws of the enclave, proved over its transition functions.
//!
//! Each lemma states a property that relates several calls: what a proposed
//! transaction's context reveals, which batches a block can be formed from,
//! what the attestation and sealing round trips yield, and how the session
//! lifecycle behaves after a close or a discard.

use vstd::prelude::*;
use crate::attestation::{Quote, Report, TargetInfo, VerificationReport};
use crate::blockchain::{spec_batch_images, spec_block_digest, spec_has_dup,
    spec_verify_block_signature, Block, BlockSignature, RedactedTxModel};
use crate::cipher::{
    lemma_blob_round_trip, lemma_msg_round_trip, spec_sealed_blob, spec_sealed_msg,
};
use crate::enclave::{
    spec_client_close, spec_client_discard, spec_client_tx_propose, spec_enclave_init,
    spec_form_block, spec_new_ereport, spec_open_all, spec_peer_close, spec_peer_tx_propose,
    spec_tx_context, spec_tx_is_well_formed, spec_txs_for_peer, spec_verify_ias_report,
    spec_verify_quote, EnclaveModel,
};
use crate::error::{Error, SealingError, SessionError, ValidationError};
use crate::identity::{
    lemma_seal_foreign, lemma_seal_round_trip, spec_public_of, spec_seal_key, Ed25519Public,
};
use crate::tx::{
    lemma_tx_batch_round_trip, lemma_tx_round_trip, spec_enc_tx, spec_enc_tx_batch,
    spec_highest_indices, spec_key_images, spec_proofs_consistent, spec_tx_hash, tx_bounded,
    TxContextModel, TxModel, TxOutMembershipProof,
};

verus! {

/// For every transaction a client submits on a live session, the context
/// the pipeline hands back carries exactly the transaction's hash, its key
/// images, and the highest membership-proof index of each input.
pub proof fn lemma_propose_reflects_tx(
    m: EnclaveModel,
    id: u64,
    aad: Seq<u8>,
    t: TxModel,
)
    requires
        m.clients.contains_key(id),
        aad.len() <= u64::MAX,
        tx_bounded(t),
    ensures
        ({
            let s = m.clients[id];
            let data = spec_sealed_msg(s.key, s.inbound_seq, aad, spec_enc_tx(t));
            let ctx = spec_tx_context(m.local_tx_key, t);
            spec_client_tx_propose(m, id, aad, data).1 == Ok::<_, Error>(ctx)
                && ctx.tx_hash == spec_tx_hash(t)
                && ctx.highest_indices == spec_highest_indices(t)
                && ctx.key_images == spec_key_images(t)
        }),
{
    let s = m.clients[id];
    lemma_msg_round_trip(s.key, s.inbound_seq, aad, spec_enc_tx(t));
    lemma_tx_round_trip(t);
}

/// For every batch a peer relays on a live session, the pipeline hands back
/// one context per transaction, in order, each derived from its transaction
/// exactly as on the client path.
pub proof fn lemma_peer_propose_reflects_batch(
    m: EnclaveModel,
    id: u64,
    aad: Seq<u8>,
    ts: Seq<TxModel>,
)
    requires
        m.peers.contains_key(id),
        aad.len() <= u64::MAX,
        ts.len() <= u64::MAX,
        forall|j: int| 0 <= j < ts.len() ==> tx_bounded(#[trigger] ts[j]),
    ensures
        ({
            let s = m.peers[id];
            let data = spec_sealed_msg(s.key, s.inbound_seq, aad, spec_enc_tx_batch(ts));
            spec_peer_tx_propose(m, id, aad, data).1 == Ok::<Seq<TxContextModel>, Error>(
                ts.map_values(|t: TxModel| spec_tx_context(m.local_tx_key, t)),
            )
        }),
{
    let s = m.peers[id];
    lemma_msg_round_trip(s.key, s.inbound_seq, aad, spec_enc_tx_batch(ts));
    lemma_tx_batch_round_trip(ts);
}

/// A locally encrypted transaction whose tombstone block has been reached
/// is rejected as expired, whatever proofs are supplied, and yields no
/// well-formed transaction.
pub proof fn lemma_expired_tx_rejected(
    m: EnclaveModel,
    t: TxModel,
    block_index: u64,
    prfs: Seq<TxOutMembershipProof>,
)
    requires
        tx_bounded(t),
        t.tombstone_block <= block_index,
    ensures
        spec_tx_is_well_formed(
            m,
            spec_sealed_blob(m.local_tx_key, spec_enc_tx(t)),
            block_index,
            prfs,
        ) is Err,
        spec_tx_is_well_formed(
            m,
            spec_sealed_blob(m.local_tx_key, spec_enc_tx(t)),
            block_index,
            prfs,
        )->Err_0 == Error::Validation(ValidationError::TombstoneExpired),
{
    lemma_blob_round_trip(m.local_tx_key, spec_enc_tx(t));
    lemma_tx_round_trip(t);
}

/// A batch in which two entries spend the same key image never forms a
/// block: block formation fails and produces neither block nor signature.
pub proof fn lemma_duplicate_key_image_rejected(
    m: EnclaveModel,
    parent: Block,
    bs: Seq<Seq<u8>>,
    pss: Seq<Seq<TxOutMembershipProof>>,
)
    requires
        m.signing_key is Some,
        spec_open_all(m.wellformed_key, bs) is Some,
        forall|i: int|
            0 <= i < spec_open_all(m.wellformed_key, bs)->0.len() ==> spec_proofs_consistent(
                #[trigger] spec_open_all(m.wellformed_key, bs)->0[i],
                pss[i],
            ),
        spec_has_dup(spec_batch_images(spec_open_all(m.wellformed_key, bs)->0)),
    ensures
        spec_form_block(m, parent, bs, pss) == Err::<
            (Block, Seq<RedactedTxModel>, BlockSignature),
            Error,
        >(Error::Validation(ValidationError::DuplicateKeyImage)),
{
}

/// Every block that block formation returns verifies under the signing
/// public key the enclave advertises, and its identifier is the digest of
/// the parent's identifier and the ordered redacted transactions — the same
/// inputs always give the same block.
pub proof fn lemma_formed_block_verifies(
    m: EnclaveModel,
    parent: Block,
    bs: Seq<Seq<u8>>,
    pss: Seq<Seq<TxOutMembershipProof>>,
    b: Block,
    rtxs: Seq<RedactedTxModel>,
    sig: BlockSignature,
)
    requires
        parent.index < u64::MAX,
        spec_form_block(m, parent, bs, pss) == Ok::<_, Error>((b, rtxs, sig)),
    ensures
        m.signing_key is Some,
        spec_verify_block_signature(Ed25519Public(spec_public_of(m.signing_key->0)), b, sig),
        b.id == spec_block_digest(parent.id, rtxs),
        b.parent_id == parent.id,
        b.index == parent.index + 1,
{
}

/// The attestation round trip: a fresh report, a quote embedding it from
/// the targeted quoting enclave, and an authority's report embedding that
/// quote with the issued nonce are each accepted in turn, and the cached
/// report is then exactly the authority's report.
pub proof fn lemma_attestation_round_trip(
    m: EnclaveModel,
    qe_info: TargetInfo,
    qe_nonce: u64,
    qe_target: u64,
)
    requires
        m.fresh_ctr <= u64::MAX - 2,
    ensures
        ({
            let outcome = spec_new_ereport(m, qe_info);
            let report = outcome.1.0;
            let quote = Quote { report, qe_measurement: qe_info.qe_measurement };
            let qe_report = Report {
                measurement: qe_info.qe_measurement,
                target: qe_target,
                nonce: qe_nonce,
            };
            let after_quote = spec_verify_quote(outcome.0, quote, qe_report);
            let vr = VerificationReport {
                signer: m.ias_authority,
                quote,
                ias_nonce: outcome.0.fresh_ctr,
            };
            let after_ias = spec_verify_ias_report(after_quote.0, vr);
            after_quote.1 == Ok::<u64, Error>(outcome.0.fresh_ctr) && after_ias.1 == Ok::<
                (),
                Error,
            >(()) && after_ias.0.cached_report == Some(vr)
        }),
{
}

/// Any attestation step that fails leaves the previously cached report
/// unchanged; so does superseding a pending attestation with a new report.
pub proof fn lemma_attestation_failure_keeps_cache(
    m: EnclaveModel,
    qe_info: TargetInfo,
    quote: Quote,
    qe_report: Report,
    vr: VerificationReport,
)
    ensures
        spec_new_ereport(m, qe_info).0.cached_report == m.cached_report,
        spec_verify_quote(m, quote, qe_report).1 is Err ==> spec_verify_quote(
            m,
            quote,
            qe_report,
        ).0.cached_report == m.cached_report,
        spec_verify_ias_report(m, vr).1 is Err ==> spec_verify_ias_report(
            m,
            vr,
        ).0.cached_report == m.cached_report,
{
}

/// After a client session is closed — and equally if it never existed —
/// decrypting against its identifier fails with a session error, for the
/// proposal path and the discard path alike.
pub proof fn lemma_closed_client_rejected(m: EnclaveModel, id: u64, aad: Seq<u8>, data: Seq<u8>)
    ensures
        ({
            let m2 = spec_client_close(m, id).0;
            spec_client_tx_propose(m2, id, aad, data).1 == Err::<
                crate::tx::TxContextModel,
                Error,
            >(Error::Session(SessionError::UnknownSession)) && spec_client_discard(m2, id, aad, data).1 == Err::<(), Error>(
                Error::Session(SessionError::UnknownSession),
            )
        }),
{
    let m2 = spec_client_close(m, id).0;
    assert(!m2.clients.contains_key(id));
}

/// After a peer session is closed, relaying to it and decrypting from it
/// fail with a session error.
pub proof fn lemma_closed_peer_rejected(
    m: EnclaveModel,
    id: u64,
    bs: Seq<Seq<u8>>,
    aad: Seq<u8>,
    data: Seq<u8>,
)
    ensures
        ({
            let m2 = spec_peer_close(m, id).0;
            spec_txs_for_peer(m2, bs, aad, id).1 == Err::<Seq<u8>, Error>(
                Error::Session(SessionError::UnknownSession),
            ) && spec_peer_tx_propose(m2, id, aad, data).1 == Err::<
                Seq<crate::tx::TxContextModel>,
                Error,
            >(Error::Session(SessionError::UnknownSession))
        }),
{
    let m2 = spec_peer_close(m, id).0;
    assert(!m2.peers.contains_key(id));
}

/// Discarding a message never yields its payload (the call returns
/// nothing), yet advances the session, so the client's next message — with
/// the next sequence number — is accepted and decrypts to its transaction.
pub proof fn lemma_discard_keeps_channel_in_sync(
    m: EnclaveModel,
    id: u64,
    aad: Seq<u8>,
    payload: Seq<u8>,
    aad2: Seq<u8>,
    t: TxModel,
)
    requires
        m.clients.contains_key(id),
        m.clients[id].inbound_seq < u64::MAX,
        aad.len() <= u64::MAX,
        aad2.len() <= u64::MAX,
        tx_bounded(t),
    ensures
        ({
            let s = m.clients[id];
            let first = spec_sealed_msg(s.key, s.inbound_seq, aad, payload);
            let discarded = spec_client_discard(m, id, aad, first);
            let second = spec_sealed_msg(
                s.key,
                (s.inbound_seq + 1) as u64,
                aad2,
                spec_enc_tx(t),
            );
            discarded.1 == Ok::<(), Error>(()) && spec_client_tx_propose(
                discarded.0,
                id,
                aad2,
                second,
            ).1 == Ok::<_, Error>(spec_tx_context(m.local_tx_key, t))
        }),
{
    let s = m.clients[id];
    lemma_msg_round_trip(s.key, s.inbound_seq, aad, payload);
    let discarded = spec_client_discard(m, id, aad, spec_sealed_msg(s.key, s.inbound_seq, aad, payload));
    let s2 = discarded.0.clients[id];
    assert(s2.key == s.key && s2.inbound_seq == s.inbound_seq + 1);
    lemma_msg_round_trip(s.key, (s.inbound_seq + 1) as u64, aad2, spec_enc_tx(t));
    lemma_tx_round_trip(t);
}

/// The sealing round trip: initializing with no sealed key yields a blob
/// that the same enclave measurement always unseals back to a signer with
/// the advertised public key, while an enclave of another measurement
/// rejects it with a sealing error and is left unchanged.
pub proof fn lemma_sealing_round_trip(
    m: EnclaveModel,
    restarted: EnclaveModel,
    foreign: EnclaveModel,
    peer_id: u64,
    client_id: u64,
)
    requires
        m.fresh_ctr < u64::MAX,
        restarted.measurement == m.measurement,
        foreign.measurement != m.measurement,
    ensures
        ({
            let first = spec_enclave_init(m, peer_id, client_id, None);
            let blob = spec_seal_key(m.measurement, m.fresh_ctr);
            let again = spec_enclave_init(restarted, peer_id, client_id, Some(blob));
            let elsewhere = spec_enclave_init(foreign, peer_id, client_id, Some(blob));
            first.1 == Ok::<Seq<u8>, Error>(blob) && first.0.signing_key == Some(m.fresh_ctr)
                && again.1 == Ok::<Seq<u8>, Error>(blob) && again.0.signing_key == Some(
                m.fresh_ctr,
            ) && spec_public_of(again.0.signing_key->0) == spec_public_of(
                first.0.signing_key->0,
            ) && elsewhere.1 == Err::<Seq<u8>, Error>(
                Error::Sealing(SealingError::ForeignMeasurement),
            ) && elsewhere.0 == foreign
        }),
{
    lemma_seal_round_trip(m.measurement, m.fresh_ctr);
    lemma_seal_foreign(m.measurement, foreign.measurement, m.fresh_ctr);
}

} // verus!
