//! Scenario tests of the enclave engine: attestation, sessions, the
//! admission pipeline, peer relay, block formation and sealing.

use consensus_enclave::attestation::{Quote, Report, TargetInfo, VerificationReport};
use consensus_enclave::blockchain::{verify_block_signature, Block};
use consensus_enclave::cipher::{seal_blob, seal_msg};
use consensus_enclave::enclave::Enclave;
use consensus_enclave::error::{
    AttestationError, Error, SealingError, SessionError, ValidationError,
};
use consensus_enclave::session::{
    ClientAuthRequest, ClientSession, EnclaveMessage, PeerAuthResponse,
};
use consensus_enclave::tx::{
    encode_tx, tx_hash, LocallyEncryptedTx, Tx, TxIn, TxOutMembershipProof, WellFormedEncryptedTx,
    WellFormedTxContext,
};

const MEASUREMENT: u64 = 7;
const IAS: u64 = 99;

fn initialized_enclave(seed: u64) -> Enclave {
    let mut e = Enclave::new(MEASUREMENT, IAS, seed);
    e.enclave_init(&1, &2, &None).expect("fresh initialization succeeds");
    e
}

fn sample_tx() -> Tx {
    Tx {
        fee: 10,
        tombstone_block: 100,
        inputs: vec![TxIn { key_image: 77, proof_refs: vec![1, 5, 3] }],
    }
}

fn open_client_session(e: &mut Enclave, client_share: u64) -> (u64, ClientSession) {
    let (resp, session) = e.client_accept(ClientAuthRequest { share: client_share }).unwrap();
    (client_share ^ resp.share, session)
}

fn client_msg(key: u64, seq: u64, session: ClientSession, payload: &[u8]) -> EnclaveMessage<
    ClientSession,
> {
    EnclaveMessage { aad: vec![], channel_id: session, data: seal_msg(key, seq, &[], payload) }
}

#[test]
fn attestation_round_trip_caches_report() {
    let mut e = initialized_enclave(100);
    let (report, nonce) = e.new_ereport(TargetInfo { qe_measurement: 55 }).unwrap();
    assert_eq!(report.nonce, nonce);
    assert_eq!(report.measurement, MEASUREMENT);
    assert_eq!(report.target, 55);
    let quote = Quote { report, qe_measurement: 55 };
    let qe_report = Report { measurement: 55, target: 0, nonce: 0 };
    let ias_nonce = e.verify_quote(quote, qe_report).unwrap();
    let vr = VerificationReport { signer: IAS, quote, ias_nonce };
    e.verify_ias_report(vr).unwrap();
    assert_eq!(e.get_ias_report(), Ok(vr));
}

#[test]
fn attestation_mismatches_fail_and_keep_cache() {
    let mut e = initialized_enclave(100);
    // Out of order: no report has been issued.
    let stray = Quote {
        report: Report { measurement: 1, target: 2, nonce: 3 },
        qe_measurement: 2,
    };
    assert_eq!(
        e.verify_quote(stray, Report { measurement: 2, target: 0, nonce: 0 }),
        Err(Error::Attestation(AttestationError::WrongState))
    );
    // A quote over a different report than the issued one.
    let (report, _nonce) = e.new_ereport(TargetInfo { qe_measurement: 55 }).unwrap();
    let wrong = Quote {
        report: Report { nonce: report.nonce + 1, ..report },
        qe_measurement: 55,
    };
    assert_eq!(
        e.verify_quote(wrong, Report { measurement: 55, target: 0, nonce: 0 }),
        Err(Error::Attestation(AttestationError::QuoteReportMismatch))
    );
    assert_eq!(
        e.get_ias_report(),
        Err(Error::Attestation(AttestationError::NoCachedReport))
    );
    // A full round trip, then a report with a stale nonce leaves the cache.
    let (report, _nonce) = e.new_ereport(TargetInfo { qe_measurement: 55 }).unwrap();
    let quote = Quote { report, qe_measurement: 55 };
    let ias_nonce = e.verify_quote(quote, Report { measurement: 55, target: 0, nonce: 0 }).unwrap();
    let vr = VerificationReport { signer: IAS, quote, ias_nonce };
    e.verify_ias_report(vr).unwrap();
    let (report2, _nonce2) = e.new_ereport(TargetInfo { qe_measurement: 55 }).unwrap();
    let quote2 = Quote { report: report2, qe_measurement: 55 };
    let ias_nonce2 =
        e.verify_quote(quote2, Report { measurement: 55, target: 0, nonce: 0 }).unwrap();
    let bad = VerificationReport { signer: IAS, quote: quote2, ias_nonce: ias_nonce2 + 1 };
    assert_eq!(
        e.verify_ias_report(bad),
        Err(Error::Attestation(AttestationError::NonceMismatch))
    );
    assert_eq!(e.get_ias_report(), Ok(vr), "the old cached report stays until replaced");
}

#[test]
fn quote_from_wrong_quoting_enclave_is_rejected() {
    let mut e = initialized_enclave(100);
    let (report, _nonce) = e.new_ereport(TargetInfo { qe_measurement: 55 }).unwrap();
    // Quoted by a different quoting enclave than the report targets.
    let quote = Quote { report, qe_measurement: 56 };
    assert_eq!(
        e.verify_quote(quote, Report { measurement: 56, target: 0, nonce: 0 }),
        Err(Error::Attestation(AttestationError::QeReportMismatch))
    );
    // The right quoting enclave, but its own report disagrees with the quote.
    let (report2, _nonce2) = e.new_ereport(TargetInfo { qe_measurement: 55 }).unwrap();
    let quote2 = Quote { report: report2, qe_measurement: 55 };
    assert_eq!(
        e.verify_quote(quote2, Report { measurement: 54, target: 0, nonce: 0 }),
        Err(Error::Attestation(AttestationError::QeReportMismatch))
    );
}

#[test]
fn ias_report_over_wrong_quote_is_rejected() {
    let mut e = initialized_enclave(100);
    let (report, _nonce) = e.new_ereport(TargetInfo { qe_measurement: 55 }).unwrap();
    let quote = Quote { report, qe_measurement: 55 };
    let ias_nonce = e.verify_quote(quote, Report { measurement: 55, target: 0, nonce: 0 }).unwrap();
    let other_quote = Quote {
        report: Report { nonce: report.nonce + 1, ..report },
        qe_measurement: 55,
    };
    let vr = VerificationReport { signer: IAS, quote: other_quote, ias_nonce };
    assert_eq!(
        e.verify_ias_report(vr),
        Err(Error::Attestation(AttestationError::ReportQuoteMismatch))
    );
}

#[test]
fn peer_close_removes_the_session() {
    let mut a = initialized_enclave(100);
    let mut b = initialized_enclave(500);
    let req = a.peer_init(&20).unwrap();
    let (_resp, b_session) = b.peer_accept(req).unwrap();
    b.peer_close(&b_session).unwrap();
    assert_eq!(
        b.peer_close(&b_session),
        Err(Error::Session(SessionError::UnknownSession))
    );
    let stray = EnclaveMessage { aad: vec![], channel_id: b_session, data: vec![1, 2, 3] };
    assert_eq!(
        b.peer_tx_propose(stray),
        Err(Error::Session(SessionError::UnknownSession))
    );
}

#[test]
fn untrusted_signer_is_rejected() {
    let mut e = initialized_enclave(100);
    let (report, _nonce) = e.new_ereport(TargetInfo { qe_measurement: 55 }).unwrap();
    let quote = Quote { report, qe_measurement: 55 };
    let ias_nonce = e.verify_quote(quote, Report { measurement: 55, target: 0, nonce: 0 }).unwrap();
    let vr = VerificationReport { signer: IAS + 1, quote, ias_nonce };
    assert_eq!(
        e.verify_ias_report(vr),
        Err(Error::Attestation(AttestationError::UntrustedSigner))
    );
}

#[test]
fn client_tx_propose_reflects_the_transaction() {
    let mut e = initialized_enclave(100);
    let (key, session) = open_client_session(&mut e, 1234);
    let tx = sample_tx();
    let ctx = e.client_tx_propose(client_msg(key, 0, session, &encode_tx(&tx))).unwrap();
    assert_eq!(ctx.tx_hash, tx_hash(&tx));
    assert_eq!(ctx.highest_indices, vec![5]);
    assert_eq!(ctx.key_images, vec![77]);
}

#[test]
fn propose_rejects_garbage_payload_and_forged_data() {
    let mut e = initialized_enclave(100);
    let (key, session) = open_client_session(&mut e, 1234);
    let forged = EnclaveMessage { aad: vec![], channel_id: session, data: vec![0, 1, 2] };
    assert_eq!(
        e.client_tx_propose(forged),
        Err(Error::Session(SessionError::AuthFailure))
    );
    assert_eq!(
        e.client_tx_propose(client_msg(key, 0, session, &[9, 9])),
        Err(Error::Serialization)
    );
}

#[test]
fn well_formed_check_succeeds_on_good_input() {
    let mut e = initialized_enclave(100);
    let (key, session) = open_client_session(&mut e, 1234);
    let tx = sample_tx();
    let ctx = e.client_tx_propose(client_msg(key, 0, session, &encode_tx(&tx))).unwrap();
    let proofs = vec![TxOutMembershipProof { index: 5, highest_index: 10 }];
    let (_wtx, wctx) = e.tx_is_well_formed(ctx.locally_encrypted_tx, 50, proofs).unwrap();
    assert_eq!(*wctx.tx_hash(), tx_hash(&tx));
    assert_eq!(wctx.fee(), 10);
    assert_eq!(wctx.tombstone_block(), 100);
    assert_eq!(wctx.key_images(), &vec![77]);
    assert_eq!(wctx.highest_indices(), &vec![5]);
    assert_eq!(wctx, WellFormedTxContext::from(&tx));
}

#[test]
fn well_formed_check_rejects_expired_tombstone() {
    let e = initialized_enclave(100);
    let letx = LocallyEncryptedTx(seal_blob(e.local_tx_key, &encode_tx(&sample_tx())));
    let proofs = vec![TxOutMembershipProof { index: 5, highest_index: 10 }];
    assert_eq!(
        e.tx_is_well_formed(letx, 100, proofs),
        Err(Error::Validation(ValidationError::TombstoneExpired))
    );
}

#[test]
fn well_formed_check_rejects_bad_proofs_and_ciphertext() {
    let e = initialized_enclave(100);
    let letx = LocallyEncryptedTx(seal_blob(e.local_tx_key, &encode_tx(&sample_tx())));
    let wrong = vec![TxOutMembershipProof { index: 4, highest_index: 10 }];
    assert_eq!(
        e.tx_is_well_formed(letx.clone(), 50, wrong),
        Err(Error::Validation(ValidationError::ProofMismatch))
    );
    let stale = vec![TxOutMembershipProof { index: 5, highest_index: 4 }];
    assert_eq!(
        e.tx_is_well_formed(letx, 50, stale),
        Err(Error::Validation(ValidationError::ProofMismatch))
    );
    assert_eq!(
        e.tx_is_well_formed(LocallyEncryptedTx(vec![1, 2, 3]), 50, vec![]),
        Err(Error::Validation(ValidationError::MalformedCiphertext))
    );
}

#[test]
fn well_formed_check_rejects_rule_violations() {
    let e = initialized_enclave(100);
    let no_inputs = Tx { fee: 1, tombstone_block: 100, inputs: vec![] };
    let letx = LocallyEncryptedTx(seal_blob(e.local_tx_key, &encode_tx(&no_inputs)));
    assert_eq!(
        e.tx_is_well_formed(letx, 50, vec![]),
        Err(Error::Validation(ValidationError::RuleViolation))
    );
    let doubled = Tx {
        fee: 1,
        tombstone_block: 100,
        inputs: vec![
            TxIn { key_image: 4, proof_refs: vec![1] },
            TxIn { key_image: 4, proof_refs: vec![2] },
        ],
    };
    let letx2 = LocallyEncryptedTx(seal_blob(e.local_tx_key, &encode_tx(&doubled)));
    let proofs = vec![
        TxOutMembershipProof { index: 1, highest_index: 9 },
        TxOutMembershipProof { index: 2, highest_index: 9 },
    ];
    assert_eq!(
        e.tx_is_well_formed(letx2, 50, proofs),
        Err(Error::Validation(ValidationError::RuleViolation))
    );
}

#[test]
fn discard_advances_the_channel() {
    let mut e = initialized_enclave(100);
    let (key, session) = open_client_session(&mut e, 1234);
    e.client_discard_message(client_msg(key, 0, session, b"ignored")).unwrap();
    // Replaying the consumed sequence number fails...
    assert_eq!(
        e.client_discard_message(client_msg(key, 0, session, b"replay")),
        Err(Error::Session(SessionError::SequenceMismatch))
    );
    // ...while the next legitimate message decrypts fine.
    let tx = sample_tx();
    let ctx = e.client_tx_propose(client_msg(key, 1, session, &encode_tx(&tx))).unwrap();
    assert_eq!(ctx.tx_hash, tx_hash(&tx));
}

#[test]
fn closed_sessions_reject_every_call() {
    let mut e = initialized_enclave(100);
    let (key, session) = open_client_session(&mut e, 1234);
    e.client_close(session).unwrap();
    assert_eq!(
        e.client_tx_propose(client_msg(key, 0, session, b"x")),
        Err(Error::Session(SessionError::UnknownSession))
    );
    assert_eq!(
        e.client_close(session),
        Err(Error::Session(SessionError::UnknownSession))
    );
}

#[test]
fn peer_relay_round_trip() {
    let mut a = Enclave::new(MEASUREMENT, IAS, 100);
    a.enclave_init(&10, &11, &None).unwrap();
    let mut b = Enclave::new(MEASUREMENT, IAS, 500);
    b.enclave_init(&20, &21, &None).unwrap();

    let req = a.peer_init(&20).unwrap();
    let (resp, b_session) = b.peer_accept(req).unwrap();
    assert_eq!(resp.responder_id, 20);
    let a_session = a.peer_connect(&20, resp).unwrap();

    // A validated transaction at `a`, relayed to `b`.
    let tx = sample_tx();
    let letx = LocallyEncryptedTx(seal_blob(a.local_tx_key, &encode_tx(&tx)));
    let proofs = vec![TxOutMembershipProof { index: 5, highest_index: 10 }];
    let (wtx, _wctx) = a.tx_is_well_formed(letx, 50, proofs).unwrap();
    let msg = a.txs_for_peer(&[wtx], b"route", &a_session).unwrap();
    assert_eq!(msg.aad, b"route".to_vec());

    let delivered = EnclaveMessage { aad: msg.aad, channel_id: b_session, data: msg.data };
    let contexts = b.peer_tx_propose(delivered).unwrap();
    assert_eq!(contexts.len(), 1);
    assert_eq!(contexts[0].tx_hash, tx_hash(&tx));
    assert_eq!(contexts[0].highest_indices, vec![5]);
}

#[test]
fn peer_relay_rejects_unknown_session_and_foreign_blobs() {
    let mut a = initialized_enclave(100);
    let unknown = a.txs_for_peer(&[], b"", &consensus_enclave::session::PeerSession(424242));
    assert!(matches!(unknown, Err(Error::Session(SessionError::UnknownSession))));
    let req = a.peer_init(&20).unwrap();
    let _ = req;
    let resp = PeerAuthResponse { responder_id: 21, share: 9 };
    assert_eq!(
        a.peer_connect(&20, resp),
        Err(Error::Session(SessionError::HandshakeMismatch))
    );
    assert_eq!(
        a.peer_connect(&30, PeerAuthResponse { responder_id: 30, share: 9 }),
        Err(Error::Session(SessionError::HandshakeMismatch))
    );
}

#[test]
fn form_block_signs_a_deterministic_block() {
    let e = initialized_enclave(100);
    let tx1 = sample_tx();
    let tx2 = Tx {
        fee: 3,
        tombstone_block: 200,
        inputs: vec![TxIn { key_image: 88, proof_refs: vec![2] }],
    };
    let entry = |t: &Tx| {
        (
            WellFormedEncryptedTx(seal_blob(e.wellformed_key, &encode_tx(t))),
            t.inputs
                .iter()
                .map(|i| TxOutMembershipProof {
                    index: *i.proof_refs.iter().max().unwrap(),
                    highest_index: 10,
                })
                .collect::<Vec<_>>(),
        )
    };
    let parent = Block { id: 11, parent_id: 0, index: 4 };
    let batch = vec![entry(&tx1), entry(&tx2)];
    let (block, rtxs, sig) = e.form_block(&parent, &batch).unwrap();
    assert_eq!(block.parent_id, 11);
    assert_eq!(block.index, 5);
    assert_eq!(rtxs.len(), 2);
    assert_eq!(rtxs[0].key_images, vec![77]);
    assert_eq!(rtxs[0].fee, 10);
    assert_eq!(rtxs[1].key_images, vec![88]);
    let signer = e.get_signer().unwrap();
    assert!(verify_block_signature(&signer, &block, &sig));
    // The same inputs give a byte-identical block and signature.
    let (block2, rtxs2, sig2) = e.form_block(&parent, &batch).unwrap();
    assert_eq!(block, block2);
    assert_eq!(rtxs, rtxs2);
    assert_eq!(sig, sig2);
}

#[test]
fn form_block_rejects_double_spends_and_needs_a_key() {
    let e = initialized_enclave(100);
    let tx1 = sample_tx();
    let mut tx2 = sample_tx();
    tx2.fee = 4;
    let entry = |t: &Tx| {
        (
            WellFormedEncryptedTx(seal_blob(e.wellformed_key, &encode_tx(t))),
            vec![TxOutMembershipProof { index: 5, highest_index: 10 }],
        )
    };
    let parent = Block { id: 11, parent_id: 0, index: 4 };
    assert_eq!(
        e.form_block(&parent, &[entry(&tx1), entry(&tx2)]),
        Err(Error::Validation(ValidationError::DuplicateKeyImage))
    );
    let uninitialized = Enclave::new(MEASUREMENT, IAS, 100);
    assert_eq!(
        uninitialized.form_block(&parent, &[]),
        Err(Error::Sealing(SealingError::MissingKey))
    );
    assert_eq!(
        e.form_block(&parent, &[(WellFormedEncryptedTx(vec![1]), vec![])]),
        Err(Error::Validation(ValidationError::MalformedCiphertext))
    );
}

#[test]
fn sealing_round_trip_restores_the_signer() {
    let mut e1 = Enclave::new(MEASUREMENT, IAS, 100);
    let blob = e1.enclave_init(&1, &2, &None).unwrap();
    let signer = e1.get_signer().unwrap();
    assert_eq!(e1.get_identity().unwrap().0, 100);

    let mut e2 = Enclave::new(MEASUREMENT, IAS, 9000);
    e2.enclave_init(&1, &2, &Some(blob.clone())).unwrap();
    assert_eq!(e2.get_signer().unwrap(), signer);

    let mut foreign = Enclave::new(MEASUREMENT + 1, IAS, 100);
    assert_eq!(
        foreign.enclave_init(&1, &2, &Some(blob)),
        Err(Error::Sealing(SealingError::ForeignMeasurement))
    );
    assert_eq!(
        foreign.enclave_init(&1, &2, &Some(vec![1, 2])),
        Err(Error::Sealing(SealingError::Malformed))
    );
    let fresh = Enclave::new(MEASUREMENT, IAS, 100);
    assert_eq!(fresh.get_signer(), Err(Error::Sealing(SealingError::MissingKey)));
}
