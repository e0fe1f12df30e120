//! Tests of the canonical codec, the digest, and the cipher model.

use consensus_enclave::cipher::{open_blob, open_msg, seal_blob, seal_msg, slice_eq};
use consensus_enclave::error::SessionError;
use consensus_enclave::tx::{
    decode_tx, decode_tx_batch, digest_bytes, encode_tx, encode_tx_batch, tx_hash, Tx, TxIn,
    DIGEST_SEED,
};

fn sample_tx() -> Tx {
    Tx {
        fee: 10,
        tombstone_block: 100,
        inputs: vec![
            TxIn { key_image: 77, proof_refs: vec![1, 5, 3] },
            TxIn { key_image: 78, proof_refs: vec![9] },
        ],
    }
}

#[test]
fn tx_codec_round_trip() {
    let tx = sample_tx();
    let enc = encode_tx(&tx);
    let back = decode_tx(enc.as_slice()).expect("canonical encoding must decode");
    assert_eq!(back, tx);
}

#[test]
fn tx_codec_rejects_garbage() {
    assert!(decode_tx(&[1, 2, 3]).is_none());
    let mut enc = encode_tx(&sample_tx());
    enc.push(0);
    assert!(decode_tx(enc.as_slice()).is_none(), "trailing bytes must be rejected");
}

#[test]
fn tx_batch_round_trip() {
    let txs = vec![sample_tx(), Tx { fee: 1, tombstone_block: 2, inputs: vec![] }];
    let enc = encode_tx_batch(&txs);
    let back = decode_tx_batch(enc.as_slice()).expect("batch must decode");
    assert_eq!(back, txs);
    assert!(decode_tx_batch(&[9]).is_none());
}

#[test]
fn digest_exact_values() {
    assert_eq!(digest_bytes(&[]), DIGEST_SEED);
    let expected = ((DIGEST_SEED as u128 * 31 + 1) % (1u128 << 64)) as u64;
    assert_eq!(digest_bytes(&[1]), expected);
}

#[test]
fn tx_hash_is_deterministic_and_input_sensitive() {
    let tx = sample_tx();
    assert_eq!(tx_hash(&tx), tx_hash(&tx.clone()));
    let mut other = sample_tx();
    other.fee = 11;
    assert_ne!(tx_hash(&tx), tx_hash(&other));
}

#[test]
fn blob_cipher_round_trip() {
    let sealed = seal_blob(42, &[1, 2, 3]);
    assert_eq!(open_blob(42, sealed.as_slice()), Some(vec![1, 2, 3]));
    assert_eq!(open_blob(43, sealed.as_slice()), None);
    assert_eq!(open_blob(42, &[1]), None);
}

#[test]
fn msg_cipher_checks_key_seq_and_aad() {
    let data = seal_msg(7, 3, b"route", b"payload");
    assert_eq!(open_msg(7, 3, b"route", data.as_slice()), Ok(b"payload".to_vec()));
    assert_eq!(open_msg(8, 3, b"route", data.as_slice()), Err(SessionError::AuthFailure));
    assert_eq!(open_msg(7, 4, b"route", data.as_slice()), Err(SessionError::SequenceMismatch));
    assert_eq!(open_msg(7, 3, b"wrong", data.as_slice()), Err(SessionError::AuthFailure));
    assert_eq!(open_msg(7, 3, b"route", &[0, 1]), Err(SessionError::AuthFailure));
}

#[test]
fn slice_eq_compares_bytes() {
    assert!(slice_eq(&[1, 2], &[1, 2]));
    assert!(!slice_eq(&[1, 2], &[1, 3]));
    assert!(!slice_eq(&[1], &[1, 2]));
}
