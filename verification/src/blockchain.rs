//! Blocks, redacted transactions, the block digest and the block signature.
//!
//! A block's identifier is a digest computed deterministically from the
//! parent's identifier and the ordered redacted transactions; the block
//! signature is the signing key's mark over that digest, checked against the
//! signer's public key.

use vstd::prelude::*;
use vstd::bytes::spec_u64_to_le_bytes;
use crate::identity::{spec_public_of, Ed25519Public};
use crate::tx::{
    key_images, push_u64, spec_digest, spec_enc_u64_list, spec_key_images,
    lemma_enc_u64_list_snoc, digest_bytes, Tx, TxModel,
};

verus! {

/// One block of the chain, as the enclave reads and writes it.
#[derive(Clone, Copy, Debug, PartialEq, Eq, Structural)]
pub struct Block {
    /// The block's identifier: the digest of its contents.
    pub id: u64,
    /// The identifier of the parent block.
    pub parent_id: u64,
    /// The block's height in the chain.
    pub index: u64,
}

/// A signature over a block's digest.
#[derive(Clone, Copy, Debug, PartialEq, Eq, Structural)]
pub struct BlockSignature {
    /// The public image of the key that signed.
    pub signer: u64,
    /// The digest that was signed.
    pub digest: u64,
}

/// The minimal on-chain representation of a transaction.
#[derive(Clone, Debug, PartialEq, Eq)]
pub struct RedactedTx {
    /// The key images the transaction spends.
    pub key_images: Vec<u64>,
    /// The fee the transaction pays.
    pub fee: u64,
}

/// The mathematical value of a [`RedactedTx`].
pub ghost struct RedactedTxModel {
    pub key_images: Seq<u64>,
    pub fee: u64,
}

impl View for RedactedTx {
    type V = RedactedTxModel;

    open spec fn view(&self) -> RedactedTxModel {
        RedactedTxModel { key_images: self.key_images@, fee: self.fee }
    }
}

/// What redaction keeps of a transaction.
pub open spec fn spec_redact(t: TxModel) -> RedactedTxModel {
    RedactedTxModel { key_images: spec_key_images(t), fee: t.fee }
}

/// Redacts `tx` into its on-chain representation.
pub fn redact(tx: &Tx) -> (r: RedactedTx)
    ensures
        r@ == spec_redact(tx@),
{
    RedactedTx { key_images: key_images(tx), fee: tx.fee }
}

/// The encoding of one redacted transaction, for the block digest.
pub open spec fn spec_enc_rtx(r: RedactedTxModel) -> Seq<u8> {
    spec_u64_to_le_bytes(r.fee) + spec_u64_to_le_bytes(r.key_images.len() as u64)
        + spec_enc_u64_list(r.key_images)
}

/// The encoding of a list of redacted transactions, one after the other.
pub open spec fn spec_enc_rtx_list(s: Seq<RedactedTxModel>) -> Seq<u8>
    decreases s.len(),
{
    if s.len() == 0 {
        Seq::<u8>::empty()
    } else {
        spec_enc_rtx(s[0]) + spec_enc_rtx_list(s.drop_first())
    }
}

/// Appending one redacted transaction to a list appends its encoding.
pub proof fn lemma_enc_rtx_list_snoc(s: Seq<RedactedTxModel>, x: RedactedTxModel)
    ensures
        spec_enc_rtx_list(s.push(x)) == spec_enc_rtx_list(s) + spec_enc_rtx(x),
    decreases s.len(),
{
    let one = s.push(x);
    if s.len() == 0 {
        assert(one[0] == x);
        assert(one.drop_first() =~= s);
        assert(spec_enc_rtx_list(one) == spec_enc_rtx(x) + spec_enc_rtx_list(s));
        assert(spec_enc_rtx_list(s) == Seq::<u8>::empty());
        assert(spec_enc_rtx_list(one) =~= spec_enc_rtx_list(s) + spec_enc_rtx(x));
    } else {
        assert(one.drop_first() =~= s.drop_first().push(x));
        lemma_enc_rtx_list_snoc(s.drop_first(), x);
        assert(one[0] == s[0]);
        assert(spec_enc_rtx_list(one) == spec_enc_rtx(s[0]) + (spec_enc_rtx_list(s.drop_first())
            + spec_enc_rtx(x)));
        assert(spec_enc_rtx_list(s) == spec_enc_rtx(s[0]) + spec_enc_rtx_list(s.drop_first()));
        assert(spec_enc_rtx_list(one) =~= spec_enc_rtx_list(s) + spec_enc_rtx(x));
    }
}

/// The digest of a block: parent identifier, then the ordered redacted
/// transactions. Equal inputs give an equal digest by construction.
pub open spec fn spec_block_digest(parent_id: u64, rtxs: Seq<RedactedTxModel>) -> u64 {
    spec_digest(spec_u64_to_le_bytes(parent_id) + spec_enc_rtx_list(rtxs))
}

/// Computes the digest of a block from its parent's identifier and the
/// ordered redacted transactions.
pub fn block_digest(parent_id: u64, rtxs: &Vec<RedactedTx>) -> (r: u64)
    ensures
        r == spec_block_digest(parent_id, rtxs@.map_values(|t: RedactedTx| t@)),
{
    let ghost models = rtxs@.map_values(|t: RedactedTx| t@);
    let mut bytes: Vec<u8> = Vec::new();
    push_u64(&mut bytes, parent_id);
    let ghost base = bytes@;
    let mut i: usize = 0;
    while i < rtxs.len()
        invariant
            i <= rtxs@.len(),
            models == rtxs@.map_values(|t: RedactedTx| t@),
            base == spec_u64_to_le_bytes(parent_id),
            bytes@ == base + spec_enc_rtx_list(models.take(i as int)),
        decreases rtxs@.len() - i,
    {
        let rtx = &rtxs[i];
        push_u64(&mut bytes, rtx.fee);
        push_u64(&mut bytes, rtx.key_images.len() as u64);
        let ghost inner_base = bytes@;
        let mut j: usize = 0;
        while j < rtx.key_images.len()
            invariant
                j <= rtx.key_images@.len(),
                bytes@ == inner_base + spec_enc_u64_list(rtx.key_images@.take(j as int)),
            decreases rtx.key_images@.len() - j,
        {
            push_u64(&mut bytes, rtx.key_images[j]);
            proof {
                lemma_enc_u64_list_snoc(
                    rtx.key_images@.take(j as int),
                    rtx.key_images@[j as int],
                );
                assert(rtx.key_images@.take(j as int + 1) =~= rtx.key_images@.take(
                    j as int,
                ).push(rtx.key_images@[j as int]));
                assert(bytes@ =~= inner_base + spec_enc_u64_list(
                    rtx.key_images@.take(j as int + 1),
                ));
            }
            j += 1;
        }
        proof {
            assert(rtx.key_images@.take(rtx.key_images@.len() as int) =~= rtx.key_images@);
            assert(usize::MAX <= u64::MAX);
            assert(models[i as int] == rtxs@[i as int]@);
            assert(bytes@ =~= base + spec_enc_rtx_list(models.take(i as int)) + spec_enc_rtx(
                models[i as int],
            ));
            lemma_enc_rtx_list_snoc(models.take(i as int), models[i as int]);
            assert(models.take(i as int + 1) =~= models.take(i as int).push(models[i as int]));
            assert(bytes@ =~= base + spec_enc_rtx_list(models.take(i as int + 1)));
        }
        i += 1;
    }
    proof {
        assert(models.take(models.len() as int) =~= models);
    }
    digest_bytes(bytes.as_slice())
}

/// The signature a key leaves on a digest.
pub open spec fn spec_sign_block(key: u64, digest: u64) -> BlockSignature {
    BlockSignature { signer: spec_public_of(key), digest }
}

/// Signs `digest` with the private `key`.
pub fn sign_block(key: u64, digest: u64) -> (r: BlockSignature)
    ensures
        r == spec_sign_block(key, digest),
{
    BlockSignature { signer: key, digest }
}

/// Whether `sig` is a valid signature over `block` by the holder of
/// `signer`.
pub open spec fn spec_verify_block_signature(
    signer: Ed25519Public,
    block: Block,
    sig: BlockSignature,
) -> bool {
    sig.signer == signer.0 && sig.digest == block.id
}

/// Checks `sig` against `block` and the signer's public key.
pub fn verify_block_signature(signer: &Ed25519Public, block: &Block, sig: &BlockSignature) -> (r:
    bool)
    ensures
        r == spec_verify_block_signature(*signer, *block, *sig),
{
    sig.signer == signer.0 && sig.digest == block.id
}

/// The key images of a batch of transactions, flattened in order.
pub open spec fn spec_batch_images(ts: Seq<TxModel>) -> Seq<u64>
    decreases ts.len(),
{
    if ts.len() == 0 {
        Seq::<u64>::empty()
    } else {
        spec_batch_images(ts.drop_last()) + spec_key_images(ts.last())
    }
}

/// Whether some key image occurs twice in `s`.
pub open spec fn spec_has_dup(s: Seq<u64>) -> bool {
    exists|i: int, j: int| 0 <= i < j < s.len() && s[i] == s[j]
}

/// Collects the key images of `txs`, flattened in order.
pub fn batch_images(txs: &Vec<Tx>) -> (r: Vec<u64>)
    ensures
        r@ == spec_batch_images(txs@.map_values(|t: Tx| t@)),
{
    let ghost models = txs@.map_values(|t: Tx| t@);
    let mut out: Vec<u64> = Vec::new();
    let mut i: usize = 0;
    proof {
        assert(models.take(0) =~= Seq::<TxModel>::empty());
    }
    while i < txs.len()
        invariant
            i <= txs@.len(),
            models == txs@.map_values(|t: Tx| t@),
            out@ == spec_batch_images(models.take(i as int)),
        decreases txs@.len() - i,
    {
        let mut images = key_images(&txs[i]);
        proof {
            assert(models[i as int] == txs@[i as int]@);
            assert(models.take(i as int + 1).drop_last() =~= models.take(i as int));
            assert(models.take(i as int + 1).last() == models[i as int]);
        }
        out.append(&mut images);
        i += 1;
    }
    proof {
        assert(models.take(models.len() as int) =~= models);
    }
    out
}

/// Checks whether some key image occurs twice in `s`.
pub fn has_dup(s: &Vec<u64>) -> (r: bool)
    ensures
        r == spec_has_dup(s@),
{
    let mut i: usize = 1;
    if s.len() == 0 {
        return false;
    }
    while i < s.len()
        invariant
            1 <= i <= s@.len(),
            forall|a: int, b: int| 0 <= a < b < i ==> s@[a] != s@[b],
        decreases s@.len() - i,
    {
        let mut j: usize = 0;
        while j < i
            invariant
                j <= i,
                i < s@.len(),
                forall|a: int| 0 <= a < j ==> s@[a] != s@[i as int],
            decreases i - j,
        {
            if s[j] == s[i] {
                return true;
            }
            j += 1;
        }
        i += 1;
    }
    false
}

} // verus!
