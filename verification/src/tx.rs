//! Transactions and the pipeline's view of them.
//!
//! A transaction is modeled by exactly the data the enclave's logic reads: a
//! fee, a tombstone block, and inputs that each spend one key image and
//! reference ledger indices through their membership proof. Transactions
//! cross the enclave boundary as canonical byte encodings; the codec here is
//! proved to round-trip, and the transaction hash is a digest of that
//! canonical encoding.

use vstd::prelude::*;
use vstd::bytes::{
    lemma_auto_spec_u64_to_from_le_bytes, spec_u64_from_le_bytes, spec_u64_to_le_bytes,
    u64_to_le_bytes,
};
use crate::cipher::read_u64_at;

verus! {

/// A value derived from a spent transaction output, unique per spend.
pub type KeyImage = u64;

/// The digest of a transaction's canonical encoding.
pub type TxHash = u64;

/// The seed of the byte digest.
pub const DIGEST_SEED: u64 = 0x9e3779b97f4a7c15;

/// Evidence that a referenced output exists in the ledger: the index it
/// proves, and the highest ledger index the proof was built against.
#[derive(Clone, Copy, Debug, PartialEq, Eq)]
pub struct TxOutMembershipProof {
    /// The ledger index this proof vouches for.
    pub index: u64,
    /// The highest ledger index the proof was built against.
    pub highest_index: u64,
}

/// One transaction input: the key image it spends and the ledger indices its
/// membership proof references.
#[derive(Clone, Debug, PartialEq, Eq)]
pub struct TxIn {
    /// The key image spent by this input.
    pub key_image: KeyImage,
    /// The ledger indices referenced by this input's membership proof.
    pub proof_refs: Vec<u64>,
}

/// A transaction, as the enclave's logic reads it.
#[derive(Clone, Debug, PartialEq, Eq)]
pub struct Tx {
    /// The fee the transaction pays.
    pub fee: u64,
    /// The block index after which the transaction is no longer valid.
    pub tombstone_block: u64,
    /// The transaction's inputs.
    pub inputs: Vec<TxIn>,
}

/// The mathematical value of a [`TxIn`].
pub ghost struct TxInModel {
    pub key_image: u64,
    pub proof_refs: Seq<u64>,
}

/// The mathematical value of a [`Tx`].
pub ghost struct TxModel {
    pub fee: u64,
    pub tombstone_block: u64,
    pub inputs: Seq<TxInModel>,
}

impl View for TxIn {
    type V = TxInModel;

    open spec fn view(&self) -> TxInModel {
        TxInModel { key_image: self.key_image, proof_refs: self.proof_refs@ }
    }
}

impl View for Tx {
    type V = TxModel;

    open spec fn view(&self) -> TxModel {
        TxModel {
            fee: self.fee,
            tombstone_block: self.tombstone_block,
            inputs: self.inputs@.map_values(|i: TxIn| i@),
        }
    }
}

/// Whether an input's list lengths fit the counters of the encoding.
pub open spec fn txin_bounded(i: TxInModel) -> bool {
    i.proof_refs.len() <= u64::MAX
}

/// Whether a transaction's list lengths fit the counters of the encoding.
pub open spec fn tx_bounded(t: TxModel) -> bool {
    &&& t.inputs.len() <= u64::MAX
    &&& forall|j: int| 0 <= j < t.inputs.len() ==> txin_bounded(#[trigger] t.inputs[j])
}

// ---------------------------------------------------------------------------
// Canonical encoding
// ---------------------------------------------------------------------------

/// The encoding of a list of `u64` values, one after the other.
pub open spec fn spec_enc_u64_list(s: Seq<u64>) -> Seq<u8>
    decreases s.len(),
{
    if s.len() == 0 {
        Seq::<u8>::empty()
    } else {
        spec_u64_to_le_bytes(s[0]) + spec_enc_u64_list(s.drop_first())
    }
}

/// The encoding of one input: key image, reference count, references.
pub open spec fn spec_enc_txin(i: TxInModel) -> Seq<u8> {
    spec_u64_to_le_bytes(i.key_image) + spec_u64_to_le_bytes(i.proof_refs.len() as u64)
        + spec_enc_u64_list(i.proof_refs)
}

/// The encoding of a list of inputs, one after the other.
pub open spec fn spec_enc_txin_list(s: Seq<TxInModel>) -> Seq<u8>
    decreases s.len(),
{
    if s.len() == 0 {
        Seq::<u8>::empty()
    } else {
        spec_enc_txin(s[0]) + spec_enc_txin_list(s.drop_first())
    }
}

/// The canonical encoding of a transaction: fee, tombstone block, input
/// count, inputs.
pub open spec fn spec_enc_tx(t: TxModel) -> Seq<u8> {
    spec_u64_to_le_bytes(t.fee) + spec_u64_to_le_bytes(t.tombstone_block) + spec_u64_to_le_bytes(
        t.inputs.len() as u64,
    ) + spec_enc_txin_list(t.inputs)
}

/// The encoding of a list of transactions, one after the other.
pub open spec fn spec_enc_tx_list(ts: Seq<TxModel>) -> Seq<u8>
    decreases ts.len(),
{
    if ts.len() == 0 {
        Seq::<u8>::empty()
    } else {
        spec_enc_tx(ts[0]) + spec_enc_tx_list(ts.drop_first())
    }
}

/// The canonical encoding of a batch of transactions: count, transactions.
pub open spec fn spec_enc_tx_batch(ts: Seq<TxModel>) -> Seq<u8> {
    spec_u64_to_le_bytes(ts.len() as u64) + spec_enc_tx_list(ts)
}

/// Appending one value to a list appends its encoding.
pub proof fn lemma_enc_u64_list_snoc(s: Seq<u64>, x: u64)
    ensures
        spec_enc_u64_list(s.push(x)) == spec_enc_u64_list(s) + spec_u64_to_le_bytes(x),
    decreases s.len(),
{
    let one = s.push(x);
    if s.len() == 0 {
        assert(one[0] == x);
        assert(one.drop_first() =~= s);
        assert(spec_enc_u64_list(one) == spec_u64_to_le_bytes(x) + spec_enc_u64_list(s));
        assert(spec_enc_u64_list(s) == Seq::<u8>::empty());
        assert(spec_enc_u64_list(one) =~= spec_enc_u64_list(s) + spec_u64_to_le_bytes(x));
    } else {
        assert(one.drop_first() =~= s.drop_first().push(x));
        lemma_enc_u64_list_snoc(s.drop_first(), x);
        assert(one[0] == s[0]);
        assert(spec_enc_u64_list(one) == spec_u64_to_le_bytes(s[0]) + (spec_enc_u64_list(
            s.drop_first(),
        ) + spec_u64_to_le_bytes(x)));
        assert(spec_enc_u64_list(s) == spec_u64_to_le_bytes(s[0]) + spec_enc_u64_list(
            s.drop_first(),
        ));
        assert(spec_enc_u64_list(one) =~= spec_enc_u64_list(s) + spec_u64_to_le_bytes(x));
    }
}

/// Appending one input to a list appends its encoding.
pub proof fn lemma_enc_txin_list_snoc(s: Seq<TxInModel>, x: TxInModel)
    ensures
        spec_enc_txin_list(s.push(x)) == spec_enc_txin_list(s) + spec_enc_txin(x),
    decreases s.len(),
{
    let one = s.push(x);
    if s.len() == 0 {
        assert(one[0] == x);
        assert(one.drop_first() =~= s);
        assert(spec_enc_txin_list(one) == spec_enc_txin(x) + spec_enc_txin_list(s));
        assert(spec_enc_txin_list(s) == Seq::<u8>::empty());
        assert(spec_enc_txin_list(one) =~= spec_enc_txin_list(s) + spec_enc_txin(x));
    } else {
        assert(one.drop_first() =~= s.drop_first().push(x));
        lemma_enc_txin_list_snoc(s.drop_first(), x);
        assert(one[0] == s[0]);
        assert(spec_enc_txin_list(one) == spec_enc_txin(s[0]) + (spec_enc_txin_list(
            s.drop_first(),
        ) + spec_enc_txin(x)));
        assert(spec_enc_txin_list(s) == spec_enc_txin(s[0]) + spec_enc_txin_list(s.drop_first()));
        assert(spec_enc_txin_list(one) =~= spec_enc_txin_list(s) + spec_enc_txin(x));
    }
}

/// Appending one transaction to a list appends its encoding.
pub proof fn lemma_enc_tx_list_snoc(ts: Seq<TxModel>, x: TxModel)
    ensures
        spec_enc_tx_list(ts.push(x)) == spec_enc_tx_list(ts) + spec_enc_tx(x),
    decreases ts.len(),
{
    let one = ts.push(x);
    if ts.len() == 0 {
        assert(one[0] == x);
        assert(one.drop_first() =~= ts);
        assert(spec_enc_tx_list(one) == spec_enc_tx(x) + spec_enc_tx_list(ts));
        assert(spec_enc_tx_list(ts) == Seq::<u8>::empty());
        assert(spec_enc_tx_list(one) =~= spec_enc_tx_list(ts) + spec_enc_tx(x));
    } else {
        assert(one.drop_first() =~= ts.drop_first().push(x));
        lemma_enc_tx_list_snoc(ts.drop_first(), x);
        assert(one[0] == ts[0]);
        assert(spec_enc_tx_list(one) == spec_enc_tx(ts[0]) + (spec_enc_tx_list(ts.drop_first())
            + spec_enc_tx(x)));
        assert(spec_enc_tx_list(ts) == spec_enc_tx(ts[0]) + spec_enc_tx_list(ts.drop_first()));
        assert(spec_enc_tx_list(one) =~= spec_enc_tx_list(ts) + spec_enc_tx(x));
    }
}

// ---------------------------------------------------------------------------
// Decoding
// ---------------------------------------------------------------------------

/// Reads a `u64` at `pos`, giving the value and the next position.
pub open spec fn spec_dec_u64(data: Seq<u8>, pos: int) -> Option<(u64, int)> {
    if 0 <= pos && pos + 8 <= data.len() {
        Some((spec_u64_from_le_bytes(data.subrange(pos, pos + 8)), pos + 8))
    } else {
        None
    }
}

/// Reads `count` consecutive `u64` values at `pos`.
pub open spec fn spec_dec_u64_list(data: Seq<u8>, pos: int, count: u64) -> Option<(Seq<u64>, int)>
    decreases count,
{
    if count == 0 {
        Some((Seq::<u64>::empty(), pos))
    } else {
        match spec_dec_u64(data, pos) {
            None => None,
            Some((x, p1)) => match spec_dec_u64_list(data, p1, (count - 1) as u64) {
                None => None,
                Some((xs, p2)) => Some((seq![x] + xs, p2)),
            },
        }
    }
}

/// Reads one input at `pos`.
pub open spec fn spec_dec_txin(data: Seq<u8>, pos: int) -> Option<(TxInModel, int)> {
    match spec_dec_u64(data, pos) {
        None => None,
        Some((ki, p1)) => match spec_dec_u64(data, p1) {
            None => None,
            Some((n, p2)) => match spec_dec_u64_list(data, p2, n) {
                None => None,
                Some((refs, p3)) => Some((TxInModel { key_image: ki, proof_refs: refs }, p3)),
            },
        },
    }
}

/// Reads `count` consecutive inputs at `pos`.
pub open spec fn spec_dec_txin_list(data: Seq<u8>, pos: int, count: u64) -> Option<
    (Seq<TxInModel>, int),
>
    decreases count,
{
    if count == 0 {
        Some((Seq::<TxInModel>::empty(), pos))
    } else {
        match spec_dec_txin(data, pos) {
            None => None,
            Some((x, p1)) => match spec_dec_txin_list(data, p1, (count - 1) as u64) {
                None => None,
                Some((xs, p2)) => Some((seq![x] + xs, p2)),
            },
        }
    }
}

/// Reads one transaction at `pos`.
pub open spec fn spec_dec_tx_at(data: Seq<u8>, pos: int) -> Option<(TxModel, int)> {
    match spec_dec_u64(data, pos) {
        None => None,
        Some((fee, p1)) => match spec_dec_u64(data, p1) {
            None => None,
            Some((tomb, p2)) => match spec_dec_u64(data, p2) {
                None => None,
                Some((n, p3)) => match spec_dec_txin_list(data, p3, n) {
                    None => None,
                    Some((inputs, p4)) => Some(
                        (TxModel { fee, tombstone_block: tomb, inputs }, p4),
                    ),
                },
            },
        },
    }
}

/// The transaction whose canonical encoding `data` is, if any: decoding must
/// consume every byte.
pub open spec fn spec_dec_tx(data: Seq<u8>) -> Option<TxModel> {
    match spec_dec_tx_at(data, 0) {
        None => None,
        Some((t, p)) => if p == data.len() {
            Some(t)
        } else {
            None
        },
    }
}

/// Reads `count` consecutive transactions at `pos`.
pub open spec fn spec_dec_tx_list(data: Seq<u8>, pos: int, count: u64) -> Option<
    (Seq<TxModel>, int),
>
    decreases count,
{
    if count == 0 {
        Some((Seq::<TxModel>::empty(), pos))
    } else {
        match spec_dec_tx_at(data, pos) {
            None => None,
            Some((x, p1)) => match spec_dec_tx_list(data, p1, (count - 1) as u64) {
                None => None,
                Some((xs, p2)) => Some((seq![x] + xs, p2)),
            },
        }
    }
}

/// The batch whose canonical encoding `data` is, if any.
pub open spec fn spec_dec_tx_batch(data: Seq<u8>) -> Option<Seq<TxModel>> {
    match spec_dec_u64(data, 0) {
        None => None,
        Some((n, p1)) => match spec_dec_tx_list(data, p1, n) {
            None => None,
            Some((ts, p2)) => if p2 == data.len() {
                Some(ts)
            } else {
                None
            },
        },
    }
}

// ---------------------------------------------------------------------------
// Round trip
// ---------------------------------------------------------------------------

/// A window of a window of `data` is the corresponding window of the
/// contained bytes.
pub proof fn lemma_nested_subrange(data: Seq<u8>, pos: int, whole: Seq<u8>, a: int, b: int)
    requires
        0 <= pos,
        pos + whole.len() <= data.len(),
        data.subrange(pos, pos + whole.len() as int) == whole,
        0 <= a <= b <= whole.len(),
    ensures
        data.subrange(pos + a, pos + b) == whole.subrange(a, b),
{
    assert forall|k: int| 0 <= k < b - a implies data.subrange(pos + a, pos + b)[k]
        == whole.subrange(a, b)[k] by {
        assert(data.subrange(pos, pos + whole.len() as int)[a + k] == data[pos + a + k]);
    }
    assert(data.subrange(pos + a, pos + b) =~= whole.subrange(a, b));
}

/// A `u64` encoded at `pos` decodes to itself.
pub proof fn lemma_dec_u64_at(data: Seq<u8>, pos: int, x: u64)
    requires
        0 <= pos,
        pos + 8 <= data.len(),
        data.subrange(pos, pos + 8) == spec_u64_to_le_bytes(x),
    ensures
        spec_dec_u64(data, pos) == Some((x, pos + 8)),
{
    lemma_auto_spec_u64_to_from_le_bytes();
}

/// A list of `u64` values encoded at `pos` decodes to itself.
pub proof fn lemma_dec_u64_list(data: Seq<u8>, pos: int, s: Seq<u64>)
    requires
        0 <= pos,
        s.len() <= u64::MAX,
        pos + spec_enc_u64_list(s).len() <= data.len(),
        data.subrange(pos, pos + spec_enc_u64_list(s).len()) == spec_enc_u64_list(s),
    ensures
        spec_dec_u64_list(data, pos, s.len() as u64) == Some(
            (s, pos + spec_enc_u64_list(s).len()),
        ),
    decreases s.len(),
{
    lemma_auto_spec_u64_to_from_le_bytes();
    if s.len() == 0 {
        assert(s =~= Seq::<u64>::empty());
    } else {
        let rest = s.drop_first();
        let head = spec_u64_to_le_bytes(s[0]);
        let rest_enc = spec_enc_u64_list(rest);
        let whole = spec_enc_u64_list(s);
        assert(whole == head + rest_enc);
        lemma_nested_subrange(data, pos, whole, 0, 8);
        assert(whole.subrange(0, 8) =~= head);
        lemma_dec_u64_at(data, pos, s[0]);
        lemma_nested_subrange(data, pos, whole, 8, whole.len() as int);
        assert(whole.subrange(8, whole.len() as int) =~= rest_enc);
        lemma_dec_u64_list(data, pos + 8, rest);
        assert(seq![s[0]] + rest =~= s);
    }
}

/// An input encoded at `pos` decodes to itself.
pub proof fn lemma_dec_txin(data: Seq<u8>, pos: int, i: TxInModel)
    requires
        0 <= pos,
        txin_bounded(i),
        pos + spec_enc_txin(i).len() <= data.len(),
        data.subrange(pos, pos + spec_enc_txin(i).len()) == spec_enc_txin(i),
    ensures
        spec_dec_txin(data, pos) == Some((i, pos + spec_enc_txin(i).len())),
{
    lemma_auto_spec_u64_to_from_le_bytes();
    let refs_enc = spec_enc_u64_list(i.proof_refs);
    let whole = spec_enc_txin(i);
    lemma_nested_subrange(data, pos, whole, 0, 8);
    assert(whole.subrange(0, 8) =~= spec_u64_to_le_bytes(i.key_image));
    lemma_dec_u64_at(data, pos, i.key_image);
    lemma_nested_subrange(data, pos, whole, 8, 16);
    assert(whole.subrange(8, 16) =~= spec_u64_to_le_bytes(i.proof_refs.len() as u64));
    lemma_dec_u64_at(data, pos + 8, i.proof_refs.len() as u64);
    lemma_nested_subrange(data, pos, whole, 16, whole.len() as int);
    assert(whole.subrange(16, whole.len() as int) =~= refs_enc);
    lemma_dec_u64_list(data, pos + 16, i.proof_refs);
}

/// A list of inputs encoded at `pos` decodes to itself.
pub proof fn lemma_dec_txin_list(data: Seq<u8>, pos: int, s: Seq<TxInModel>)
    requires
        0 <= pos,
        s.len() <= u64::MAX,
        forall|j: int| 0 <= j < s.len() ==> txin_bounded(#[trigger] s[j]),
        pos + spec_enc_txin_list(s).len() <= data.len(),
        data.subrange(pos, pos + spec_enc_txin_list(s).len()) == spec_enc_txin_list(s),
    ensures
        spec_dec_txin_list(data, pos, s.len() as u64) == Some(
            (s, pos + spec_enc_txin_list(s).len()),
        ),
    decreases s.len(),
{
    if s.len() == 0 {
        assert(s =~= Seq::<TxInModel>::empty());
    } else {
        let rest = s.drop_first();
        let head = spec_enc_txin(s[0]);
        let rest_enc = spec_enc_txin_list(rest);
        let whole = spec_enc_txin_list(s);
        assert(whole == head + rest_enc);
        lemma_nested_subrange(data, pos, whole, 0, head.len() as int);
        assert(whole.subrange(0, head.len() as int) =~= head);
        lemma_dec_txin(data, pos, s[0]);
        lemma_nested_subrange(data, pos, whole, head.len() as int, whole.len() as int);
        assert(whole.subrange(head.len() as int, whole.len() as int) =~= rest_enc);
        lemma_dec_txin_list(data, pos + head.len(), rest);
        assert(seq![s[0]] + rest =~= s);
    }
}

/// A transaction encoded at `pos` decodes to itself.
pub proof fn lemma_dec_tx_at(data: Seq<u8>, pos: int, t: TxModel)
    requires
        0 <= pos,
        tx_bounded(t),
        pos + spec_enc_tx(t).len() <= data.len(),
        data.subrange(pos, pos + spec_enc_tx(t).len()) == spec_enc_tx(t),
    ensures
        spec_dec_tx_at(data, pos) == Some((t, pos + spec_enc_tx(t).len())),
{
    lemma_auto_spec_u64_to_from_le_bytes();
    let inputs_enc = spec_enc_txin_list(t.inputs);
    let whole = spec_enc_tx(t);
    lemma_nested_subrange(data, pos, whole, 0, 8);
    assert(whole.subrange(0, 8) =~= spec_u64_to_le_bytes(t.fee));
    lemma_dec_u64_at(data, pos, t.fee);
    lemma_nested_subrange(data, pos, whole, 8, 16);
    assert(whole.subrange(8, 16) =~= spec_u64_to_le_bytes(t.tombstone_block));
    lemma_dec_u64_at(data, pos + 8, t.tombstone_block);
    lemma_nested_subrange(data, pos, whole, 16, 24);
    assert(whole.subrange(16, 24) =~= spec_u64_to_le_bytes(t.inputs.len() as u64));
    lemma_dec_u64_at(data, pos + 16, t.inputs.len() as u64);
    lemma_nested_subrange(data, pos, whole, 24, whole.len() as int);
    assert(whole.subrange(24, whole.len() as int) =~= inputs_enc);
    lemma_dec_txin_list(data, pos + 24, t.inputs);
}

/// Decoding the canonical encoding of a transaction gives it back.
pub proof fn lemma_tx_round_trip(t: TxModel)
    requires
        tx_bounded(t),
    ensures
        spec_dec_tx(spec_enc_tx(t)) == Some(t),
{
    let data = spec_enc_tx(t);
    assert(data.subrange(0, data.len() as int) =~= data);
    lemma_dec_tx_at(data, 0, t);
}

/// A list of transactions encoded at `pos` decodes to itself.
pub proof fn lemma_dec_tx_list(data: Seq<u8>, pos: int, ts: Seq<TxModel>)
    requires
        0 <= pos,
        ts.len() <= u64::MAX,
        forall|j: int| 0 <= j < ts.len() ==> tx_bounded(#[trigger] ts[j]),
        pos + spec_enc_tx_list(ts).len() <= data.len(),
        data.subrange(pos, pos + spec_enc_tx_list(ts).len()) == spec_enc_tx_list(ts),
    ensures
        spec_dec_tx_list(data, pos, ts.len() as u64) == Some(
            (ts, pos + spec_enc_tx_list(ts).len()),
        ),
    decreases ts.len(),
{
    if ts.len() == 0 {
        assert(ts =~= Seq::<TxModel>::empty());
    } else {
        let rest = ts.drop_first();
        let head = spec_enc_tx(ts[0]);
        let rest_enc = spec_enc_tx_list(rest);
        let whole = spec_enc_tx_list(ts);
        assert(whole == head + rest_enc);
        lemma_nested_subrange(data, pos, whole, 0, head.len() as int);
        assert(whole.subrange(0, head.len() as int) =~= head);
        lemma_dec_tx_at(data, pos, ts[0]);
        lemma_nested_subrange(data, pos, whole, head.len() as int, whole.len() as int);
        assert(whole.subrange(head.len() as int, whole.len() as int) =~= rest_enc);
        lemma_dec_tx_list(data, pos + head.len(), rest);
        assert(seq![ts[0]] + rest =~= ts);
    }
}

/// Decoding the canonical encoding of a batch gives it back.
pub proof fn lemma_tx_batch_round_trip(ts: Seq<TxModel>)
    requires
        ts.len() <= u64::MAX,
        forall|j: int| 0 <= j < ts.len() ==> tx_bounded(#[trigger] ts[j]),
    ensures
        spec_dec_tx_batch(spec_enc_tx_batch(ts)) == Some(ts),
{
    lemma_auto_spec_u64_to_from_le_bytes();
    let data = spec_enc_tx_batch(ts);
    let whole = data;
    assert(data.subrange(0, data.len() as int) =~= whole);
    lemma_nested_subrange(data, 0, whole, 0, 8);
    assert(whole.subrange(0, 8) =~= spec_u64_to_le_bytes(ts.len() as u64));
    lemma_dec_u64_at(data, 0, ts.len() as u64);
    lemma_nested_subrange(data, 0, whole, 8, whole.len() as int);
    assert(whole.subrange(8, whole.len() as int) =~= spec_enc_tx_list(ts));
    lemma_dec_tx_list(data, 8, ts);
}

// ---------------------------------------------------------------------------
// Executable codec
// ---------------------------------------------------------------------------

/// Appends the little-endian bytes of `x` to `out`.
pub fn push_u64(out: &mut Vec<u8>, x: u64)
    ensures
        final(out)@ == old(out)@ + spec_u64_to_le_bytes(x),
{
    let mut bytes = u64_to_le_bytes(x);
    out.append(&mut bytes);
}

/// Appends the encoding of one input to `out`.
fn encode_txin_into(out: &mut Vec<u8>, txin: &TxIn)
    ensures
        final(out)@ == old(out)@ + spec_enc_txin(txin@),
{
    push_u64(out, txin.key_image);
    push_u64(out, txin.proof_refs.len() as u64);
    let ghost base = out@;
    let mut j: usize = 0;
    while j < txin.proof_refs.len()
        invariant
            j <= txin.proof_refs@.len(),
            out@ == base + spec_enc_u64_list(txin.proof_refs@.take(j as int)),
        decreases txin.proof_refs@.len() - j,
    {
        push_u64(out, txin.proof_refs[j]);
        proof {
            lemma_enc_u64_list_snoc(txin.proof_refs@.take(j as int), txin.proof_refs@[j as int]);
            assert(txin.proof_refs@.take(j as int + 1) =~= txin.proof_refs@.take(j as int).push(
                txin.proof_refs@[j as int],
            ));
            assert(out@ =~= base + spec_enc_u64_list(txin.proof_refs@.take(j as int + 1)));
        }
        j += 1;
    }
    proof {
        assert(txin.proof_refs@.take(txin.proof_refs@.len() as int) =~= txin.proof_refs@);
        assert(usize::MAX <= u64::MAX);
        assert(final(out)@ =~= old(out)@ + spec_enc_txin(txin@));
    }
}

/// Appends the canonical encoding of `tx` to `out`.
pub fn encode_tx_into(out: &mut Vec<u8>, tx: &Tx)
    ensures
        final(out)@ == old(out)@ + spec_enc_tx(tx@),
{
    push_u64(out, tx.fee);
    push_u64(out, tx.tombstone_block);
    push_u64(out, tx.inputs.len() as u64);
    let ghost base = out@;
    let mut i: usize = 0;
    while i < tx.inputs.len()
        invariant
            i <= tx.inputs@.len(),
            out@ == base + spec_enc_txin_list(tx@.inputs.take(i as int)),
        decreases tx.inputs@.len() - i,
    {
        encode_txin_into(out, &tx.inputs[i]);
        proof {
            lemma_enc_txin_list_snoc(tx@.inputs.take(i as int), tx@.inputs[i as int]);
            assert(tx@.inputs.take(i as int + 1) =~= tx@.inputs.take(i as int).push(
                tx@.inputs[i as int],
            ));
            assert(tx@.inputs[i as int] == tx.inputs@[i as int]@);
            assert(out@ =~= base + spec_enc_txin_list(tx@.inputs.take(i as int + 1)));
        }
        i += 1;
    }
    proof {
        assert(tx@.inputs.take(tx@.inputs.len() as int) =~= tx@.inputs);
        assert(usize::MAX <= u64::MAX);
        assert(final(out)@ =~= old(out)@ + spec_enc_tx(tx@));
    }
}

/// The canonical encoding of `tx`.
pub fn encode_tx(tx: &Tx) -> (r: Vec<u8>)
    ensures
        r@ == spec_enc_tx(tx@),
{
    let mut out: Vec<u8> = Vec::new();
    encode_tx_into(&mut out, tx);
    proof {
        assert(out@ =~= spec_enc_tx(tx@));
    }
    out
}

/// The canonical encoding of a batch of transactions.
pub fn encode_tx_batch(txs: &Vec<Tx>) -> (r: Vec<u8>)
    ensures
        r@ == spec_enc_tx_batch(txs@.map_values(|t: Tx| t@)),
{
    let ghost models = txs@.map_values(|t: Tx| t@);
    let mut out: Vec<u8> = Vec::new();
    push_u64(&mut out, txs.len() as u64);
    let ghost base = out@;
    let mut i: usize = 0;
    while i < txs.len()
        invariant
            i <= txs@.len(),
            models == txs@.map_values(|t: Tx| t@),
            base == spec_u64_to_le_bytes(txs@.len() as u64),
            out@ == base + spec_enc_tx_list(models.take(i as int)),
        decreases txs@.len() - i,
    {
        encode_tx_into(&mut out, &txs[i]);
        proof {
            lemma_enc_tx_list_snoc(models.take(i as int), models[i as int]);
            assert(models.take(i as int + 1) =~= models.take(i as int).push(models[i as int]));
            assert(models[i as int] == txs@[i as int]@);
            assert(out@ =~= base + spec_enc_tx_list(models.take(i as int + 1)));
        }
        i += 1;
    }
    proof {
        assert(models.take(models.len() as int) =~= models);
        assert(usize::MAX <= u64::MAX);
        assert(out@ =~= spec_enc_tx_batch(models));
    }
    out
}

/// Reads a `u64` at `pos`, as [`spec_dec_u64`] does.
pub fn decode_u64(data: &[u8], pos: usize) -> (r: Option<(u64, usize)>)
    ensures
        match r {
            Some(v) => spec_dec_u64(data@, pos as int) == Some((v.0, v.1 as int)),
            None => spec_dec_u64(data@, pos as int) is None,
        },
{
    let n = data.len();
    if pos < n && n - pos >= 8 {
        let x = read_u64_at(data, pos);
        Some((x, pos + 8))
    } else {
        None
    }
}

/// Reads `count` consecutive `u64` values, as [`spec_dec_u64_list`] does.
pub fn decode_u64_list(data: &[u8], pos: usize, count: u64) -> (r: Option<(Vec<u64>, usize)>)
    ensures
        match r {
            Some(v) => spec_dec_u64_list(data@, pos as int, count) == Some((v.0@, v.1 as int)),
            None => spec_dec_u64_list(data@, pos as int, count) is None,
        },
    decreases count,
{
    if count == 0 {
        let empty: Vec<u64> = Vec::new();
        proof {
            assert(empty@ =~= Seq::<u64>::empty());
        }
        return Some((empty, pos));
    }
    match decode_u64(data, pos) {
        None => None,
        Some((x, p1)) => match decode_u64_list(data, p1, count - 1) {
            None => None,
            Some((mut xs, p2)) => {
                let ghost tail = xs@;
                xs.insert(0, x);
                proof {
                    assert(xs@ =~= seq![x] + tail);
                }
                Some((xs, p2))
            },
        },
    }
}

/// Reads one input, as [`spec_dec_txin`] does.
pub fn decode_txin(data: &[u8], pos: usize) -> (r: Option<(TxIn, usize)>)
    ensures
        match r {
            Some(v) => spec_dec_txin(data@, pos as int) == Some((v.0@, v.1 as int)),
            None => spec_dec_txin(data@, pos as int) is None,
        },
{
    match decode_u64(data, pos) {
        None => None,
        Some((ki, p1)) => match decode_u64(data, p1) {
            None => None,
            Some((n, p2)) => match decode_u64_list(data, p2, n) {
                None => None,
                Some((refs, p3)) => Some((TxIn { key_image: ki, proof_refs: refs }, p3)),
            },
        },
    }
}

/// Reads `count` consecutive inputs, as [`spec_dec_txin_list`] does.
pub fn decode_txin_list(data: &[u8], pos: usize, count: u64) -> (r: Option<(Vec<TxIn>, usize)>)
    ensures
        match r {
            Some(v) => spec_dec_txin_list(data@, pos as int, count) == Some(
                (v.0@.map_values(|i: TxIn| i@), v.1 as int),
            ),
            None => spec_dec_txin_list(data@, pos as int, count) is None,
        },
    decreases count,
{
    if count == 0 {
        let empty: Vec<TxIn> = Vec::new();
        proof {
            assert(empty@.map_values(|i: TxIn| i@) =~= Seq::<TxInModel>::empty());
        }
        return Some((empty, pos));
    }
    match decode_txin(data, pos) {
        None => None,
        Some((x, p1)) => match decode_txin_list(data, p1, count - 1) {
            None => None,
            Some((mut xs, p2)) => {
                let ghost tail = xs@.map_values(|i: TxIn| i@);
                let ghost xv = x@;
                xs.insert(0, x);
                proof {
                    assert(xs@.map_values(|i: TxIn| i@) =~= seq![xv] + tail);
                }
                Some((xs, p2))
            },
        },
    }
}

/// Reads one transaction, as [`spec_dec_tx_at`] does.
pub fn decode_tx_at(data: &[u8], pos: usize) -> (r: Option<(Tx, usize)>)
    ensures
        match r {
            Some(v) => spec_dec_tx_at(data@, pos as int) == Some((v.0@, v.1 as int)),
            None => spec_dec_tx_at(data@, pos as int) is None,
        },
{
    match decode_u64(data, pos) {
        None => None,
        Some((fee, p1)) => match decode_u64(data, p1) {
            None => None,
            Some((tomb, p2)) => match decode_u64(data, p2) {
                None => None,
                Some((n, p3)) => match decode_txin_list(data, p3, n) {
                    None => None,
                    Some((inputs, p4)) => Some(
                        (Tx { fee, tombstone_block: tomb, inputs }, p4),
                    ),
                },
            },
        },
    }
}

/// The transaction whose canonical encoding `data` is, as [`spec_dec_tx`]
/// does.
pub fn decode_tx(data: &[u8]) -> (r: Option<Tx>)
    ensures
        match r {
            Some(t) => spec_dec_tx(data@) == Some(t@),
            None => spec_dec_tx(data@) is None,
        },
{
    match decode_tx_at(data, 0) {
        None => None,
        Some((t, p)) => if p == data.len() {
            Some(t)
        } else {
            None
        },
    }
}

/// Reads `count` consecutive transactions, as [`spec_dec_tx_list`] does.
pub fn decode_tx_list(data: &[u8], pos: usize, count: u64) -> (r: Option<(Vec<Tx>, usize)>)
    ensures
        match r {
            Some(v) => spec_dec_tx_list(data@, pos as int, count) == Some(
                (v.0@.map_values(|t: Tx| t@), v.1 as int),
            ),
            None => spec_dec_tx_list(data@, pos as int, count) is None,
        },
    decreases count,
{
    if count == 0 {
        let empty: Vec<Tx> = Vec::new();
        proof {
            assert(empty@.map_values(|t: Tx| t@) =~= Seq::<TxModel>::empty());
        }
        return Some((empty, pos));
    }
    match decode_tx_at(data, pos) {
        None => None,
        Some((x, p1)) => match decode_tx_list(data, p1, count - 1) {
            None => None,
            Some((mut xs, p2)) => {
                let ghost tail = xs@.map_values(|t: Tx| t@);
                let ghost xv = x@;
                xs.insert(0, x);
                proof {
                    assert(xs@.map_values(|t: Tx| t@) =~= seq![xv] + tail);
                }
                Some((xs, p2))
            },
        },
    }
}

/// The batch whose canonical encoding `data` is, as [`spec_dec_tx_batch`]
/// does.
pub fn decode_tx_batch(data: &[u8]) -> (r: Option<Vec<Tx>>)
    ensures
        match r {
            Some(ts) => spec_dec_tx_batch(data@) == Some(ts@.map_values(|t: Tx| t@)),
            None => spec_dec_tx_batch(data@) is None,
        },
{
    match decode_u64(data, 0) {
        None => None,
        Some((n, p1)) => match decode_tx_list(data, p1, n) {
            None => None,
            Some((ts, p2)) => if p2 == data.len() {
                Some(ts)
            } else {
                None
            },
        },
    }
}

// ---------------------------------------------------------------------------
// Digest, hash, and derived metadata
// ---------------------------------------------------------------------------

/// One step of the byte digest.
pub open spec fn spec_digest_step(acc: u64, b: u8) -> u64 {
    (((acc as int) * 31 + b as int) % 0x1_0000_0000_0000_0000) as u64
}

/// The digest of a byte string: a deterministic fold over its bytes.
pub open spec fn spec_digest(s: Seq<u8>) -> u64
    decreases s.len(),
{
    if s.len() == 0 {
        DIGEST_SEED
    } else {
        spec_digest_step(spec_digest(s.drop_last()), s.last())
    }
}

/// Computes the digest of `data`.
pub fn digest_bytes(data: &[u8]) -> (r: u64)
    ensures
        r == spec_digest(data@),
{
    let mut acc: u64 = DIGEST_SEED;
    let mut i: usize = 0;
    proof {
        assert(data@.take(0) =~= Seq::<u8>::empty());
    }
    while i < data.len()
        invariant
            i <= data@.len(),
            acc == spec_digest(data@.take(i as int)),
        decreases data@.len() - i,
    {
        let b = data[i];
        acc = (((acc as u128) * 31 + b as u128) % 0x1_0000_0000_0000_0000u128) as u64;
        proof {
            assert(data@.take(i as int + 1).drop_last() =~= data@.take(i as int));
            assert(data@.take(i as int + 1).last() == data@[i as int]);
        }
        i += 1;
    }
    proof {
        assert(data@.take(data@.len() as int) =~= data@);
    }
    acc
}

/// The hash of a transaction: the digest of its canonical encoding.
pub open spec fn spec_tx_hash(t: TxModel) -> u64 {
    spec_digest(spec_enc_tx(t))
}

/// Computes the hash of `tx`.
pub fn tx_hash(tx: &Tx) -> (r: TxHash)
    ensures
        r == spec_tx_hash(tx@),
{
    let enc = encode_tx(tx);
    digest_bytes(enc.as_slice())
}

/// The largest of a list of indices, zero if there are none.
pub open spec fn spec_seq_max(s: Seq<u64>) -> u64
    decreases s.len(),
{
    if s.len() == 0 {
        0u64
    } else if s.last() >= spec_seq_max(s.drop_last()) {
        s.last()
    } else {
        spec_seq_max(s.drop_last())
    }
}

/// The highest membership-proof index referenced by one input.
pub open spec fn spec_highest_index(i: TxInModel) -> u64 {
    spec_seq_max(i.proof_refs)
}

/// The highest membership-proof index referenced by each input, in input
/// order.
pub open spec fn spec_highest_indices(t: TxModel) -> Seq<u64> {
    t.inputs.map_values(|i: TxInModel| spec_highest_index(i))
}

/// The key images spent by a transaction, in input order.
pub open spec fn spec_key_images(t: TxModel) -> Seq<u64> {
    t.inputs.map_values(|i: TxInModel| i.key_image)
}

/// Computes the highest index referenced by one input.
pub fn input_highest_index(txin: &TxIn) -> (r: u64)
    ensures
        r == spec_highest_index(txin@),
{
    let mut m: u64 = 0;
    let mut j: usize = 0;
    proof {
        assert(txin.proof_refs@.take(0) =~= Seq::<u64>::empty());
    }
    while j < txin.proof_refs.len()
        invariant
            j <= txin.proof_refs@.len(),
            m == spec_seq_max(txin.proof_refs@.take(j as int)),
        decreases txin.proof_refs@.len() - j,
    {
        let x = txin.proof_refs[j];
        proof {
            assert(txin.proof_refs@.take(j as int + 1).drop_last() =~= txin.proof_refs@.take(
                j as int,
            ));
            assert(txin.proof_refs@.take(j as int + 1).last() == txin.proof_refs@[j as int]);
        }
        if x > m {
            m = x;
        }
        j += 1;
    }
    proof {
        assert(txin.proof_refs@.take(txin.proof_refs@.len() as int) =~= txin.proof_refs@);
    }
    m
}

/// Computes the highest referenced index of each input.
pub fn highest_indices(tx: &Tx) -> (r: Vec<u64>)
    ensures
        r@ == spec_highest_indices(tx@),
{
    let mut out: Vec<u64> = Vec::new();
    let mut i: usize = 0;
    while i < tx.inputs.len()
        invariant
            i <= tx.inputs@.len(),
            out@.len() == i,
            forall|k: int| 0 <= k < i ==> out@[k] == spec_highest_index(#[trigger] tx@.inputs[k]),
        decreases tx.inputs@.len() - i,
    {
        let h = input_highest_index(&tx.inputs[i]);
        proof {
            assert(tx@.inputs[i as int] == tx.inputs@[i as int]@);
        }
        out.push(h);
        i += 1;
    }
    proof {
        assert(out@ =~= spec_highest_indices(tx@));
    }
    out
}

/// Computes the key images of `tx`, in input order.
pub fn key_images(tx: &Tx) -> (r: Vec<KeyImage>)
    ensures
        r@ == spec_key_images(tx@),
{
    let mut out: Vec<u64> = Vec::new();
    let mut i: usize = 0;
    while i < tx.inputs.len()
        invariant
            i <= tx.inputs@.len(),
            out@.len() == i,
            forall|k: int| 0 <= k < i ==> out@[k] == #[trigger] tx@.inputs[k].key_image,
        decreases tx.inputs@.len() - i,
    {
        let ki = tx.inputs[i].key_image;
        proof {
            assert(tx@.inputs[i as int] == tx.inputs@[i as int]@);
        }
        out.push(ki);
        i += 1;
    }
    proof {
        assert(out@ =~= spec_key_images(tx@));
    }
    out
}

/// The structural transaction rules: at least one input, every input
/// references at least one ledger index, and no key image is spent twice
/// within the transaction.
pub open spec fn spec_tx_rules_ok(t: TxModel) -> bool {
    &&& t.inputs.len() > 0
    &&& forall|i: int| 0 <= i < t.inputs.len() ==> (#[trigger] t.inputs[i]).proof_refs.len() > 0
    &&& forall|i: int, j: int|
        0 <= i < j < t.inputs.len() ==> (#[trigger] t.inputs[i]).key_image != (
        #[trigger] t.inputs[j]).key_image
}

/// Checks the structural transaction rules.
pub fn check_tx_rules(tx: &Tx) -> (r: bool)
    ensures
        r == spec_tx_rules_ok(tx@),
{
    if tx.inputs.len() == 0 {
        return false;
    }
    let mut i: usize = 0;
    while i < tx.inputs.len()
        invariant
            i <= tx.inputs@.len(),
            tx@.inputs.len() == tx.inputs@.len(),
            forall|k: int|
                0 <= k < i ==> (#[trigger] tx@.inputs[k]).proof_refs.len() > 0,
            forall|a: int, b: int|
                0 <= a < b < i ==> (#[trigger] tx@.inputs[a]).key_image != (
                #[trigger] tx@.inputs[b]).key_image,
        decreases tx.inputs@.len() - i,
    {
        proof {
            assert(tx@.inputs[i as int] == tx.inputs@[i as int]@);
        }
        if tx.inputs[i].proof_refs.len() == 0 {
            return false;
        }
        let mut j: usize = 0;
        while j < i
            invariant
                j <= i,
                i < tx.inputs@.len(),
                tx@.inputs.len() == tx.inputs@.len(),
                tx@.inputs[i as int] == tx.inputs@[i as int]@,
                forall|a: int|
                    0 <= a < j ==> (#[trigger] tx@.inputs[a]).key_image != tx@.inputs[
                        i as int
                    ].key_image,
            decreases i - j,
        {
            proof {
                assert(tx@.inputs[j as int] == tx.inputs@[j as int]@);
            }
            if tx.inputs[j].key_image == tx.inputs[i].key_image {
                return false;
            }
            j += 1;
        }
        i += 1;
    }
    true
}

/// Whether `proofs` are exactly the proofs requested for `t`: one per input,
/// each proving the input's highest referenced index, each built against a
/// ledger at least that long.
pub open spec fn spec_proofs_consistent(t: TxModel, proofs: Seq<TxOutMembershipProof>) -> bool {
    &&& proofs.len() == t.inputs.len()
    &&& forall|i: int|
        0 <= i < proofs.len() ==> (#[trigger] proofs[i]).index == spec_highest_index(t.inputs[i])
            && proofs[i].highest_index >= proofs[i].index
}

/// Checks that `proofs` are exactly the proofs requested for `tx`.
pub fn check_proofs_consistent(tx: &Tx, proofs: &Vec<TxOutMembershipProof>) -> (r: bool)
    ensures
        r == spec_proofs_consistent(tx@, proofs@),
{
    if proofs.len() != tx.inputs.len() {
        return false;
    }
    let mut i: usize = 0;
    while i < proofs.len()
        invariant
            i <= proofs@.len(),
            proofs@.len() == tx@.inputs.len(),
            tx@.inputs.len() == tx.inputs@.len(),
            forall|k: int|
                0 <= k < i ==> (#[trigger] proofs@[k]).index == spec_highest_index(tx@.inputs[k])
                    && proofs@[k].highest_index >= proofs@[k].index,
        decreases proofs@.len() - i,
    {
        let h = input_highest_index(&tx.inputs[i]);
        proof {
            assert(tx@.inputs[i as int] == tx.inputs@[i as int]@);
        }
        if proofs[i].index != h {
            return false;
        }
        if proofs[i].highest_index < proofs[i].index {
            return false;
        }
        i += 1;
    }
    true
}

// ---------------------------------------------------------------------------
// Pipeline stage types
// ---------------------------------------------------------------------------

/// A transaction re-encrypted for this enclave's private use, awaiting the
/// well-formedness check.
#[derive(Clone, Debug, Default, PartialEq, Eq, PartialOrd, Ord, Hash)]
pub struct LocallyEncryptedTx(pub Vec<u8>);

/// A transaction proven well-formed, still encrypted for this enclave.
#[derive(Clone, Debug, Default, PartialEq, Eq, PartialOrd, Ord, Hash)]
pub struct WellFormedEncryptedTx(pub Vec<u8>);

/// Everything untrusted code needs to gather the inputs of the
/// well-formedness check for one submitted transaction.
#[derive(Clone, Debug, Default, PartialEq, Eq, PartialOrd, Ord, Hash)]
pub struct TxContext {
    /// The transaction, re-encrypted for this enclave.
    pub locally_encrypted_tx: LocallyEncryptedTx,
    /// The hash of the submitted transaction.
    pub tx_hash: TxHash,
    /// The highest membership-proof index referenced by each input.
    pub highest_indices: Vec<u64>,
    /// The key images spent by the transaction.
    pub key_images: Vec<KeyImage>,
}

/// The mathematical value of a [`TxContext`].
pub ghost struct TxContextModel {
    pub locally_encrypted_tx: Seq<u8>,
    pub tx_hash: u64,
    pub highest_indices: Seq<u64>,
    pub key_images: Seq<u64>,
}

impl View for TxContext {
    type V = TxContextModel;

    open spec fn view(&self) -> TxContextModel {
        TxContextModel {
            locally_encrypted_tx: self.locally_encrypted_tx.0@,
            tx_hash: self.tx_hash,
            highest_indices: self.highest_indices@,
            key_images: self.key_images@,
        }
    }
}

/// The non-sensitive metadata of a well-formed transaction, derived
/// deterministically from the transaction and immutable once created.
#[derive(Clone, Debug, Default, PartialEq, Eq, PartialOrd, Ord, Hash)]
pub struct WellFormedTxContext {
    tx_hash: TxHash,
    fee: u64,
    tombstone_block: u64,
    key_images: Vec<KeyImage>,
    highest_indices: Vec<u64>,
}

/// The mathematical value of a [`WellFormedTxContext`].
pub ghost struct WellFormedTxContextModel {
    pub tx_hash: u64,
    pub fee: u64,
    pub tombstone_block: u64,
    pub key_images: Seq<u64>,
    pub highest_indices: Seq<u64>,
}

impl View for WellFormedTxContext {
    type V = WellFormedTxContextModel;

    closed spec fn view(&self) -> WellFormedTxContextModel {
        WellFormedTxContextModel {
            tx_hash: self.tx_hash,
            fee: self.fee,
            tombstone_block: self.tombstone_block,
            key_images: self.key_images@,
            highest_indices: self.highest_indices@,
        }
    }
}

/// The metadata a well-formed `t` exposes.
pub open spec fn spec_wf_context(t: TxModel) -> WellFormedTxContextModel {
    WellFormedTxContextModel {
        tx_hash: spec_tx_hash(t),
        fee: t.fee,
        tombstone_block: t.tombstone_block,
        key_images: spec_key_images(t),
        highest_indices: spec_highest_indices(t),
    }
}

impl WellFormedTxContext {
    /// Derives the public metadata of `tx`.
    pub fn from(tx: &Tx) -> (r: WellFormedTxContext)
        ensures
            r@ == spec_wf_context(tx@),
    {
        WellFormedTxContext {
            tx_hash: tx_hash(tx),
            fee: tx.fee,
            tombstone_block: tx.tombstone_block,
            key_images: key_images(tx),
            highest_indices: highest_indices(tx),
        }
    }

    /// The hash of the underlying transaction.
    pub fn tx_hash(&self) -> (r: &TxHash)
        ensures
            *r == self@.tx_hash,
    {
        &self.tx_hash
    }

    /// The fee the underlying transaction pays.
    pub fn fee(&self) -> (r: u64)
        ensures
            r == self@.fee,
    {
        self.fee
    }

    /// The tombstone block of the underlying transaction.
    pub fn tombstone_block(&self) -> (r: u64)
        ensures
            r == self@.tombstone_block,
    {
        self.tombstone_block
    }

    /// The key images spent by the underlying transaction.
    pub fn key_images(&self) -> (r: &Vec<KeyImage>)
        ensures
            r@ == self@.key_images,
    {
        &self.key_images
    }

    /// The highest membership-proof indices of the underlying transaction.
    pub fn highest_indices(&self) -> (r: &Vec<u64>)
        ensures
            r@ == self@.highest_indices,
    {
        &self.highest_indices
    }
}

} // verus!
