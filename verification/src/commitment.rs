//! The commitment layer: deterministic content hashing of headers and
//! blocks, and Merkle aggregation of transaction sequences.
//!
//! An odd-sized Merkle level duplicates its last node's hash and pairs it
//! with itself; in particular the root over a single transaction is the
//! combination of its leaf hash with itself, not the leaf hash alone.
//! This policy is deliberate and must be kept for hash stability.

use vstd::prelude::*;
use sha2::Digest;
use crate::codec::{le8, push_u64_le, push_bytes, copy_bytes, zero32, zero32_bytes};
use crate::types::{
    Block, BlockHeader, Transaction, BlockHeaderModel, TransactionModel, BlockModel, models_of,
};

verus! {

/// What the SHA-256 digest of a byte sequence is: a fixed function of the
/// bytes alone, left unstated here.
pub uninterp spec fn sha256_of(data: Seq<u8>) -> Seq<u8>;

/// Relies on sha2's `Sha256::digest`: the digest depends on the input bytes
/// alone and is 32 bytes long.
#[verifier::external_body]
pub fn sha256(data: &[u8]) -> (r: Vec<u8>)
    ensures
        r@ == sha256_of(data@),
        r@.len() == 32,
{
    sha2::Sha256::digest(data).to_vec()
}

/// The canonical encoding of a block header.
pub open spec fn spec_encode_header(h: BlockHeaderModel) -> Seq<u8> {
    le8(h.block_number) + h.parent_hash + le8(h.timestamp as u64) + h.merkle_root + h.validator
        + le8(h.difficulty) + le8(h.nonce)
}

/// The canonical encoding of a transaction.
pub open spec fn spec_encode_transaction(t: TransactionModel) -> Seq<u8> {
    t.id + t.from + t.to + le8(t.amount) + le8(t.timestamp as u64)
        + le8(t.signature.len() as u64) + t.signature
}

/// The concatenation of the encodings of a transaction sequence.
pub open spec fn spec_concat_transactions(txs: Seq<TransactionModel>) -> Seq<u8>
    decreases txs.len(),
{
    if txs.len() == 0 {
        Seq::<u8>::empty()
    } else {
        spec_concat_transactions(txs.drop_last()) + spec_encode_transaction(txs.last())
    }
}

/// The canonical encoding of a transaction sequence: its length, then each
/// transaction in order.
pub open spec fn spec_encode_transactions(txs: Seq<TransactionModel>) -> Seq<u8> {
    le8(txs.len() as u64) + spec_concat_transactions(txs)
}

/// The content hash of a transaction.
pub open spec fn spec_transaction_hash(t: TransactionModel) -> Seq<u8> {
    sha256_of(spec_encode_transaction(t))
}

/// The content hash of a block header.
pub open spec fn spec_header_hash(h: BlockHeaderModel) -> Seq<u8> {
    sha256_of(spec_encode_header(h))
}

/// The identity of a block: the content hash of its header and transaction
/// sequence.
pub open spec fn spec_block_hash(b: BlockModel) -> Seq<u8> {
    sha256_of(spec_encode_header(b.header) + spec_encode_transactions(b.transactions))
}

/// The canonical encoding of a block header, as bytes.
pub fn encode_header(h: &BlockHeader) -> (r: Vec<u8>)
    ensures
        r@ == spec_encode_header(h@),
{
    let mut out: Vec<u8> = Vec::new();
    push_u64_le(&mut out, h.block_number);
    push_bytes(&mut out, h.parent_hash.as_slice());
    push_u64_le(&mut out, #[verifier::truncate] (h.timestamp as u64));
    push_bytes(&mut out, h.merkle_root.as_slice());
    push_bytes(&mut out, h.validator.as_slice());
    push_u64_le(&mut out, h.difficulty);
    push_u64_le(&mut out, h.nonce);
    assert(out@ =~= spec_encode_header(h@));
    out
}

/// The canonical encoding of a transaction, as bytes.
pub fn encode_transaction(t: &Transaction) -> (r: Vec<u8>)
    ensures
        r@ == spec_encode_transaction(t@),
{
    let mut out: Vec<u8> = Vec::new();
    push_bytes(&mut out, t.id.as_slice());
    push_bytes(&mut out, t.from.as_slice());
    push_bytes(&mut out, t.to.as_slice());
    push_u64_le(&mut out, t.amount);
    push_u64_le(&mut out, #[verifier::truncate] (t.timestamp as u64));
    push_u64_le(&mut out, t.signature.len() as u64);
    push_bytes(&mut out, t.signature.as_slice());
    assert(out@ =~= spec_encode_transaction(t@));
    out
}

/// The canonical encoding of a transaction sequence, as bytes.
pub fn encode_transactions(txs: &Vec<Transaction>) -> (r: Vec<u8>)
    ensures
        r@ == spec_encode_transactions(models_of(txs@)),
{
    let mut out: Vec<u8> = Vec::new();
    push_u64_le(&mut out, txs.len() as u64);
    let mut i: usize = 0;
    while i < txs.len()
        invariant
            i <= txs@.len(),
            out@ == le8(txs@.len() as u64) + spec_concat_transactions(models_of(txs@.take(i as int))),
        decreases txs@.len() - i,
    {
        let enc = encode_transaction(&txs[i]);
        push_bytes(&mut out, enc.as_slice());
        assert(models_of(txs@.take(i + 1)).drop_last() =~= models_of(txs@.take(i as int)));
        assert(models_of(txs@.take(i + 1)).last() == txs@[i as int]@);
        i = i + 1;
    }
    assert(models_of(txs@.take(i as int)) =~= models_of(txs@));
    out
}

impl BlockHeader {
    /// The content hash of this header.
    pub fn hash(&self) -> (r: Vec<u8>)
        ensures
            r@ == spec_header_hash(self@),
            r@.len() == 32,
    {
        let enc = encode_header(self);
        sha256(enc.as_slice())
    }
}

impl Block {
    /// The identity of this block: the content hash of its header and
    /// transaction sequence.
    pub fn hash(&self) -> (r: Vec<u8>)
        ensures
            r@ == spec_block_hash(self@),
            r@.len() == 32,
    {
        let mut data = encode_header(&self.header);
        let txs = encode_transactions(&self.transactions);
        push_bytes(&mut data, txs.as_slice());
        sha256(data.as_slice())
    }

    /// A stand-in for proof verification at the block level; it accepts
    /// every block, as the attached proof is checked through the proof
    /// gateway instead.
    pub fn verify_zk_proof(&self) -> (r: bool)
        ensures
            r == true,
    {
        true
    }
}

/// The pairwise combination of two node hashes.
pub open spec fn combine(a: Seq<u8>, b: Seq<u8>) -> Seq<u8> {
    sha256_of(a + b)
}

/// One level of Merkle aggregation: adjacent nodes are combined pairwise,
/// and the last node of an odd-sized level is combined with itself.
pub open spec fn spec_merkle_level(hs: Seq<Seq<u8>>) -> Seq<Seq<u8>> {
    Seq::new(
        ((hs.len() + 1) / 2) as nat,
        |i: int|
            if 2 * i + 1 < hs.len() {
                combine(hs[2 * i], hs[2 * i + 1])
            } else {
                combine(hs[2 * i], hs[2 * i])
            },
    )
}

/// Repeated Merkle aggregation down to a single node.
pub open spec fn spec_merkle_collapse(hs: Seq<Seq<u8>>) -> Seq<u8>
    recommends
        hs.len() >= 1,
    decreases hs.len(),
{
    if hs.len() <= 1 {
        if hs.len() == 1 {
            hs[0]
        } else {
            zero32()
        }
    } else {
        spec_merkle_collapse(spec_merkle_level(hs))
    }
}

/// The leaf hashes of a transaction sequence.
pub open spec fn spec_leaf_hashes(txs: Seq<TransactionModel>) -> Seq<Seq<u8>> {
    Seq::new(txs.len(), |i: int| spec_transaction_hash(txs[i]))
}

/// The Merkle root of a transaction sequence: the all-zero hash for an
/// empty sequence, and otherwise at least one level of pairwise
/// aggregation collapsed down to a single node.
pub open spec fn spec_merkle_root(txs: Seq<TransactionModel>) -> Seq<u8> {
    if txs.len() == 0 {
        zero32()
    } else {
        spec_merkle_collapse(spec_merkle_level(spec_leaf_hashes(txs)))
    }
}

/// One level of Merkle aggregation, as bytes.
fn merkle_pass(hashes: &Vec<Vec<u8>>) -> (r: Vec<Vec<u8>>)
    requires
        hashes@.len() >= 1,
    ensures
        models_of(r@) == spec_merkle_level(models_of(hashes@)),
        r@.len() == (hashes@.len() + 1) / 2,
        forall|i: int| 0 <= i < r@.len() ==> #[trigger] r@[i]@.len() == 32,
{
    let ghost lvl = spec_merkle_level(models_of(hashes@));
    let n = hashes.len();
    let mut out: Vec<Vec<u8>> = Vec::new();
    let mut j: usize = 0;
    while j + 1 < n
        invariant
            n == hashes@.len(),
            lvl == spec_merkle_level(models_of(hashes@)),
            j <= n,
            j % 2 == 0,
            out@.len() == j / 2,
            models_of(out@) =~= lvl.take(j as int / 2),
            forall|i: int| 0 <= i < out@.len() ==> #[trigger] out@[i]@.len() == 32,
        decreases n - j,
    {
        let mut cat = copy_bytes(hashes[j].as_slice());
        push_bytes(&mut cat, hashes[j + 1].as_slice());
        let h = sha256(cat.as_slice());
        out.push(h);
        assert(models_of(out@) =~= lvl.take(j as int / 2 + 1)) by {
            assert(models_of(out@).last() == lvl[j as int / 2]);
        }
        j = j + 2;
    }
    if j < n {
        let mut cat = copy_bytes(hashes[j].as_slice());
        let again = copy_bytes(hashes[j].as_slice());
        push_bytes(&mut cat, again.as_slice());
        let h = sha256(cat.as_slice());
        out.push(h);
        assert(models_of(out@) =~= lvl.take(j as int / 2 + 1)) by {
            assert(models_of(out@).last() == lvl[j as int / 2]);
        }
        assert(out@.len() == (n + 1) as int / 2);
    }
    assert(models_of(out@) =~= lvl);
    out
}

/// The Merkle root of a transaction sequence, built bottom-up.
pub fn calculate_merkle_root(transactions: &Vec<Transaction>) -> (r: Vec<u8>)
    ensures
        r@ == spec_merkle_root(models_of(transactions@)),
        r@.len() == 32,
{
    if transactions.len() == 0 {
        return zero32_bytes();
    }
    let ghost txm = models_of(transactions@);
    let mut hashes: Vec<Vec<u8>> = Vec::new();
    let mut i: usize = 0;
    while i < transactions.len()
        invariant
            i <= transactions@.len(),
            txm == models_of(transactions@),
            models_of(hashes@) =~= spec_leaf_hashes(txm.take(i as int)),
            forall|k: int| 0 <= k < hashes@.len() ==> #[trigger] hashes@[k]@.len() == 32,
        decreases transactions@.len() - i,
    {
        let enc = encode_transaction(&transactions[i]);
        let h = sha256(enc.as_slice());
        let ghost prior = hashes@;
        assert(models_of(prior).len() == i);
        assert(prior.len() == i);
        assert(h@ == spec_transaction_hash(txm[i as int]));
        hashes.push(h);
        assert(models_of(hashes@) =~= spec_leaf_hashes(txm.take(i + 1))) by {
            assert(hashes@ == prior.push(h));
            assert forall|k: int| 0 <= k < i + 1 implies models_of(hashes@)[k]
                == spec_leaf_hashes(txm.take(i + 1))[k] by {
                if k < i {
                    assert(hashes@[k] == prior[k]);
                    assert(models_of(prior)[k] == spec_leaf_hashes(txm.take(i as int))[k]);
                } else {
                    assert(hashes@[k] == h);
                    assert(h@ == spec_transaction_hash(txm[i as int]));
                }
            }
        }
        i = i + 1;
    }
    assert(txm.take(i as int) =~= txm);
    assert(spec_merkle_root(txm) == spec_merkle_collapse(spec_merkle_level(models_of(hashes@))));
    loop
        invariant
            txm == models_of(transactions@),
            hashes@.len() >= 1,
            spec_merkle_root(txm) == spec_merkle_collapse(spec_merkle_level(models_of(hashes@))),
            forall|k: int| 0 <= k < hashes@.len() ==> #[trigger] hashes@[k]@.len() == 32,
        decreases hashes@.len(),
    {
        let ghost before = models_of(hashes@);
        let next = merkle_pass(&hashes);
        hashes = next;
        if hashes.len() == 1 {
            assert(spec_merkle_collapse(spec_merkle_level(before)) == models_of(hashes@)[0]);
            assert(models_of(hashes@)[0] == hashes@[0]@);
            return copy_bytes(hashes[0].as_slice());
        }
        assert(spec_merkle_collapse(spec_merkle_level(before))
            == spec_merkle_collapse(spec_merkle_level(models_of(hashes@))));
    }
}

/// LAW.  Merkle aggregation is deterministic: the root is a function of
/// the transaction sequence alone.
pub proof fn lemma_merkle_root_deterministic(a: Seq<TransactionModel>, b: Seq<TransactionModel>)
    requires
        a == b,
    ensures
        spec_merkle_root(a) == spec_merkle_root(b),
{
}

/// LAW.  The Merkle root of an empty transaction sequence is the all-zero
/// hash.
pub proof fn lemma_merkle_root_empty()
    ensures
        spec_merkle_root(Seq::<TransactionModel>::empty()) == zero32(),
{
}

/// LAW.  The Merkle root over a single transaction pairs the leaf hash
/// with itself: it is the combination of the leaf hash with itself, not
/// the leaf hash alone.
pub proof fn lemma_merkle_root_single(t: TransactionModel)
    ensures
        spec_merkle_root(seq![t])
            == combine(spec_transaction_hash(t), spec_transaction_hash(t)),
{
    let leaves = spec_leaf_hashes(seq![t]);
    assert(leaves.len() == 1);
    assert(leaves[0] == spec_transaction_hash(t));
    let lvl = spec_merkle_level(leaves);
    assert(lvl.len() == 1);
    assert(lvl[0] == combine(spec_transaction_hash(t), spec_transaction_hash(t)));
    assert(spec_merkle_collapse(lvl) == lvl[0]);
}

} // verus!
