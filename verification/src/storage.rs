//! The persistence gateway: a key-addressed store for blocks, votes,
//! transactions and consensus state.
//!
//! The store is held in memory.  Blocks are keyed by height, votes by the
//! pair of block hash and validator, transactions by identity; storing
//! under an existing key overwrites, so duplicates never accumulate.  All
//! reads observe all prior writes.

use vstd::prelude::*;
use vstd::pervasive::VecAdditionalExecFns;
use crate::codec::{copy_bytes, bytes_eq};
use crate::commitment::spec_block_hash;
use crate::types::{
    Block, BlockVote, Transaction, ConsensusState, VoteType, BlockModel, BlockVoteModel,
    TransactionModel, ConsensusStateModel, models_of, copy_transactions, lemma_models_push,
    lemma_models_update,
};

verus! {

/// The mathematical value of the store.
#[verifier::ext_equal]
pub ghost struct StorageModel {
    pub blocks: Seq<BlockModel>,
    pub votes: Seq<BlockVoteModel>,
    pub transactions: Seq<TransactionModel>,
    pub pending: Seq<TransactionModel>,
    pub consensus_state: Option<ConsensusStateModel>,
}

/// The in-memory store.
#[derive(Debug)]
pub struct StorageManager {
    blocks: Vec<Block>,
    votes: Vec<BlockVote>,
    transactions: Vec<Transaction>,
    pending_transactions: Vec<Transaction>,
    consensus_state: Option<ConsensusState>,
}

impl View for StorageManager {
    type V = StorageModel;

    closed spec fn view(&self) -> StorageModel {
        StorageModel {
            blocks: models_of(self.blocks@),
            votes: models_of(self.votes@),
            transactions: models_of(self.transactions@),
            pending: models_of(self.pending_transactions@),
            consensus_state: match self.consensus_state {
                Some(s) => Some(s@),
                None => None,
            },
        }
    }
}

/// No two stored blocks share a height.
pub open spec fn unique_heights(blocks: Seq<BlockModel>) -> bool {
    forall|i: int, j: int|
        0 <= i < j < blocks.len() ==> (#[trigger] blocks[i]).header.block_number
            != (#[trigger] blocks[j]).header.block_number
}

/// Whether a vote carries the given block hash and validator.
pub open spec fn vote_key_is(v: BlockVoteModel, h: Seq<u8>, val: Seq<u8>) -> bool {
    v.block_hash == h && v.validator == val
}

/// No two stored votes share a block hash and validator.
pub open spec fn unique_vote_keys(votes: Seq<BlockVoteModel>) -> bool {
    forall|i: int, j: int|
        0 <= i < j < votes.len() ==> !vote_key_is(
            #[trigger] votes[i],
            (#[trigger] votes[j]).block_hash,
            votes[j].validator,
        )
}

/// No two stored transactions share an identity.
pub open spec fn unique_transaction_ids(txs: Seq<TransactionModel>) -> bool {
    forall|i: int, j: int|
        0 <= i < j < txs.len() ==> (#[trigger] txs[i]).id != (#[trigger] txs[j]).id
}

/// Every key is stored at most once.
pub open spec fn storage_model_wf(m: StorageModel) -> bool {
    unique_heights(m.blocks) && unique_vote_keys(m.votes) && unique_transaction_ids(m.transactions)
}

impl StorageManager {
    /// Every key is stored at most once.
    pub open spec fn wf(&self) -> bool {
        storage_model_wf(self@)
    }

    /// A fresh, empty store.  The path is where a durable engine would
    /// keep its files; this in-memory stand-in ignores it.
    pub fn new(db_path: &str) -> (r: Self)
        ensures
            r@ == (StorageModel {
                blocks: Seq::<BlockModel>::empty(),
                votes: Seq::<BlockVoteModel>::empty(),
                transactions: Seq::<TransactionModel>::empty(),
                pending: Seq::<TransactionModel>::empty(),
                consensus_state: None::<ConsensusStateModel>,
            }),
            r.wf(),
    {
        let r = StorageManager {
            blocks: Vec::new(),
            votes: Vec::new(),
            transactions: Vec::new(),
            pending_transactions: Vec::new(),
            consensus_state: None,
        };
        assert(r@ =~= (StorageModel {
            blocks: Seq::<BlockModel>::empty(),
            votes: Seq::<BlockVoteModel>::empty(),
            transactions: Seq::<TransactionModel>::empty(),
            pending: Seq::<TransactionModel>::empty(),
            consensus_state: None::<ConsensusStateModel>,
        })) by {
            assert(models_of(r.blocks@) =~= Seq::<BlockModel>::empty());
            assert(models_of(r.votes@) =~= Seq::<BlockVoteModel>::empty());
            assert(models_of(r.transactions@) =~= Seq::<TransactionModel>::empty());
            assert(models_of(r.pending_transactions@) =~= Seq::<TransactionModel>::empty());
        }
        r
    }
}

/// The first stored block of the given height, if any.
pub open spec fn spec_get_block(blocks: Seq<BlockModel>, n: u64) -> Option<BlockModel>
    decreases blocks.len(),
{
    if blocks.len() == 0 {
        None
    } else if blocks.first().header.block_number == n {
        Some(blocks.first())
    } else {
        spec_get_block(blocks.drop_first(), n)
    }
}

/// The store after writing a block: it replaces the first block of the
/// same height, or is appended if the height is new.
pub open spec fn spec_store_block(blocks: Seq<BlockModel>, b: BlockModel) -> Seq<BlockModel>
    decreases blocks.len(),
{
    if blocks.len() == 0 {
        seq![b]
    } else if blocks.first().header.block_number == b.header.block_number {
        seq![b] + blocks.drop_first()
    } else {
        seq![blocks.first()] + spec_store_block(blocks.drop_first(), b)
    }
}

/// The first stored block with the given identity hash, if any.
pub open spec fn spec_get_block_by_hash(blocks: Seq<BlockModel>, h: Seq<u8>) -> Option<BlockModel>
    decreases blocks.len(),
{
    if blocks.len() == 0 {
        None
    } else if spec_block_hash(blocks.first()) == h {
        Some(blocks.first())
    } else {
        spec_get_block_by_hash(blocks.drop_first(), h)
    }
}

/// The stored block of greatest height, if any; on equal heights the
/// later entry wins, which cannot arise while heights are unique.
pub open spec fn spec_latest_block(blocks: Seq<BlockModel>) -> Option<BlockModel>
    decreases blocks.len(),
{
    if blocks.len() == 0 {
        None
    } else {
        match spec_latest_block(blocks.drop_last()) {
            None => Some(blocks.last()),
            Some(b) => if blocks.last().header.block_number >= b.header.block_number {
                Some(blocks.last())
            } else {
                Some(b)
            },
        }
    }
}

/// The stored blocks with heights in `start ..= end`, in height order.
pub open spec fn spec_block_range(blocks: Seq<BlockModel>, start: int, end: int) -> Seq<BlockModel>
    decreases end - start + 1,
{
    if end < start {
        Seq::<BlockModel>::empty()
    } else {
        spec_block_range(blocks, start, end - 1) + match spec_get_block(blocks, end as u64) {
            Some(b) => seq![b],
            None => Seq::<BlockModel>::empty(),
        }
    }
}

impl StorageManager {
    /// Writes a block, keyed by its height; a block already stored at
    /// that height is overwritten.
    #[verifier::loop_isolation(false)]
    pub fn store_block(&mut self, block: &Block)
        requires
            old(self).wf(),
        ensures
            final(self).wf(),
            final(self)@ == (StorageModel {
                blocks: spec_store_block(old(self)@.blocks, block@),
                ..old(self)@
            }),
    {
        let ghost orig = models_of(self.blocks@);
        let ghost bm = block@;
        let n = block.header.block_number;
        let mut i: usize = 0;
        assert(orig.take(0) =~= Seq::<BlockModel>::empty());
        assert(orig.skip(0) =~= orig);
        while i < self.blocks.len()
            invariant
                self.blocks == old(self).blocks,
                self.votes == old(self).votes,
                self.transactions == old(self).transactions,
                self.pending_transactions == old(self).pending_transactions,
                self.consensus_state == old(self).consensus_state,
                orig == models_of(self.blocks@),
                bm == block@,
                n == bm.header.block_number,
                i <= orig.len(),
                unique_heights(orig),
                forall|k: int| 0 <= k < i ==> (#[trigger] orig[k]).header.block_number != n,
                spec_store_block(orig, bm) =~= orig.take(i as int) + spec_store_block(
                    orig.skip(i as int),
                    bm,
                ),
            decreases orig.len() - i,
        {
            if self.blocks[i].header.block_number == n {
                let ghost pre = self.blocks@;
                let c = block.clone();
                self.blocks.set(i, c);
                proof {
                    lemma_models_update(pre, i as int, c);
                    assert(models_of(self.blocks@) == orig.update(i as int, bm));
                    assert(orig.skip(i as int).drop_first() =~= orig.skip(i + 1));
                    assert(spec_store_block(orig.skip(i as int), bm)
                        =~= seq![bm] + orig.skip(i + 1));
                    assert(orig.update(i as int, bm)
                        =~= orig.take(i as int) + (seq![bm] + orig.skip(i + 1)));
                    assert(self@ =~= (StorageModel {
                        blocks: spec_store_block(orig, bm),
                        ..old(self)@
                    }));
                }
                return;
            }
            assert(orig.skip(i as int).drop_first() =~= orig.skip(i + 1));
            assert(orig.take(i as int).push(orig[i as int]) =~= orig.take(i + 1));
            i = i + 1;
        }
        assert(orig.skip(i as int) =~= Seq::<BlockModel>::empty());
        let ghost pre = self.blocks@;
        let c = block.clone();
        self.blocks.push(c);
        proof {
            lemma_models_push(pre, c);
            assert(models_of(self.blocks@) == orig.push(bm));
            assert(orig.take(orig.len() as int) =~= orig);
            assert(spec_store_block(orig, bm) =~= orig.push(bm));
            assert(self@.blocks == spec_store_block(orig, bm));
            assert(self@ =~= (StorageModel { blocks: spec_store_block(orig, bm), ..old(self)@ }));
        }
    }

    /// Reads the block stored at the given height, if any.
    #[verifier::loop_isolation(false)]
    pub fn get_block(&self, block_number: u64) -> (r: Option<Block>)
        ensures
            match r {
                Some(b) => spec_get_block(self@.blocks, block_number) == Some(b@),
                None => spec_get_block(self@.blocks, block_number) is None,
            },
    {
        let ghost m = models_of(self.blocks@);
        let mut i: usize = 0;
        assert(m.skip(0) =~= m);
        while i < self.blocks.len()
            invariant
                m == models_of(self.blocks@),
                i <= m.len(),
                spec_get_block(m, block_number) == spec_get_block(m.skip(i as int), block_number),
            decreases m.len() - i,
        {
            if self.blocks[i].header.block_number == block_number {
                assert(m.skip(i as int).first() == m[i as int]);
                return Some(self.blocks[i].clone());
            }
            assert(m.skip(i as int).drop_first() =~= m.skip(i + 1));
            i = i + 1;
        }
        assert(m.skip(i as int) =~= Seq::<BlockModel>::empty());
        None
    }

    /// Reads the block with the given identity hash, if any.
    #[verifier::loop_isolation(false)]
    pub fn get_block_by_hash(&self, block_hash: &[u8]) -> (r: Option<Block>)
        ensures
            match r {
                Some(b) => spec_get_block_by_hash(self@.blocks, block_hash@) == Some(b@),
                None => spec_get_block_by_hash(self@.blocks, block_hash@) is None,
            },
    {
        let ghost m = models_of(self.blocks@);
        let mut i: usize = 0;
        assert(m.skip(0) =~= m);
        while i < self.blocks.len()
            invariant
                m == models_of(self.blocks@),
                i <= m.len(),
                spec_get_block_by_hash(m, block_hash@) == spec_get_block_by_hash(
                    m.skip(i as int),
                    block_hash@,
                ),
            decreases m.len() - i,
        {
            let h = self.blocks[i].hash();
            if bytes_eq(h.as_slice(), block_hash) {
                assert(m.skip(i as int).first() == m[i as int]);
                return Some(self.blocks[i].clone());
            }
            assert(m.skip(i as int).drop_first() =~= m.skip(i + 1));
            i = i + 1;
        }
        assert(m.skip(i as int) =~= Seq::<BlockModel>::empty());
        None
    }

    /// Reads the stored block of greatest height, if any.
    #[verifier::loop_isolation(false)]
    pub fn get_latest_block(&self) -> (r: Option<Block>)
        ensures
            match r {
                Some(b) => spec_latest_block(self@.blocks) == Some(b@),
                None => spec_latest_block(self@.blocks) is None,
            },
    {
        let ghost m = models_of(self.blocks@);
        if self.blocks.len() == 0 {
            return None;
        }
        let mut best: usize = 0;
        let mut i: usize = 1;
        assert(m.take(1).drop_last() =~= Seq::<BlockModel>::empty());
        assert(m.take(1).last() == m[0]);
        assert(m.take(1).len() == 1);
        assert(spec_latest_block(Seq::<BlockModel>::empty()) is None);
        assert(spec_latest_block(m.take(1)) == Some(m[0]));
        while i < self.blocks.len()
            invariant
                m == models_of(self.blocks@),
                0 < i <= m.len(),
                best < i,
                spec_latest_block(m.take(i as int)) == Some(m[best as int]),
            decreases m.len() - i,
        {
            if self.blocks[i].header.block_number >= self.blocks[best].header.block_number {
                best = i;
            }
            assert(m.take(i + 1).drop_last() =~= m.take(i as int));
            assert(m.take(i + 1).last() == m[i as int]);
            i = i + 1;
        }
        assert(m.take(i as int) =~= m);
        Some(self.blocks[best].clone())
    }

    /// Reads the blocks with heights in `start ..= end`, in height order.
    #[verifier::loop_isolation(false)]
    pub fn get_block_range(&self, start: u64, end: u64) -> (r: Vec<Block>)
        ensures
            models_of(r@) == spec_block_range(self@.blocks, start as int, end as int),
    {
        let mut out: Vec<Block> = Vec::new();
        if start > end {
            assert(models_of(out@) =~= spec_block_range(self@.blocks, start as int, end as int));
            return out;
        }
        let mut n: u64 = start;
        loop
            invariant
                start <= n <= end,
                models_of(out@) =~= spec_block_range(self@.blocks, start as int, n - 1),
            decreases end - n,
        {
            match self.get_block(n) {
                Some(b) => {
                    out.push(b);
                    assert(models_of(out@) =~= spec_block_range(
                        self@.blocks,
                        start as int,
                        n as int,
                    ));
                },
                None => {
                    assert(models_of(out@) =~= spec_block_range(
                        self@.blocks,
                        start as int,
                        n as int,
                    ));
                },
            }
            if n == end {
                return out;
            }
            n = n + 1;
        }
    }
}

/// The store after writing a vote: it replaces the first vote with the
/// same block hash and validator, or is appended if that pair is new.
pub open spec fn spec_store_vote(votes: Seq<BlockVoteModel>, v: BlockVoteModel) -> Seq<
    BlockVoteModel,
>
    decreases votes.len(),
{
    if votes.len() == 0 {
        seq![v]
    } else if vote_key_is(votes.first(), v.block_hash, v.validator) {
        seq![v] + votes.drop_first()
    } else {
        seq![votes.first()] + spec_store_vote(votes.drop_first(), v)
    }
}

/// The stored votes that carry the given block hash, in store order.
pub open spec fn spec_votes_for_block(votes: Seq<BlockVoteModel>, h: Seq<u8>) -> Seq<BlockVoteModel>
    decreases votes.len(),
{
    if votes.len() == 0 {
        Seq::<BlockVoteModel>::empty()
    } else {
        (if votes.first().block_hash == h {
            seq![votes.first()]
        } else {
            Seq::<BlockVoteModel>::empty()
        }) + spec_votes_for_block(votes.drop_first(), h)
    }
}

/// How many of the given votes approve the given block hash.
pub open spec fn spec_count_approvals(votes: Seq<BlockVoteModel>, h: Seq<u8>) -> nat
    decreases votes.len(),
{
    if votes.len() == 0 {
        0
    } else {
        (if votes.first().block_hash == h && votes.first().vote == VoteType::Approve {
            1nat
        } else {
            0nat
        }) + spec_count_approvals(votes.drop_first(), h)
    }
}

/// How many of the given votes approve, whatever block they name.
pub open spec fn spec_count_approve_list(list: Seq<BlockVoteModel>) -> nat
    decreases list.len(),
{
    if list.len() == 0 {
        0
    } else {
        spec_count_approve_list(list.drop_last()) + (if list.last().vote == VoteType::Approve {
            1nat
        } else {
            0nat
        })
    }
}

/// Counting approvals distributes over concatenation.
proof fn lemma_count_approve_list_add(a: Seq<BlockVoteModel>, b: Seq<BlockVoteModel>)
    ensures
        spec_count_approve_list(a + b) == spec_count_approve_list(a) + spec_count_approve_list(b),
    decreases b.len(),
{
    if b.len() == 0 {
        assert(a + b =~= a);
    } else {
        lemma_count_approve_list_add(a, b.drop_last());
        assert((a + b).drop_last() =~= a + b.drop_last());
        assert((a + b).last() == b.last());
    }
}

/// Counting the approvals for a block hash over the whole store equals
/// counting approvals over the votes selected for that hash.
pub proof fn lemma_count_approvals_via_list(votes: Seq<BlockVoteModel>, h: Seq<u8>)
    ensures
        spec_count_approve_list(spec_votes_for_block(votes, h)) == spec_count_approvals(votes, h),
    decreases votes.len(),
{
    if votes.len() == 0 {
    } else {
        lemma_count_approvals_via_list(votes.drop_first(), h);
        let head = if votes.first().block_hash == h {
            seq![votes.first()]
        } else {
            Seq::<BlockVoteModel>::empty()
        };
        lemma_count_approve_list_add(head, spec_votes_for_block(votes.drop_first(), h));
        if votes.first().block_hash == h {
            assert(head.drop_last() =~= Seq::<BlockVoteModel>::empty());
            assert(head.last() == votes.first());
            assert(spec_count_approve_list(Seq::<BlockVoteModel>::empty()) == 0);
            assert(spec_count_approve_list(head) == (if votes.first().vote == VoteType::Approve {
                1nat
            } else {
                0nat
            }));
        } else {
            assert(spec_count_approve_list(head) == 0);
        }
    }
}

impl StorageManager {
    /// Writes a vote, keyed by its block hash and validator; an earlier
    /// vote under the same pair is overwritten, so the last write wins.
    #[verifier::loop_isolation(false)]
    pub fn store_vote(&mut self, vote: &BlockVote)
        requires
            old(self).wf(),
        ensures
            final(self).wf(),
            final(self)@ == (StorageModel {
                votes: spec_store_vote(old(self)@.votes, vote@),
                ..old(self)@
            }),
    {
        let ghost orig = models_of(self.votes@);
        let ghost vm = vote@;
        let mut i: usize = 0;
        assert(orig.take(0) =~= Seq::<BlockVoteModel>::empty());
        assert(orig.skip(0) =~= orig);
        while i < self.votes.len()
            invariant
                self.blocks == old(self).blocks,
                self.votes == old(self).votes,
                self.transactions == old(self).transactions,
                self.pending_transactions == old(self).pending_transactions,
                self.consensus_state == old(self).consensus_state,
                orig == models_of(self.votes@),
                vm == vote@,
                i <= orig.len(),
                forall|k: int| 0 <= k < i ==> !vote_key_is(#[trigger] orig[k], vm.block_hash, vm.validator),
                spec_store_vote(orig, vm) =~= orig.take(i as int) + spec_store_vote(
                    orig.skip(i as int),
                    vm,
                ),
            decreases orig.len() - i,
        {
            let same_hash = bytes_eq(self.votes[i].block_hash.as_slice(), vote.block_hash.as_slice());
            let same_validator = bytes_eq(self.votes[i].validator.as_slice(), vote.validator.as_slice());
            if same_hash && same_validator {
                let ghost pre = self.votes@;
                let c = vote.clone();
                self.votes.set(i, c);
                proof {
                    lemma_models_update(pre, i as int, c);
                    assert(models_of(self.votes@) == orig.update(i as int, vm));
                    assert(orig.skip(i as int).drop_first() =~= orig.skip(i + 1));
                    assert(spec_store_vote(orig.skip(i as int), vm) =~= seq![vm] + orig.skip(i + 1));
                    assert(orig.update(i as int, vm)
                        =~= orig.take(i as int) + (seq![vm] + orig.skip(i + 1)));
                    assert(self@ =~= (StorageModel {
                        votes: spec_store_vote(orig, vm),
                        ..old(self)@
                    }));
                }
                return;
            }
            assert(orig.skip(i as int).drop_first() =~= orig.skip(i + 1));
            assert(orig.take(i as int).push(orig[i as int]) =~= orig.take(i + 1));
            i = i + 1;
        }
        assert(orig.skip(i as int) =~= Seq::<BlockVoteModel>::empty());
        let ghost pre = self.votes@;
        let c = vote.clone();
        self.votes.push(c);
        proof {
            lemma_models_push(pre, c);
            assert(models_of(self.votes@) == orig.push(vm));
            assert(orig.take(orig.len() as int) =~= orig);
            assert(spec_store_vote(orig, vm) =~= orig.push(vm));
            assert(self@ =~= (StorageModel { votes: spec_store_vote(orig, vm), ..old(self)@ }));
        }
    }

    /// Reads every stored vote that carries the given block hash.
    #[verifier::loop_isolation(false)]
    pub fn get_votes_for_block(&self, block_hash: &[u8]) -> (r: Vec<BlockVote>)
        ensures
            models_of(r@) == spec_votes_for_block(self@.votes, block_hash@),
    {
        let ghost m = models_of(self.votes@);
        let mut out: Vec<BlockVote> = Vec::new();
        let mut i: usize = 0;
        assert(m.skip(0) =~= m);
        assert(models_of(out@) =~= Seq::<BlockVoteModel>::empty());
        while i < self.votes.len()
            invariant
                i <= m.len(),
                spec_votes_for_block(m, block_hash@) =~= models_of(out@) + spec_votes_for_block(
                    m.skip(i as int),
                    block_hash@,
                ),
            decreases m.len() - i,
        {
            let ghost pre = out@;
            if bytes_eq(self.votes[i].block_hash.as_slice(), block_hash) {
                let c = self.votes[i].clone();
                out.push(c);
                proof {
                    lemma_models_push(pre, c);
                }
            }
            assert(m.skip(i as int).drop_first() =~= m.skip(i + 1));
            assert(m.skip(i as int).first() == m[i as int]);
            i = i + 1;
        }
        assert(m.skip(i as int) =~= Seq::<BlockVoteModel>::empty());
        assert(spec_votes_for_block(m, block_hash@) =~= models_of(out@));
        out
    }
}

/// The first stored transaction with the given identity, if any.
pub open spec fn spec_get_transaction(txs: Seq<TransactionModel>, id: Seq<u8>) -> Option<
    TransactionModel,
>
    decreases txs.len(),
{
    if txs.len() == 0 {
        None
    } else if txs.first().id == id {
        Some(txs.first())
    } else {
        spec_get_transaction(txs.drop_first(), id)
    }
}

/// The transaction table after a write: it replaces the first transaction
/// with the same identity, or is appended if the identity is new.
pub open spec fn spec_store_transaction(txs: Seq<TransactionModel>, t: TransactionModel) -> Seq<
    TransactionModel,
>
    decreases txs.len(),
{
    if txs.len() == 0 {
        seq![t]
    } else if txs.first().id == t.id {
        seq![t] + txs.drop_first()
    } else {
        seq![txs.first()] + spec_store_transaction(txs.drop_first(), t)
    }
}

/// Whether an identity occurs in a list of identities.
pub open spec fn id_in(ids: Seq<Seq<u8>>, x: Seq<u8>) -> bool {
    exists|j: int| 0 <= j < ids.len() && ids[j] == x
}

/// The pending queue after removing every transaction whose identity is
/// in the given list.
pub open spec fn spec_remove_pending(pending: Seq<TransactionModel>, ids: Seq<Seq<u8>>) -> Seq<
    TransactionModel,
>
    decreases pending.len(),
{
    if pending.len() == 0 {
        Seq::<TransactionModel>::empty()
    } else {
        (if id_in(ids, pending.first().id) {
            Seq::<TransactionModel>::empty()
        } else {
            seq![pending.first()]
        }) + spec_remove_pending(pending.drop_first(), ids)
    }
}

impl StorageManager {
    /// Writes a transaction, keyed by its identity, and queues it as
    /// pending; an earlier transaction under the same identity is
    /// overwritten in the table, while the pending queue always grows.
    #[verifier::loop_isolation(false)]
    pub fn store_transaction(&mut self, transaction: &Transaction)
        requires
            old(self).wf(),
        ensures
            final(self).wf(),
            final(self)@ == (StorageModel {
                transactions: spec_store_transaction(old(self)@.transactions, transaction@),
                pending: old(self)@.pending.push(transaction@),
                ..old(self)@
            }),
    {
        let ghost orig = models_of(self.transactions@);
        let ghost tm = transaction@;
        let mut done: bool = false;
        let mut i: usize = 0;
        assert(orig.take(0) =~= Seq::<TransactionModel>::empty());
        assert(orig.skip(0) =~= orig);
        while i < self.transactions.len()
            invariant
                self.blocks == old(self).blocks,
                self.votes == old(self).votes,
                self.pending_transactions == old(self).pending_transactions,
                self.consensus_state == old(self).consensus_state,
                orig == models_of(old(self).transactions@),
                tm == transaction@,
                i <= orig.len(),
                !done ==> self.transactions == old(self).transactions,
                !done ==> forall|k: int| 0 <= k < i ==> (#[trigger] orig[k]).id != tm.id,
                !done ==> spec_store_transaction(orig, tm) =~= orig.take(i as int)
                    + spec_store_transaction(orig.skip(i as int), tm),
                done ==> models_of(self.transactions@) == spec_store_transaction(orig, tm),
                done ==> unique_transaction_ids(models_of(self.transactions@)),
            decreases orig.len() - i,
    {
            if done {
                break;
            }
            let same = bytes_eq(self.transactions[i].id.as_slice(), transaction.id.as_slice());
            if same {
                let ghost pre = self.transactions@;
                let c = transaction.clone();
                self.transactions.set(i, c);
                proof {
                    lemma_models_update(pre, i as int, c);
                    assert(models_of(self.transactions@) == orig.update(i as int, tm));
                    assert(orig.skip(i as int).drop_first() =~= orig.skip(i + 1));
                    assert(spec_store_transaction(orig.skip(i as int), tm)
                        =~= seq![tm] + orig.skip(i + 1));
                    assert(orig.update(i as int, tm)
                        =~= orig.take(i as int) + (seq![tm] + orig.skip(i + 1)));
                }
                done = true;
            } else {
                assert(orig.skip(i as int).drop_first() =~= orig.skip(i + 1));
                assert(orig.take(i as int).push(orig[i as int]) =~= orig.take(i + 1));
            }
            i = i + 1;
        }
        if !done {
            assert(orig.skip(i as int) =~= Seq::<TransactionModel>::empty());
            let ghost pre = self.transactions@;
            let c = transaction.clone();
            self.transactions.push(c);
            proof {
                lemma_models_push(pre, c);
                assert(orig.take(orig.len() as int) =~= orig);
                assert(spec_store_transaction(orig, tm) =~= orig.push(tm));
                assert(models_of(self.transactions@) == spec_store_transaction(orig, tm));
            }
        }
        let ghost pending_pre = self.pending_transactions@;
        let c2 = transaction.clone();
        self.pending_transactions.push(c2);
        proof {
            lemma_models_push(pending_pre, c2);
            assert(self@ =~= (StorageModel {
                transactions: spec_store_transaction(old(self)@.transactions, tm),
                pending: old(self)@.pending.push(tm),
                ..old(self)@
            }));
        }
    }

    /// Reads the transaction stored under the given identity, if any.
    #[verifier::loop_isolation(false)]
    pub fn get_transaction(&self, tx_id: &[u8]) -> (r: Option<Transaction>)
        ensures
            match r {
                Some(t) => spec_get_transaction(self@.transactions, tx_id@) == Some(t@),
                None => spec_get_transaction(self@.transactions, tx_id@) is None,
            },
    {
        let ghost m = models_of(self.transactions@);
        let mut i: usize = 0;
        assert(m.skip(0) =~= m);
        while i < self.transactions.len()
            invariant
                i <= m.len(),
                spec_get_transaction(m, tx_id@) == spec_get_transaction(m.skip(i as int), tx_id@),
            decreases m.len() - i,
        {
            if bytes_eq(self.transactions[i].id.as_slice(), tx_id) {
                assert(m.skip(i as int).first() == m[i as int]);
                return Some(self.transactions[i].clone());
            }
            assert(m.skip(i as int).drop_first() =~= m.skip(i + 1));
            i = i + 1;
        }
        assert(m.skip(i as int) =~= Seq::<TransactionModel>::empty());
        None
    }

    /// Reads the pending transaction queue, in arrival order.
    pub fn get_pending_transactions(&self) -> (r: Vec<Transaction>)
        ensures
            models_of(r@) == self@.pending,
    {
        copy_transactions(&self.pending_transactions)
    }

    /// Drops from the pending queue every transaction whose identity is
    /// in the given list.
    #[verifier::loop_isolation(false)]
    pub fn remove_pending_transactions(&mut self, tx_ids: &Vec<Vec<u8>>)
        requires
            old(self).wf(),
        ensures
            final(self).wf(),
            final(self)@ == (StorageModel {
                pending: spec_remove_pending(old(self)@.pending, models_of(tx_ids@)),
                ..old(self)@
            }),
    {
        let ghost m = models_of(self.pending_transactions@);
        let ghost ids = models_of(tx_ids@);
        let mut kept: Vec<Transaction> = Vec::new();
        let mut i: usize = 0;
        assert(m.skip(0) =~= m);
        assert(models_of(kept@) =~= Seq::<TransactionModel>::empty());
        while i < self.pending_transactions.len()
            invariant
                i <= m.len(),
                ids == models_of(tx_ids@),
                m == models_of(self.pending_transactions@),
                self.pending_transactions == old(self).pending_transactions,
                spec_remove_pending(m, ids) =~= models_of(kept@) + spec_remove_pending(
                    m.skip(i as int),
                    ids,
                ),
            decreases m.len() - i,
        {
            let ghost pre = kept@;
            if !contains_id(tx_ids, self.pending_transactions[i].id.as_slice()) {
                let c = self.pending_transactions[i].clone();
                kept.push(c);
                proof {
                    lemma_models_push(pre, c);
                }
            }
            assert(m.skip(i as int).drop_first() =~= m.skip(i + 1));
            assert(m.skip(i as int).first() == m[i as int]);
            i = i + 1;
        }
        assert(m.skip(i as int) =~= Seq::<TransactionModel>::empty());
        assert(spec_remove_pending(m, ids) =~= models_of(kept@));
        self.pending_transactions = kept;
        assert(self@ =~= (StorageModel {
            pending: spec_remove_pending(old(self)@.pending, models_of(tx_ids@)),
            ..old(self)@
        }));
    }

    /// Writes the consensus state snapshot, replacing any earlier one.
    pub fn store_consensus_state(&mut self, state: &ConsensusState)
        requires
            old(self).wf(),
        ensures
            final(self).wf(),
            final(self)@ == (StorageModel {
                consensus_state: Some(state@),
                ..old(self)@
            }),
    {
        self.consensus_state = Some(state.clone());
        assert(self@ =~= (StorageModel { consensus_state: Some(state@), ..old(self)@ }));
    }

    /// Reads the stored consensus state snapshot, if any.
    pub fn get_consensus_state(&self) -> (r: Option<ConsensusState>)
        ensures
            match r {
                Some(s) => self@.consensus_state == Some(s@),
                None => self@.consensus_state is None,
            },
    {
        match &self.consensus_state {
            Some(s) => Some(s.clone()),
            None => None,
        }
    }

    /// How many blocks are stored; while heights are unique, how many
    /// heights hold a block.
    pub fn get_block_count(&self) -> (r: u64)
        ensures
            r == self@.blocks.len(),
    {
        self.blocks.len() as u64
    }

    /// How many transactions are stored in the table.
    pub fn get_transaction_count(&self) -> (r: u64)
        ensures
            r == self@.transactions.len(),
    {
        self.transactions.len() as u64
    }

    /// Compaction of the durable layout; the in-memory stand-in has
    /// nothing to compact.
    pub fn compact(&self) {
    }

    /// A backup of the durable layout to the given path; the in-memory
    /// stand-in writes nothing.
    pub fn backup(&self, backup_path: &str) {
    }

    /// A restore of the durable layout from the given path; the
    /// in-memory stand-in reads nothing.
    pub fn restore(&self, backup_path: &str) {
    }
}

/// The store after writing each block of a batch, in order.
pub open spec fn spec_store_blocks(blocks: Seq<BlockModel>, bs: Seq<BlockModel>) -> Seq<BlockModel>
    decreases bs.len(),
{
    if bs.len() == 0 {
        blocks
    } else {
        spec_store_block(spec_store_blocks(blocks, bs.drop_last()), bs.last())
    }
}

/// The transaction table after writing each transaction of a batch.
pub open spec fn spec_store_transactions(txs: Seq<TransactionModel>, ts: Seq<TransactionModel>) -> Seq<
    TransactionModel,
>
    decreases ts.len(),
{
    if ts.len() == 0 {
        txs
    } else {
        spec_store_transaction(spec_store_transactions(txs, ts.drop_last()), ts.last())
    }
}

impl StorageManager {
    /// Writes a batch of blocks, each keyed by its height, in order.
    #[verifier::loop_isolation(false)]
    pub fn store_blocks_batch(&mut self, blocks: &Vec<Block>)
        requires
            old(self).wf(),
        ensures
            final(self).wf(),
            final(self)@ == (StorageModel {
                blocks: spec_store_blocks(old(self)@.blocks, models_of(blocks@)),
                ..old(self)@
            }),
    {
        let ghost bs = models_of(blocks@);
        let mut i: usize = 0;
        assert(bs.take(0) =~= Seq::<BlockModel>::empty());
        while i < blocks.len()
            invariant
                self.wf(),
                bs == models_of(blocks@),
                i <= bs.len(),
                self@ == (StorageModel {
                    blocks: spec_store_blocks(old(self)@.blocks, bs.take(i as int)),
                    ..old(self)@
                }),
            decreases bs.len() - i,
        {
            self.store_block(&blocks[i]);
            assert(bs.take(i + 1).drop_last() =~= bs.take(i as int));
            assert(bs.take(i + 1).last() == bs[i as int]);
            i = i + 1;
        }
        assert(bs.take(i as int) =~= bs);
    }

    /// Writes a batch of transactions, each keyed by its identity and
    /// queued as pending, in order.
    #[verifier::loop_isolation(false)]
    pub fn store_transactions_batch(&mut self, transactions: &Vec<Transaction>)
        requires
            old(self).wf(),
        ensures
            final(self).wf(),
            final(self)@ == (StorageModel {
                transactions: spec_store_transactions(
                    old(self)@.transactions,
                    models_of(transactions@),
                ),
                pending: old(self)@.pending + models_of(transactions@),
                ..old(self)@
            }),
    {
        let ghost ts = models_of(transactions@);
        let mut i: usize = 0;
        assert(ts.take(0) =~= Seq::<TransactionModel>::empty());
        assert(old(self)@.pending + ts.take(0) =~= old(self)@.pending);
        while i < transactions.len()
            invariant
                self.wf(),
                ts == models_of(transactions@),
                i <= ts.len(),
                self@ == (StorageModel {
                    transactions: spec_store_transactions(old(self)@.transactions, ts.take(i as int)),
                    pending: old(self)@.pending + ts.take(i as int),
                    ..old(self)@
                }),
            decreases ts.len() - i,
        {
            self.store_transaction(&transactions[i]);
            assert(ts.take(i + 1).drop_last() =~= ts.take(i as int));
            assert(ts.take(i + 1).last() == ts[i as int]);
            assert((old(self)@.pending + ts.take(i as int)).push(ts[i as int])
                =~= old(self)@.pending + ts.take(i + 1));
            assert(self@ =~= (StorageModel {
                transactions: spec_store_transactions(old(self)@.transactions, ts.take(i + 1)),
                pending: old(self)@.pending + ts.take(i + 1),
                ..old(self)@
            }));
            i = i + 1;
        }
        assert(ts.take(i as int) =~= ts);
    }
}

/// A fresh copy of a block sequence.
fn copy_blocks(src: &Vec<Block>) -> (r: Vec<Block>)
    ensures
        models_of(r@) == models_of(src@),
{
    let mut out: Vec<Block> = Vec::new();
    let mut i: usize = 0;
    while i < src.len()
        invariant
            i <= src@.len(),
            models_of(out@) =~= models_of(src@.take(i as int)),
        decreases src@.len() - i,
    {
        let ghost pre = out@;
        let c = src[i].clone();
        out.push(c);
        proof {
            lemma_models_push(pre, c);
            assert(models_of(src@.take(i + 1)) =~= models_of(src@.take(i as int)).push(src@[i as int]@));
        }
        i = i + 1;
    }
    assert(src@.take(i as int) =~= src@);
    out
}

/// A fresh copy of a vote sequence.
fn copy_votes(src: &Vec<BlockVote>) -> (r: Vec<BlockVote>)
    ensures
        models_of(r@) == models_of(src@),
{
    let mut out: Vec<BlockVote> = Vec::new();
    let mut i: usize = 0;
    while i < src.len()
        invariant
            i <= src@.len(),
            models_of(out@) =~= models_of(src@.take(i as int)),
        decreases src@.len() - i,
    {
        let ghost pre = out@;
        let c = src[i].clone();
        out.push(c);
        proof {
            lemma_models_push(pre, c);
            assert(models_of(src@.take(i + 1)) =~= models_of(src@.take(i as int)).push(src@[i as int]@));
        }
        i = i + 1;
    }
    assert(src@.take(i as int) =~= src@);
    out
}

impl Clone for StorageManager {
    /// A deep copy with the same mathematical value.
    fn clone(&self) -> (r: Self)
        ensures
            r@ == self@,
    {
        let r = StorageManager {
            blocks: copy_blocks(&self.blocks),
            votes: copy_votes(&self.votes),
            transactions: copy_transactions(&self.transactions),
            pending_transactions: copy_transactions(&self.pending_transactions),
            consensus_state: match &self.consensus_state {
                Some(s) => Some(s.clone()),
                None => None,
            },
        };
        assert(r@ =~= self@);
        r
    }
}

/// LAW.  A block written under its height is read back unchanged when
/// fetched by that height.
pub proof fn lemma_block_round_trip_by_height(blocks: Seq<BlockModel>, b: BlockModel)
    ensures
        spec_get_block(spec_store_block(blocks, b), b.header.block_number) == Some(b),
    decreases blocks.len(),
{
    if blocks.len() == 0 {
        assert(spec_store_block(blocks, b) =~= seq![b]);
    } else if blocks.first().header.block_number == b.header.block_number {
        assert((seq![b] + blocks.drop_first()).first() == b);
    } else {
        lemma_block_round_trip_by_height(blocks.drop_first(), b);
        let stored = seq![blocks.first()] + spec_store_block(blocks.drop_first(), b);
        assert(stored.first() == blocks.first());
        assert(stored.drop_first() =~= spec_store_block(blocks.drop_first(), b));
    }
}

/// LAW.  A block written under its height is read back unchanged when
/// fetched by its identity hash, as long as no block of another height
/// shares that hash.
pub proof fn lemma_block_round_trip_by_hash(blocks: Seq<BlockModel>, b: BlockModel)
    requires
        forall|i: int|
            0 <= i < blocks.len() && (#[trigger] blocks[i]).header.block_number
                != b.header.block_number ==> spec_block_hash(blocks[i]) != spec_block_hash(b),
    ensures
        spec_get_block_by_hash(spec_store_block(blocks, b), spec_block_hash(b)) == Some(b),
    decreases blocks.len(),
{
    if blocks.len() == 0 {
        assert(spec_store_block(blocks, b) =~= seq![b]);
    } else if blocks.first().header.block_number == b.header.block_number {
        assert((seq![b] + blocks.drop_first()).first() == b);
    } else {
        assert(blocks[0] == blocks.first());
        assert(forall|i: int|
            0 <= i < blocks.drop_first().len() ==> #[trigger] blocks.drop_first()[i] == blocks[i
                + 1]);
        lemma_block_round_trip_by_hash(blocks.drop_first(), b);
        let stored = seq![blocks.first()] + spec_store_block(blocks.drop_first(), b);
        assert(stored.first() == blocks.first());
        assert(spec_block_hash(stored.first()) != spec_block_hash(b));
        assert(stored.drop_first() =~= spec_store_block(blocks.drop_first(), b));
    }
}

/// LAW.  Writing the same block twice leaves the block store as one
/// write left it: the height holds exactly one block.
pub proof fn lemma_store_block_idempotent(blocks: Seq<BlockModel>, b: BlockModel)
    ensures
        spec_store_block(spec_store_block(blocks, b), b) == spec_store_block(blocks, b),
    decreases blocks.len(),
{
    if blocks.len() == 0 {
        assert(spec_store_block(blocks, b) =~= seq![b]);
        assert(spec_store_block(seq![b], b) =~= seq![b] + seq![b].drop_first());
        assert(seq![b] + seq![b].drop_first() =~= seq![b]);
    } else if blocks.first().header.block_number == b.header.block_number {
        let once = seq![b] + blocks.drop_first();
        assert(once.first() == b);
        assert(spec_store_block(once, b) =~= seq![b] + once.drop_first());
        assert(seq![b] + once.drop_first() =~= once);
    } else {
        lemma_store_block_idempotent(blocks.drop_first(), b);
        let once = seq![blocks.first()] + spec_store_block(blocks.drop_first(), b);
        assert(once.first() == blocks.first());
        assert(once.drop_first() =~= spec_store_block(blocks.drop_first(), b));
        assert(spec_store_block(once, b) =~= seq![blocks.first()] + spec_store_block(
            once.drop_first(),
            b,
        ));
    }
}

/// LAW.  Writing the same vote twice leaves the vote store as one write
/// left it: duplicates overwrite rather than accumulate.
pub proof fn lemma_store_vote_idempotent(votes: Seq<BlockVoteModel>, v: BlockVoteModel)
    ensures
        spec_store_vote(spec_store_vote(votes, v), v) == spec_store_vote(votes, v),
    decreases votes.len(),
{
    if votes.len() == 0 {
        assert(spec_store_vote(votes, v) =~= seq![v]);
        assert(spec_store_vote(seq![v], v) =~= seq![v] + seq![v].drop_first());
        assert(seq![v] + seq![v].drop_first() =~= seq![v]);
    } else if vote_key_is(votes.first(), v.block_hash, v.validator) {
        let once = seq![v] + votes.drop_first();
        assert(once.first() == v);
        assert(spec_store_vote(once, v) =~= seq![v] + once.drop_first());
        assert(seq![v] + once.drop_first() =~= once);
    } else {
        lemma_store_vote_idempotent(votes.drop_first(), v);
        let once = seq![votes.first()] + spec_store_vote(votes.drop_first(), v);
        assert(once.first() == votes.first());
        assert(once.drop_first() =~= spec_store_vote(votes.drop_first(), v));
        assert(spec_store_vote(once, v) =~= seq![votes.first()] + spec_store_vote(
            once.drop_first(),
            v,
        ));
    }
}

/// The transaction seeded at the given position of the demonstration
/// set: its identities are filled with small constants, its amount grows
/// with the position.
pub open spec fn spec_test_transaction(i: int, now: i64) -> TransactionModel {
    TransactionModel {
        id: Seq::new(32, |j: int| i as u8),
        from: Seq::new(32, |j: int| (i + 1) as u8),
        to: Seq::new(32, |j: int| (i + 2) as u8),
        amount: (((i + 1) * 100) as u64),
        timestamp: now,
        signature: Seq::new(64, |j: int| 0u8),
    }
}

/// Seeds the store with five demonstration transactions, stored under
/// their identities and queued as pending, timestamped now.
#[verifier::loop_isolation(false)]
pub fn create_test_transactions(storage: &mut StorageManager, now: i64)
    requires
        old(storage).wf(),
    ensures
        final(storage).wf(),
        final(storage)@ == (StorageModel {
            transactions: spec_store_transactions(
                old(storage)@.transactions,
                Seq::new(5, |i: int| spec_test_transaction(i, now)),
            ),
            pending: old(storage)@.pending + Seq::new(5, |i: int| spec_test_transaction(i, now)),
            ..old(storage)@
        }),
{
    let ghost ts = Seq::new(5, |i: int| spec_test_transaction(i, now));
    let mut i: usize = 0;
    assert(ts.take(0) =~= Seq::<TransactionModel>::empty());
    assert(old(storage)@.pending + ts.take(0) =~= old(storage)@.pending);
    while i < 5
        invariant
            i <= 5,
            storage.wf(),
            storage@ == (StorageModel {
                transactions: spec_store_transactions(old(storage)@.transactions, ts.take(i as int)),
                pending: old(storage)@.pending + ts.take(i as int),
                ..old(storage)@
            }),
        decreases 5 - i,
    {
        let tx = Transaction {
            id: crate::codec::filled_bytes(32, i as u8),
            from: crate::codec::filled_bytes(32, (i + 1) as u8),
            to: crate::codec::filled_bytes(32, (i + 2) as u8),
            amount: ((i + 1) as u64) * 100,
            timestamp: now,
            signature: crate::codec::filled_bytes(64, 0),
        };
        assert(tx@ =~= spec_test_transaction(i as int, now));
        storage.store_transaction(&tx);
        assert(ts.take(i + 1).drop_last() =~= ts.take(i as int));
        assert(ts.take(i + 1).last() == ts[i as int]);
        assert((old(storage)@.pending + ts.take(i as int)).push(ts[i as int]) =~= old(storage)@.pending
            + ts.take(i + 1));
        assert(storage@ =~= (StorageModel {
            transactions: spec_store_transactions(old(storage)@.transactions, ts.take(i + 1)),
            pending: old(storage)@.pending + ts.take(i + 1),
            ..old(storage)@
        }));
        i = i + 1;
    }
    assert(ts.take(i as int) =~= ts);
}

/// Whether an identity occurs in the list, byte for byte.
#[verifier::loop_isolation(false)]
fn contains_id(ids: &Vec<Vec<u8>>, id: &[u8]) -> (r: bool)
    ensures
        r == id_in(models_of(ids@), id@),
{
    let mut i: usize = 0;
    while i < ids.len()
        invariant
            i <= ids@.len(),
            forall|j: int| 0 <= j < i ==> models_of(ids@)[j] != id@,
        decreases ids@.len() - i,
    {
        if bytes_eq(ids[i].as_slice(), id) {
            assert(models_of(ids@)[i as int] == id@);
            return true;
        }
        i = i + 1;
    }
    false
}

} // verus!
