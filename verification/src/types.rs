//! The consensus data model.
//!
//! Timestamps are unix seconds.  Hashes, node identities and transaction
//! identities are byte strings; a well-formed hash or identity is 32 bytes
//! long, but no function of this crate assumes that of its inputs.
//! A validator's performance score is kept in hundredths, so a score of
//! `50` stands for one half; the score always lies in `0 ..= 100`.

use vstd::prelude::*;
use crate::codec::copy_bytes;

verus! {

/// A block: header, ordered transactions, and the attached validity proof.
#[derive(Debug, PartialEq, Eq)]
pub struct Block {
    pub header: BlockHeader,
    pub transactions: Vec<Transaction>,
    pub zk_proof: ZKProof,
}

/// The header of a block.  `block_number` must be the parent's number plus
/// one and `merkle_root` must be the Merkle aggregation of the block's
/// transactions; both are checked, never trusted.
#[derive(Debug, PartialEq, Eq)]
pub struct BlockHeader {
    pub block_number: u64,
    pub parent_hash: Vec<u8>,
    pub timestamp: i64,
    pub merkle_root: Vec<u8>,
    pub validator: Vec<u8>,
    pub difficulty: u64,
    pub nonce: u64,
}

/// A transfer; opaque to the state machine beyond hashing and ordering.
#[derive(Debug, PartialEq, Eq)]
pub struct Transaction {
    pub id: Vec<u8>,
    pub from: Vec<u8>,
    pub to: Vec<u8>,
    pub amount: u64,
    pub timestamp: i64,
    pub signature: Vec<u8>,
}

/// An opaque, verifiable attestation that the block's public inputs follow
/// validly from its transactions.
#[derive(Debug, PartialEq, Eq)]
pub struct ZKProof {
    pub proof_data: Vec<u8>,
    pub public_inputs: Vec<u8>,
    pub verification_key: Vec<u8>,
    pub proof_type: ProofType,
}

/// The proof system a proof was produced under.
#[derive(Debug, Clone, Copy, PartialEq, Eq, Structural)]
pub enum ProofType {
    Groth16,
    Plonk,
    Nova,
}

/// A validator's stake, activity and decaying performance score.
#[derive(Debug, Clone, Copy, PartialEq, Eq, Structural)]
pub struct ValidatorInfo {
    pub stake: u64,
    pub is_active: bool,
    pub last_block_time: i64,
    /// Performance score in hundredths, always in `0 ..= 100`.
    pub performance_score: u32,
}

/// One validator of the registry: identity and bookkeeping.
#[derive(Debug, PartialEq, Eq)]
pub struct ValidatorEntry {
    pub node_id: Vec<u8>,
    pub info: ValidatorInfo,
}

/// The state the consensus machine owns: finalized height, validator
/// registry, total stake and epoch.
#[derive(Debug, PartialEq, Eq)]
pub struct ConsensusState {
    pub current_block: u64,
    pub validators: Vec<ValidatorEntry>,
    pub total_stake: u64,
    pub epoch: u64,
}

/// A vote on a block; one logical vote per validator and block hash,
/// duplicates overwrite.
#[derive(Debug, PartialEq, Eq)]
pub struct BlockVote {
    pub block_hash: Vec<u8>,
    pub validator: Vec<u8>,
    pub vote: VoteType,
    pub timestamp: i64,
    pub signature: Vec<u8>,
}

/// A vote's verdict.
#[derive(Debug, Clone, Copy, PartialEq, Eq, Structural)]
pub enum VoteType {
    Approve,
    Reject,
    Abstain,
}

/// A request for an on-demand proof of a stored block.
#[derive(Debug, PartialEq, Eq)]
pub struct ProofRequest {
    pub block_number: u64,
    pub request_id: Vec<u8>,
    pub requester: Vec<u8>,
}

/// The answer to a [`ProofRequest`].
#[derive(Debug, PartialEq, Eq)]
pub struct ProofResponse {
    pub request_id: Vec<u8>,
    pub proof: ZKProof,
    pub responder: Vec<u8>,
}

/// A typed consensus message, as the bus delivers and broadcasts it.
#[derive(Debug, PartialEq, Eq)]
pub enum ConsensusMessage {
    NewBlock(Block),
    BlockVote(BlockVote),
    ConsensusState(ConsensusState),
    ZKProofRequest(ProofRequest),
    ZKProofResponse(ProofResponse),
}

/// The mathematical value of a [`BlockHeader`].
#[verifier::ext_equal]
pub ghost struct BlockHeaderModel {
    pub block_number: u64,
    pub parent_hash: Seq<u8>,
    pub timestamp: i64,
    pub merkle_root: Seq<u8>,
    pub validator: Seq<u8>,
    pub difficulty: u64,
    pub nonce: u64,
}

/// The mathematical value of a [`Transaction`].
#[verifier::ext_equal]
pub ghost struct TransactionModel {
    pub id: Seq<u8>,
    pub from: Seq<u8>,
    pub to: Seq<u8>,
    pub amount: u64,
    pub timestamp: i64,
    pub signature: Seq<u8>,
}

/// The mathematical value of a [`ZKProof`].
#[verifier::ext_equal]
pub ghost struct ZKProofModel {
    pub proof_data: Seq<u8>,
    pub public_inputs: Seq<u8>,
    pub verification_key: Seq<u8>,
    pub proof_type: ProofType,
}

/// The mathematical value of a [`Block`].
#[verifier::ext_equal]
pub ghost struct BlockModel {
    pub header: BlockHeaderModel,
    pub transactions: Seq<TransactionModel>,
    pub zk_proof: ZKProofModel,
}

/// The mathematical value of a [`ValidatorEntry`].
#[verifier::ext_equal]
pub ghost struct ValidatorEntryModel {
    pub node_id: Seq<u8>,
    pub info: ValidatorInfo,
}

/// The mathematical value of a [`ConsensusState`].
#[verifier::ext_equal]
pub ghost struct ConsensusStateModel {
    pub current_block: u64,
    pub validators: Seq<ValidatorEntryModel>,
    pub total_stake: u64,
    pub epoch: u64,
}

/// The mathematical value of a [`BlockVote`].
#[verifier::ext_equal]
pub ghost struct BlockVoteModel {
    pub block_hash: Seq<u8>,
    pub validator: Seq<u8>,
    pub vote: VoteType,
    pub timestamp: i64,
    pub signature: Seq<u8>,
}

/// The mathematical value of a [`ProofRequest`].
#[verifier::ext_equal]
pub ghost struct ProofRequestModel {
    pub block_number: u64,
    pub request_id: Seq<u8>,
    pub requester: Seq<u8>,
}

/// The mathematical value of a [`ProofResponse`].
#[verifier::ext_equal]
pub ghost struct ProofResponseModel {
    pub request_id: Seq<u8>,
    pub proof: ZKProofModel,
    pub responder: Seq<u8>,
}

impl View for BlockHeader {
    type V = BlockHeaderModel;

    open spec fn view(&self) -> BlockHeaderModel {
        BlockHeaderModel {
            block_number: self.block_number,
            parent_hash: self.parent_hash@,
            timestamp: self.timestamp,
            merkle_root: self.merkle_root@,
            validator: self.validator@,
            difficulty: self.difficulty,
            nonce: self.nonce,
        }
    }
}

impl View for Transaction {
    type V = TransactionModel;

    open spec fn view(&self) -> TransactionModel {
        TransactionModel {
            id: self.id@,
            from: self.from@,
            to: self.to@,
            amount: self.amount,
            timestamp: self.timestamp,
            signature: self.signature@,
        }
    }
}

impl View for ZKProof {
    type V = ZKProofModel;

    open spec fn view(&self) -> ZKProofModel {
        ZKProofModel {
            proof_data: self.proof_data@,
            public_inputs: self.public_inputs@,
            verification_key: self.verification_key@,
            proof_type: self.proof_type,
        }
    }
}

/// The sequence of mathematical values of a sequence of values.
pub open spec fn models_of<T: View>(s: Seq<T>) -> Seq<T::V> {
    s.map_values(|x: T| x@)
}

pub proof fn lemma_models_push<T: View>(s: Seq<T>, x: T)
    ensures
        models_of(s.push(x)) == models_of(s).push(x@),
{
    assert(models_of(s.push(x)) =~= models_of(s).push(x@));
}

pub proof fn lemma_models_update<T: View>(s: Seq<T>, i: int, x: T)
    requires
        0 <= i < s.len(),
    ensures
        models_of(s.update(i, x)) == models_of(s).update(i, x@),
{
    assert(models_of(s.update(i, x)) =~= models_of(s).update(i, x@));
}


impl View for Block {
    type V = BlockModel;

    open spec fn view(&self) -> BlockModel {
        BlockModel {
            header: self.header@,
            transactions: models_of(self.transactions@),
            zk_proof: self.zk_proof@,
        }
    }
}

impl View for ValidatorEntry {
    type V = ValidatorEntryModel;

    open spec fn view(&self) -> ValidatorEntryModel {
        ValidatorEntryModel { node_id: self.node_id@, info: self.info }
    }
}

impl View for ConsensusState {
    type V = ConsensusStateModel;

    open spec fn view(&self) -> ConsensusStateModel {
        ConsensusStateModel {
            current_block: self.current_block,
            validators: models_of(self.validators@),
            total_stake: self.total_stake,
            epoch: self.epoch,
        }
    }
}

impl View for BlockVote {
    type V = BlockVoteModel;

    open spec fn view(&self) -> BlockVoteModel {
        BlockVoteModel {
            block_hash: self.block_hash@,
            validator: self.validator@,
            vote: self.vote,
            timestamp: self.timestamp,
            signature: self.signature@,
        }
    }
}

impl View for ProofRequest {
    type V = ProofRequestModel;

    open spec fn view(&self) -> ProofRequestModel {
        ProofRequestModel {
            block_number: self.block_number,
            request_id: self.request_id@,
            requester: self.requester@,
        }
    }
}

impl View for ProofResponse {
    type V = ProofResponseModel;

    open spec fn view(&self) -> ProofResponseModel {
        ProofResponseModel {
            request_id: self.request_id@,
            proof: self.proof@,
            responder: self.responder@,
        }
    }
}

impl Clone for BlockHeader {
    fn clone(&self) -> (r: Self)
        ensures
            r@ == self@,
    {
        BlockHeader {
            block_number: self.block_number,
            parent_hash: copy_bytes(self.parent_hash.as_slice()),
            timestamp: self.timestamp,
            merkle_root: copy_bytes(self.merkle_root.as_slice()),
            validator: copy_bytes(self.validator.as_slice()),
            difficulty: self.difficulty,
            nonce: self.nonce,
        }
    }
}

impl Clone for Transaction {
    fn clone(&self) -> (r: Self)
        ensures
            r@ == self@,
    {
        Transaction {
            id: copy_bytes(self.id.as_slice()),
            from: copy_bytes(self.from.as_slice()),
            to: copy_bytes(self.to.as_slice()),
            amount: self.amount,
            timestamp: self.timestamp,
            signature: copy_bytes(self.signature.as_slice()),
        }
    }
}

impl Clone for ZKProof {
    fn clone(&self) -> (r: Self)
        ensures
            r@ == self@,
    {
        ZKProof {
            proof_data: copy_bytes(self.proof_data.as_slice()),
            public_inputs: copy_bytes(self.public_inputs.as_slice()),
            verification_key: copy_bytes(self.verification_key.as_slice()),
            proof_type: self.proof_type,
        }
    }
}

/// A fresh copy of a transaction sequence.
pub fn copy_transactions(src: &Vec<Transaction>) -> (r: Vec<Transaction>)
    ensures
        models_of(r@) == models_of(src@),
{
    let mut out: Vec<Transaction> = Vec::new();
    let mut i: usize = 0;
    while i < src.len()
        invariant
            i <= src@.len(),
            models_of(out@) =~= models_of(src@.take(i as int)),
        decreases src@.len() - i,
    {
        out.push(src[i].clone());
        assert(models_of(out@) =~= models_of(src@.take(i + 1))) by {
            assert(out@.map_values(|x: Transaction| x@).last() == src@[i as int]@);
            assert(src@.take(i + 1).map_values(|x: Transaction| x@)
                =~= src@.take(i as int).map_values(|x: Transaction| x@).push(src@[i as int]@));
        }
        i = i + 1;
    }
    assert(src@.take(i as int) =~= src@);
    out
}

impl Clone for Block {
    fn clone(&self) -> (r: Self)
        ensures
            r@ == self@,
    {
        Block {
            header: self.header.clone(),
            transactions: copy_transactions(&self.transactions),
            zk_proof: self.zk_proof.clone(),
        }
    }
}

impl Clone for ValidatorEntry {
    fn clone(&self) -> (r: Self)
        ensures
            r@ == self@,
    {
        ValidatorEntry { node_id: copy_bytes(self.node_id.as_slice()), info: self.info }
    }
}

/// A fresh copy of a validator registry.
pub fn copy_validators(src: &Vec<ValidatorEntry>) -> (r: Vec<ValidatorEntry>)
    ensures
        models_of(r@) == models_of(src@),
{
    let mut out: Vec<ValidatorEntry> = Vec::new();
    let mut i: usize = 0;
    while i < src.len()
        invariant
            i <= src@.len(),
            models_of(out@) =~= models_of(src@.take(i as int)),
        decreases src@.len() - i,
    {
        out.push(src[i].clone());
        assert(models_of(out@) =~= models_of(src@.take(i + 1))) by {
            assert(src@.take(i + 1).map_values(|x: ValidatorEntry| x@)
                =~= src@.take(i as int).map_values(|x: ValidatorEntry| x@).push(src@[i as int]@));
        }
        i = i + 1;
    }
    assert(src@.take(i as int) =~= src@);
    out
}

impl Clone for ConsensusState {
    fn clone(&self) -> (r: Self)
        ensures
            r@ == self@,
    {
        ConsensusState {
            current_block: self.current_block,
            validators: copy_validators(&self.validators),
            total_stake: self.total_stake,
            epoch: self.epoch,
        }
    }
}

impl Clone for BlockVote {
    fn clone(&self) -> (r: Self)
        ensures
            r@ == self@,
    {
        BlockVote {
            block_hash: copy_bytes(self.block_hash.as_slice()),
            validator: copy_bytes(self.validator.as_slice()),
            vote: self.vote,
            timestamp: self.timestamp,
            signature: copy_bytes(self.signature.as_slice()),
        }
    }
}

impl Clone for ProofRequest {
    fn clone(&self) -> (r: Self)
        ensures
            r@ == self@,
    {
        ProofRequest {
            block_number: self.block_number,
            request_id: copy_bytes(self.request_id.as_slice()),
            requester: copy_bytes(self.requester.as_slice()),
        }
    }
}

impl Clone for ProofResponse {
    fn clone(&self) -> (r: Self)
        ensures
            r@ == self@,
    {
        ProofResponse {
            request_id: copy_bytes(self.request_id.as_slice()),
            proof: self.proof.clone(),
            responder: copy_bytes(self.responder.as_slice()),
        }
    }
}

} // verus!
