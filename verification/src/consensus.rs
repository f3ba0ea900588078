//! The consensus state machine: block proposal, structural and proof
//! verification, vote aggregation, finality and validator bookkeeping.
//!
//! The engine is a deterministic, replayable core.  Every handler takes
//! the clock reading as an argument and returns the messages to
//! broadcast; the surrounding process runs the timer, the bus and the
//! delivery loop.  Each handler's effect on the engine equals a spec
//! transition function of the engine's mathematical value, so whole
//! delivery sequences can be reasoned about above the code.

use vstd::prelude::*;
use crate::codec::{push_u64_le, copy_bytes, bytes_eq, zero32, zero32_bytes};
use crate::commitment::{sha256, spec_block_hash, spec_merkle_root, calculate_merkle_root};
use crate::registry::{spec_is_eligible, spec_decay_validators};
use crate::storage::{
    StorageManager, StorageModel, storage_model_wf, spec_store_block, spec_store_vote,
    spec_count_approvals, spec_count_approve_list, spec_latest_block, spec_get_block,
    lemma_count_approvals_via_list,
};
use crate::types::{
    Block, BlockHeader, BlockVote, ConsensusMessage, ConsensusState, ConsensusStateModel,
    ProofRequest, ProofResponse, ProofResponseModel, ProofType, Transaction, VoteType, ZKProof,
    BlockModel, BlockHeaderModel, BlockVoteModel, ZKProofModel, models_of,
};
use crate::zk_proof::{ZKProofGenerator, spec_generate_proof, spec_verify_proof, random_bytes32};

verus! {

/// Relies on chrono's `Utc::now`: the clock reading in unix seconds;
/// nothing is promised of its value.
#[verifier::external_body]
fn now_seconds() -> (r: i64) {
    chrono::Utc::now().timestamp()
}

/// The mathematical value of the engine.
#[verifier::ext_equal]
pub ghost struct EngineModel {
    pub state: ConsensusStateModel,
    pub storage: StorageModel,
    pub node_id: Seq<u8>,
    pub block_time: i64,
    pub min_validators: usize,
}

/// The engine: consensus state, store, proof gateway, identity and the
/// two configuration constants.
pub struct ConsensusEngine {
    zk_generator: ZKProofGenerator,
    storage: StorageManager,
    state: ConsensusState,
    node_id: Vec<u8>,
    block_time: i64,
    min_validators: usize,
}

impl View for ConsensusEngine {
    type V = EngineModel;

    closed spec fn view(&self) -> EngineModel {
        EngineModel {
            state: self.state@,
            storage: self.storage@,
            node_id: self.node_id@,
            block_time: self.block_time,
            min_validators: self.min_validators,
        }
    }
}

/// The hash a block's parent field must carry: the stored latest block's
/// identity, or the all-zero sentinel while nothing is stored.
pub open spec fn spec_expected_parent(blocks: Seq<BlockModel>) -> Seq<u8> {
    match spec_latest_block(blocks) {
        None => zero32(),
        Some(p) => spec_block_hash(p),
    }
}

/// The structural rule on an incoming block: its height is the next one,
/// its parent field carries the expected parent hash, and its Merkle
/// root is recomputed from its transactions and matches.
pub open spec fn spec_structure_ok(m: EngineModel, b: BlockModel) -> bool {
    &&& b.header.block_number == m.state.current_block + 1
    &&& b.header.parent_hash == spec_expected_parent(m.storage.blocks)
    &&& b.header.merkle_root == spec_merkle_root(b.transactions)
}

/// Whether an incoming block is accepted: its proof passes the gateway
/// and its structure passes the rule above.
pub open spec fn spec_accepts_block(m: EngineModel, b: BlockModel) -> bool {
    spec_verify_proof(b.zk_proof) && spec_structure_ok(m, b)
}

/// The engine's own approve vote for an accepted block.
pub open spec fn spec_self_vote(m: EngineModel, b: BlockModel, now: i64) -> BlockVoteModel {
    BlockVoteModel {
        block_hash: spec_block_hash(b),
        validator: m.node_id,
        vote: VoteType::Approve,
        timestamp: now,
        signature: Seq::<u8>::empty(),
    }
}

/// The engine after an incoming block: an accepted block is stored under
/// its height; a rejected one changes nothing.
pub open spec fn spec_handle_new_block(m: EngineModel, b: BlockModel) -> EngineModel {
    if spec_accepts_block(m, b) {
        EngineModel {
            storage: StorageModel { blocks: spec_store_block(m.storage.blocks, b), ..m.storage },
            ..m
        }
    } else {
        m
    }
}

/// The next height, held at the top of the range.
pub open spec fn spec_saturating_inc(h: u64) -> u64 {
    if h == u64::MAX {
        h
    } else {
        (h + 1) as u64
    }
}

/// The engine after the finality check on a block hash: when the stored
/// approve votes for it reach the quorum, the height advances by exactly
/// one; otherwise nothing changes.
pub open spec fn spec_check_finality(m: EngineModel, h: Seq<u8>) -> EngineModel {
    if spec_count_approvals(m.storage.votes, h) >= m.min_validators {
        EngineModel {
            state: ConsensusStateModel {
                current_block: spec_saturating_inc(m.state.current_block),
                ..m.state
            },
            ..m
        }
    } else {
        m
    }
}

/// The engine after an incoming vote: the vote is stored, last write
/// winning per validator and block hash, and finality is recomputed for
/// the named block.
pub open spec fn spec_handle_block_vote(m: EngineModel, v: BlockVoteModel) -> EngineModel {
    let stored = EngineModel {
        storage: StorageModel { votes: spec_store_vote(m.storage.votes, v), ..m.storage },
        ..m
    };
    spec_check_finality(stored, v.block_hash)
}

/// The engine after one delivered message.  A state snapshot replaces
/// the local state wholesale; proof requests and responses mutate
/// nothing.
pub open spec fn spec_step(m: EngineModel, msg: ConsensusMessage) -> EngineModel {
    match msg {
        ConsensusMessage::NewBlock(b) => spec_handle_new_block(m, b@),
        ConsensusMessage::BlockVote(v) => spec_handle_block_vote(m, v@),
        ConsensusMessage::ConsensusState(s) => EngineModel { state: s@, ..m },
        ConsensusMessage::ZKProofRequest(_) => m,
        ConsensusMessage::ZKProofResponse(_) => m,
    }
}

/// The engine after a sequence of delivered messages, in order.
pub open spec fn spec_run(m: EngineModel, msgs: Seq<ConsensusMessage>) -> EngineModel
    decreases msgs.len(),
{
    if msgs.len() == 0 {
        m
    } else {
        spec_run(spec_step(m, msgs.first()), msgs.drop_first())
    }
}

/// Whether this node proposes on a tick: it is an eligible validator,
/// and the block interval has passed since the latest stored block, if
/// there is one.
pub open spec fn spec_should_propose(m: EngineModel, now: i64) -> bool {
    &&& spec_is_eligible(m.state.validators, m.node_id)
    &&& match spec_latest_block(m.storage.blocks) {
        Some(b) => now - b.header.timestamp >= m.block_time,
        None => true,
    }
}

/// The block this engine proposes at the given time: the pending
/// transactions under a header at the next height, carrying the expected
/// parent hash, the recomputed Merkle root and the generated proof.
pub open spec fn spec_proposed_block(m: EngineModel, now: i64) -> BlockModel {
    let header = BlockHeaderModel {
        block_number: (m.state.current_block + 1) as u64,
        parent_hash: spec_expected_parent(m.storage.blocks),
        timestamp: now,
        merkle_root: spec_merkle_root(m.storage.pending),
        validator: m.node_id,
        difficulty: 1000,
        nonce: 0,
    };
    let bare = BlockModel {
        header,
        transactions: m.storage.pending,
        zk_proof: ZKProofModel {
            proof_data: Seq::<u8>::empty(),
            public_inputs: Seq::<u8>::empty(),
            verification_key: Seq::<u8>::empty(),
            proof_type: ProofType::Groth16,
        },
    };
    BlockModel { zk_proof: spec_generate_proof(bare), ..bare }
}

/// The engine after proposing: the proposed block is stored under its
/// height.
pub open spec fn spec_propose(m: EngineModel, now: i64) -> EngineModel {
    EngineModel {
        storage: StorageModel {
            blocks: spec_store_block(m.storage.blocks, spec_proposed_block(m, now)),
            ..m.storage
        },
        ..m
    }
}

/// The engine after one timer tick: a proposal when it is due, then one
/// round of the score rule.
pub open spec fn spec_tick(m: EngineModel, now: i64) -> EngineModel {
    let after = if spec_should_propose(m, now) {
        spec_propose(m, now)
    } else {
        m
    };
    EngineModel {
        state: ConsensusStateModel {
            validators: spec_decay_validators(after.state.validators, now),
            ..after.state
        },
        ..after
    }
}

impl ConsensusEngine {
    /// The store holds every key at most once.
    pub open spec fn wf(&self) -> bool {
        storage_model_wf(self@.storage)
    }

    /// A fresh node identity: the hash of random bytes and the clock.
    fn generate_node_id() -> (r: Vec<u8>)
        ensures
            r@.len() == 32,
    {
        let mut data = random_bytes32();
        let t = now_seconds();
        push_u64_le(&mut data, #[verifier::truncate] (t as u64));
        sha256(data.as_slice())
    }

    /// A fresh engine over the given gateway and store: height zero, no
    /// validators, a twelve-second block interval and a quorum of three.
    pub fn new(zk_generator: ZKProofGenerator, storage: StorageManager) -> (r: Self)
        requires
            storage.wf(),
        ensures
            r.wf(),
            r@.state == (ConsensusStateModel {
                current_block: 0,
                validators: Seq::empty(),
                total_stake: 0,
                epoch: 0,
            }),
            r@.storage == storage@,
            r@.node_id.len() == 32,
            r@.block_time == 12,
            r@.min_validators == 3,
    {
        let node_id = Self::generate_node_id();
        let state = ConsensusState {
            current_block: 0,
            validators: Vec::new(),
            total_stake: 0,
            epoch: 0,
        };
        let r = ConsensusEngine {
            zk_generator,
            storage,
            state,
            node_id,
            block_time: 12,
            min_validators: 3,
        };
        assert(r@.state =~= (ConsensusStateModel {
            current_block: 0,
            validators: Seq::empty(),
            total_stake: 0,
            epoch: 0,
        })) by {
            assert(models_of(r.state.validators@) =~= Seq::<
                crate::types::ValidatorEntryModel,
            >::empty());
        }
        r
    }

    /// This node's identity.
    pub fn node_id(&self) -> (r: Vec<u8>)
        ensures
            r@ == self@.node_id,
    {
        copy_bytes(self.node_id.as_slice())
    }

    /// The finalized height.
    pub fn current_block(&self) -> (r: u64)
        ensures
            r == self@.state.current_block,
    {
        self.state.current_block
    }

    /// The fixed number of approve votes that finalizes a block.
    pub fn quorum_size(&self) -> (r: usize)
        ensures
            r == self@.min_validators,
    {
        self.min_validators
    }

    /// The fixed interval between proposals, in seconds.
    pub fn block_time(&self) -> (r: i64)
        ensures
            r == self@.block_time,
    {
        self.block_time
    }

    /// A snapshot of the consensus state.
    pub fn consensus_state(&self) -> (r: ConsensusState)
        ensures
            r@ == self@.state,
    {
        self.state.clone()
    }

    /// The store, for read access beside the engine.
    pub fn storage(&self) -> (r: &StorageManager)
        ensures
            r@ == self@.storage,
    {
        &self.storage
    }

    /// The fixed difficulty attached to every proposed header.
    pub fn calculate_difficulty(&self) -> (r: u64)
        ensures
            r == 1000,
    {
        1000
    }

    /// The structural rule on an incoming block: sequential height,
    /// expected parent hash, and a Merkle root that is recomputed from
    /// the block's transactions, never trusted from the header.
    pub fn verify_block_structure(&self, block: &Block) -> (r: bool)
        ensures
            r == spec_structure_ok(self@, block@),
    {
        if !(block.header.block_number >= 1 && block.header.block_number - 1
            == self.state.current_block) {
            return false;
        }
        let expected_parent = match self.storage.get_latest_block() {
            Some(last) => last.hash(),
            None => zero32_bytes(),
        };
        if !bytes_eq(block.header.parent_hash.as_slice(), expected_parent.as_slice()) {
            return false;
        }
        let calculated_root = calculate_merkle_root(&block.transactions);
        if !bytes_eq(block.header.merkle_root.as_slice(), calculated_root.as_slice()) {
            return false;
        }
        true
    }

    /// The vote authentication rule; a stand-in that accepts every vote,
    /// as the signature scheme is an external collaborator.
    pub fn verify_vote_signature(&self, vote: &BlockVote) -> (r: bool)
        ensures
            r == true,
    {
        true
    }

    /// Recomputes finality for a block hash: counts the stored approve
    /// votes for it and advances the height by exactly one when they
    /// reach the quorum.
    #[verifier::loop_isolation(false)]
    pub fn check_block_finality(&mut self, block_hash: &[u8])
        requires
            old(self).wf(),
            old(self)@.state.current_block < u64::MAX,
        ensures
            final(self).wf(),
            final(self)@ == spec_check_finality(old(self)@, block_hash@),
    {
        let votes = self.storage.get_votes_for_block(block_hash);
        let ghost vm = models_of(votes@);
        let mut approve_votes: usize = 0;
        let mut i: usize = 0;
        assert(vm.take(0) =~= Seq::<BlockVoteModel>::empty());
        while i < votes.len()
            invariant
                i <= vm.len(),
                approve_votes == spec_count_approve_list(vm.take(i as int)),
                approve_votes <= i,
            decreases vm.len() - i,
        {
            if votes[i].vote == VoteType::Approve {
                approve_votes = approve_votes + 1;
            }
            assert(vm.take(i + 1).drop_last() =~= vm.take(i as int));
            assert(vm.take(i + 1).last() == vm[i as int]);
            i = i + 1;
        }
        assert(vm.take(i as int) =~= vm);
        proof {
            lemma_count_approvals_via_list(self@.storage.votes, block_hash@);
        }
        if approve_votes >= self.min_validators {
            self.state.current_block = self.state.current_block + 1;
            assert(self@ =~= spec_check_finality(old(self)@, block_hash@));
        } else {
            assert(self@ =~= spec_check_finality(old(self)@, block_hash@));
        }
    }

    /// Handles an incoming block: rejects it silently unless its proof
    /// and structure pass, otherwise stores it and answers with this
    /// node's approve vote, timestamped now, for the bus to broadcast.
    pub fn handle_new_block(&mut self, block: Block, now: i64) -> (r: Option<BlockVote>)
        requires
            old(self).wf(),
        ensures
            final(self).wf(),
            final(self)@ == spec_handle_new_block(old(self)@, block@),
            match r {
                Some(v) => spec_accepts_block(old(self)@, block@) && v@ == spec_self_vote(
                    old(self)@,
                    block@,
                    now,
                ),
                None => !spec_accepts_block(old(self)@, block@),
            },
    {
        if !self.zk_generator.verify_proof(&block.zk_proof) {
            assert(self@ =~= spec_handle_new_block(old(self)@, block@));
            return None;
        }
        if !self.verify_block_structure(&block) {
            assert(self@ =~= spec_handle_new_block(old(self)@, block@));
            return None;
        }
        self.storage.store_block(&block);
        let vote = BlockVote {
            block_hash: block.hash(),
            validator: copy_bytes(self.node_id.as_slice()),
            vote: VoteType::Approve,
            timestamp: now,
            signature: Vec::new(),
        };
        assert(self@ =~= spec_handle_new_block(old(self)@, block@));
        assert(vote@ =~= spec_self_vote(old(self)@, block@, now));
        Some(vote)
    }

    /// Handles an incoming vote: authenticates it, stores it with the
    /// last write winning per validator and block hash, and recomputes
    /// finality for the named block.
    pub fn handle_block_vote(&mut self, vote: BlockVote)
        requires
            old(self).wf(),
            old(self)@.state.current_block < u64::MAX,
        ensures
            final(self).wf(),
            final(self)@ == spec_handle_block_vote(old(self)@, vote@),
    {
        if !self.verify_vote_signature(&vote) {
            return;
        }
        self.storage.store_vote(&vote);
        self.check_block_finality(vote.block_hash.as_slice());
        assert(self@ =~= spec_handle_block_vote(old(self)@, vote@));
    }

    /// Handles a peer's state snapshot: the local state is replaced
    /// wholesale; the last snapshot wins.
    pub fn handle_consensus_state(&mut self, state: ConsensusState)
        requires
            old(self).wf(),
        ensures
            final(self).wf(),
            final(self)@ == (EngineModel { state: state@, ..old(self)@ }),
    {
        self.state = state;
        assert(self@ =~= (EngineModel { state: state@, ..old(self)@ }));
    }

    /// Handles a proof request: generates a proof for the stored block
    /// of the requested height and answers the requester; a height with
    /// no stored block draws no answer.
    pub fn handle_proof_request(&self, request: &ProofRequest) -> (r: Option<ProofResponse>)
        ensures
            match r {
                Some(resp) => {
                    &&& spec_get_block(self@.storage.blocks, request.block_number) matches Some(b)
                    &&& resp@ == (ProofResponseModel {
                        request_id: request@.request_id,
                        proof: spec_generate_proof(b),
                        responder: self@.node_id,
                    })
                },
                None => spec_get_block(self@.storage.blocks, request.block_number) is None,
            },
    {
        match self.storage.get_block(request.block_number) {
            Some(block) => {
                let proof = self.zk_generator.generate_proof(&block);
                let resp = ProofResponse {
                    request_id: copy_bytes(request.request_id.as_slice()),
                    proof,
                    responder: copy_bytes(self.node_id.as_slice()),
                };
                assert(resp@ =~= (ProofResponseModel {
                    request_id: request@.request_id,
                    proof: spec_generate_proof(spec_get_block(
                        self@.storage.blocks,
                        request.block_number,
                    )->Some_0),
                    responder: self@.node_id,
                }));
                Some(resp)
            },
            None => None,
        }
    }

    /// Handles a proof response: verifies the carried proof and reports
    /// the verdict; nothing else changes either way.
    pub fn handle_proof_response(&self, response: &ProofResponse) -> (r: bool)
        ensures
            r == spec_verify_proof(response@.proof),
    {
        self.zk_generator.verify_proof(&response.proof)
    }

    /// Handles one delivered message and returns the messages to
    /// broadcast: the self vote for an accepted block, or the answer to
    /// a proof request.
    pub fn handle_message(&mut self, message: ConsensusMessage, now: i64) -> (r: Vec<
        ConsensusMessage,
    >)
        requires
            old(self).wf(),
            old(self)@.state.current_block < u64::MAX,
        ensures
            final(self).wf(),
            final(self)@ == spec_step(old(self)@, message),
            match message {
                ConsensusMessage::NewBlock(b) => {
                    if spec_accepts_block(old(self)@, b@) {
                        &&& r@.len() == 1
                        &&& r@[0] matches ConsensusMessage::BlockVote(v)
                        &&& v@ == spec_self_vote(old(self)@, b@, now)
                    } else {
                        r@.len() == 0
                    }
                },
                ConsensusMessage::ZKProofRequest(req) => {
                    if spec_get_block(old(self)@.storage.blocks, req.block_number) is Some {
                        &&& r@.len() == 1
                        &&& r@[0] matches ConsensusMessage::ZKProofResponse(resp)
                        &&& resp@ == (ProofResponseModel {
                            request_id: req@.request_id,
                            proof: spec_generate_proof(
                                spec_get_block(
                                    old(self)@.storage.blocks,
                                    req.block_number,
                                )->Some_0,
                            ),
                            responder: old(self)@.node_id,
                        })
                    } else {
                        r@.len() == 0
                    }
                },
                _ => r@.len() == 0,
            },
    {
        match message {
            ConsensusMessage::NewBlock(block) => {
                match self.handle_new_block(block, now) {
                    Some(vote) => {
                        let mut out: Vec<ConsensusMessage> = Vec::new();
                        out.push(ConsensusMessage::BlockVote(vote));
                        out
                    },
                    None => Vec::new(),
                }
            },
            ConsensusMessage::BlockVote(vote) => {
                self.handle_block_vote(vote);
                Vec::new()
            },
            ConsensusMessage::ConsensusState(state) => {
                self.handle_consensus_state(state);
                Vec::new()
            },
            ConsensusMessage::ZKProofRequest(request) => {
                match self.handle_proof_request(&request) {
                    Some(response) => {
                        let mut out: Vec<ConsensusMessage> = Vec::new();
                        out.push(ConsensusMessage::ZKProofResponse(response));
                        out
                    },
                    None => Vec::new(),
                }
            },
            ConsensusMessage::ZKProofResponse(response) => {
                let _verdict = self.handle_proof_response(&response);
                Vec::new()
            },
        }
    }

    /// Whether this node proposes now: it is an eligible validator and
    /// the block interval has passed since the latest stored block.
    pub fn should_propose_block(&self, now: i64) -> (r: bool)
        ensures
            r == spec_should_propose(self@, now),
    {
        if !self.state.is_eligible(self.node_id.as_slice()) {
            return false;
        }
        match self.storage.get_latest_block() {
            Some(last) => ((now as i128) - (last.header.timestamp as i128)) >= (
            self.block_time as i128),
            None => true,
        }
    }

    /// Proposes a block at the next height: pending transactions, the
    /// expected parent hash, the recomputed Merkle root, a generated
    /// proof; the block is stored and returned for the bus to broadcast.
    pub fn propose_new_block(&mut self, now: i64) -> (r: Block)
        requires
            old(self).wf(),
            old(self)@.state.current_block < u64::MAX,
        ensures
            final(self).wf(),
            final(self)@ == spec_propose(old(self)@, now),
            r@ == spec_proposed_block(old(self)@, now),
    {
        let block_number = self.state.current_block + 1;
        let transactions = self.storage.get_pending_transactions();
        let parent_hash = match self.storage.get_latest_block() {
            Some(last) => last.hash(),
            None => zero32_bytes(),
        };
        let merkle_root = calculate_merkle_root(&transactions);
        let header = BlockHeader {
            block_number,
            parent_hash,
            timestamp: now,
            merkle_root,
            validator: copy_bytes(self.node_id.as_slice()),
            difficulty: self.calculate_difficulty(),
            nonce: 0,
        };
        let mut block = Block {
            header,
            transactions,
            zk_proof: ZKProof {
                proof_data: Vec::new(),
                public_inputs: Vec::new(),
                verification_key: Vec::new(),
                proof_type: ProofType::Groth16,
            },
        };
        assert(block@ =~= (BlockModel {
            zk_proof: (ZKProofModel {
                proof_data: Seq::<u8>::empty(),
                public_inputs: Seq::<u8>::empty(),
                verification_key: Seq::<u8>::empty(),
                proof_type: ProofType::Groth16,
            }),
            ..spec_proposed_block(old(self)@, now)
        }));
        let proof = self.zk_generator.generate_proof(&block);
        block.zk_proof = proof;
        assert(block@ =~= spec_proposed_block(old(self)@, now));
        self.storage.store_block(&block);
        assert(self@ =~= spec_propose(old(self)@, now));
        block
    }

    /// Runs the score rule over every validator, as each tick does.
    pub fn update_consensus_state(&mut self, now: i64)
        requires
            old(self).wf(),
        ensures
            final(self).wf(),
            final(self)@ == (EngineModel {
                state: ConsensusStateModel {
                    validators: spec_decay_validators(old(self)@.state.validators, now),
                    ..old(self)@.state
                },
                ..old(self)@
            }),
    {
        self.state.decay_scores(now);
        assert(self@ =~= (EngineModel {
            state: ConsensusStateModel {
                validators: spec_decay_validators(old(self)@.state.validators, now),
                ..old(self)@.state
            },
            ..old(self)@
        }));
    }

    /// One timer tick: proposes when due and returns the block for the
    /// bus to broadcast, then runs the score rule.
    pub fn tick(&mut self, now: i64) -> (r: Option<Block>)
        requires
            old(self).wf(),
            old(self)@.state.current_block < u64::MAX,
        ensures
            final(self).wf(),
            final(self)@ == spec_tick(old(self)@, now),
            match r {
                Some(b) => spec_should_propose(old(self)@, now) && b@ == spec_proposed_block(
                    old(self)@,
                    now,
                ),
                None => !spec_should_propose(old(self)@, now),
            },
    {
        let proposed = if self.should_propose_block(now) {
            Some(self.propose_new_block(now))
        } else {
            None
        };
        self.update_consensus_state(now);
        assert(self@ =~= spec_tick(old(self)@, now));
        proposed
    }
}

/// LAW.  Finality is monotonic under message delivery: no delivered
/// block or vote ever lowers the height.
pub proof fn lemma_height_monotonic_step(m: EngineModel, msg: ConsensusMessage)
    requires
        !(msg matches ConsensusMessage::ConsensusState(_)),
    ensures
        spec_step(m, msg).state.current_block >= m.state.current_block,
{
}

/// LAW.  Finality is monotonic across any sequence of delivered blocks
/// and votes, in any order: the height never decreases.
pub proof fn lemma_height_monotonic(m: EngineModel, msgs: Seq<ConsensusMessage>)
    requires
        forall|i: int|
            0 <= i < msgs.len() ==> !((#[trigger] msgs[i]) matches
            ConsensusMessage::ConsensusState(_)),
    ensures
        spec_run(m, msgs).state.current_block >= m.state.current_block,
    decreases msgs.len(),
{
    if msgs.len() == 0 {
    } else {
        assert(msgs[0] == msgs.first());
        lemma_height_monotonic_step(m, msgs.first());
        assert(forall|i: int|
            0 <= i < msgs.drop_first().len() ==> #[trigger] msgs.drop_first()[i] == msgs[i + 1]);
        lemma_height_monotonic(spec_step(m, msgs.first()), msgs.drop_first());
    }
}

/// LAW.  Delivering the same block twice stores it once: the second
/// delivery leaves the block store exactly as the first left it.
pub proof fn lemma_new_block_idempotent(m: EngineModel, b: BlockModel)
    ensures
        spec_handle_new_block(spec_handle_new_block(m, b), b).storage.blocks
            == spec_handle_new_block(m, b).storage.blocks,
{
    let m1 = spec_handle_new_block(m, b);
    if spec_accepts_block(m, b) {
        if spec_accepts_block(m1, b) {
            crate::storage::lemma_store_block_idempotent(m.storage.blocks, b);
        }
    }
}

/// LAW.  The quorum boundary: an incoming vote that leaves the approve
/// count for its block below the quorum leaves the height unchanged,
/// and one that reaches the quorum advances the height by exactly one.
pub proof fn lemma_quorum_boundary(m: EngineModel, v: BlockVoteModel)
    requires
        m.state.current_block < u64::MAX,
    ensures
        spec_count_approvals(spec_store_vote(m.storage.votes, v), v.block_hash)
            < m.min_validators ==> spec_handle_block_vote(m, v).state.current_block
            == m.state.current_block,
        spec_count_approvals(spec_store_vote(m.storage.votes, v), v.block_hash)
            >= m.min_validators ==> spec_handle_block_vote(m, v).state.current_block
            == m.state.current_block + 1,
{
}

} // verus!
