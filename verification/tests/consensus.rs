use zk_consensus::commitment::calculate_merkle_root;
use zk_consensus::consensus::ConsensusEngine;
use zk_consensus::storage::{create_test_transactions, StorageManager};
use zk_consensus::types::{
    Block, BlockHeader, BlockVote, ConsensusMessage, ConsensusState, ProofRequest, Transaction,
    ValidatorEntry, ValidatorInfo, VoteType, ZKProof, ProofType,
};
use zk_consensus::zk_proof::ZKProofGenerator;

const NOW: i64 = 1_700_000_000;

fn tx(seed: u8) -> Transaction {
    Transaction {
        id: vec![seed; 32],
        from: vec![seed.wrapping_add(1); 32],
        to: vec![seed.wrapping_add(2); 32],
        amount: (seed as u64 + 1) * 100,
        timestamp: NOW,
        signature: vec![0u8; 64],
    }
}

fn validator(id: u8, active: bool) -> ValidatorEntry {
    ValidatorEntry {
        node_id: vec![id; 32],
        info: ValidatorInfo {
            stake: 100,
            is_active: active,
            last_block_time: NOW,
            performance_score: 50,
        },
    }
}

fn engine() -> ConsensusEngine {
    ConsensusEngine::new(ZKProofGenerator::new(), StorageManager::new("test.db"))
}

/// A block the engine accepts: next height, expected parent, recomputed
/// Merkle root, and a proof its gateway verifies.
fn valid_block(engine: &ConsensusEngine, transactions: Vec<Transaction>, now: i64) -> Block {
    let parent_hash = match engine.storage().get_latest_block() {
        Some(last) => last.hash(),
        None => vec![0u8; 32],
    };
    let merkle_root = calculate_merkle_root(&transactions);
    let mut block = Block {
        header: BlockHeader {
            block_number: engine.current_block() + 1,
            parent_hash,
            timestamp: now,
            merkle_root,
            validator: engine.node_id(),
            difficulty: 1000,
            nonce: 0,
        },
        transactions,
        zk_proof: ZKProof {
            proof_data: Vec::new(),
            public_inputs: Vec::new(),
            verification_key: Vec::new(),
            proof_type: ProofType::Groth16,
        },
    };
    block.zk_proof = ZKProofGenerator::new().generate_proof(&block);
    block
}

fn approve(hash: &[u8], validator_id: u8) -> BlockVote {
    BlockVote {
        block_hash: hash.to_vec(),
        validator: vec![validator_id; 32],
        vote: VoteType::Approve,
        timestamp: NOW,
        signature: Vec::new(),
    }
}

#[test]
fn accepted_block_draws_a_self_approve_vote() {
    let mut eng = engine();
    let block = valid_block(&eng, vec![tx(1)], NOW);
    let vote = eng.handle_new_block(block.clone(), NOW).expect("block should be accepted");
    assert_eq!(vote.block_hash, block.hash());
    assert_eq!(vote.validator, eng.node_id());
    assert_eq!(vote.vote, VoteType::Approve);
    assert_eq!(eng.storage().get_block(1), Some(block));
}

#[test]
fn submitting_the_same_block_twice_stores_it_once() {
    let mut eng = engine();
    let block = valid_block(&eng, vec![tx(1)], NOW);
    let first = eng.handle_new_block(block.clone(), NOW);
    assert!(first.is_some());
    let second = eng.handle_new_block(block.clone(), NOW);
    assert_eq!(eng.storage().get_block_count(), 1);
    assert_eq!(eng.storage().get_block(1), Some(block.clone()));
    // At most one self-cast vote is stored, however often it comes back.
    if let Some(v) = first {
        eng.handle_block_vote(v);
    }
    if let Some(v) = second {
        eng.handle_block_vote(v);
    }
    assert_eq!(eng.storage().get_votes_for_block(&block.hash()).len(), 1);
}

#[test]
fn quorum_boundary_two_votes_hold_the_third_advances() {
    let mut eng = engine();
    assert_eq!(eng.quorum_size(), 3);
    let block = valid_block(&eng, vec![tx(1)], NOW);
    let hash = block.hash();
    eng.handle_new_block(block, NOW);

    eng.handle_block_vote(approve(&hash, 1));
    assert_eq!(eng.current_block(), 0);
    eng.handle_block_vote(approve(&hash, 2));
    assert_eq!(eng.current_block(), 0);
    eng.handle_block_vote(approve(&hash, 3));
    assert_eq!(eng.current_block(), 1);
}

#[test]
fn reject_and_abstain_votes_do_not_count_toward_quorum() {
    let mut eng = engine();
    let block = valid_block(&eng, vec![tx(1)], NOW);
    let hash = block.hash();
    eng.handle_new_block(block, NOW);

    eng.handle_block_vote(approve(&hash, 1));
    eng.handle_block_vote(approve(&hash, 2));
    let mut reject = approve(&hash, 3);
    reject.vote = VoteType::Reject;
    eng.handle_block_vote(reject);
    let mut abstain = approve(&hash, 4);
    abstain.vote = VoteType::Abstain;
    eng.handle_block_vote(abstain);
    assert_eq!(eng.current_block(), 0);
}

#[test]
fn proposed_block_reaches_finality_with_three_distinct_approvals() {
    // Five pending transactions in the store, and this node eligible.
    let mut eng = {
        let mut storage = StorageManager::new("engine.db");
        create_test_transactions(&mut storage, NOW);
        let mut fresh = ConsensusEngine::new(ZKProofGenerator::new(), storage);
        let mut state = ConsensusState {
            current_block: 0,
            validators: vec![validator(1, true), validator(2, true)],
            total_stake: 200,
            epoch: 0,
        };
        state.validators.push(ValidatorEntry {
            node_id: fresh.node_id(),
            info: ValidatorInfo {
                stake: 100,
                is_active: true,
                last_block_time: 0,
                performance_score: 50,
            },
        });
        fresh.handle_consensus_state(state);
        fresh
    };
    let block = eng.tick(NOW).expect("an eligible node with no stored block proposes");
    assert_eq!(block.header.block_number, 1);
    assert_eq!(block.transactions.len(), 5);
    assert!(eng.handle_proof_response(&zk_consensus::types::ProofResponse {
        request_id: vec![0u8; 32],
        proof: block.zk_proof.clone(),
        responder: vec![0u8; 32],
    }));

    let hash = block.hash();
    eng.handle_block_vote(approve(&hash, 1));
    eng.handle_block_vote(approve(&hash, 2));
    eng.handle_block_vote(approve(&hash, 3));
    assert_eq!(eng.current_block(), 1);
    assert_eq!(eng.storage().get_latest_block(), Some(block));
}

#[test]
fn a_block_that_skips_a_height_is_rejected() {
    let mut eng = engine();
    let mut block = valid_block(&eng, vec![tx(1)], NOW);
    block.header.block_number = eng.current_block() + 2;
    block.zk_proof = ZKProofGenerator::new().generate_proof(&block);
    let vote = eng.handle_new_block(block, NOW);
    assert!(vote.is_none());
    assert_eq!(eng.current_block(), 0);
    assert_eq!(eng.storage().get_block_count(), 0);
}

#[test]
fn a_block_with_a_mismatched_merkle_root_is_rejected() {
    let mut eng = engine();
    let mut block = valid_block(&eng, vec![tx(1), tx(2)], NOW);
    block.header.merkle_root = vec![0xffu8; 32];
    block.zk_proof = ZKProofGenerator::new().generate_proof(&block);
    let vote = eng.handle_new_block(block, NOW);
    assert!(vote.is_none());
    assert_eq!(eng.storage().get_block_count(), 0);
}

#[test]
fn a_block_with_a_wrong_parent_hash_is_rejected() {
    let mut eng = engine();
    let mut block = valid_block(&eng, vec![tx(1)], NOW);
    block.header.parent_hash = vec![1u8; 32];
    block.zk_proof = ZKProofGenerator::new().generate_proof(&block);
    assert!(eng.handle_new_block(block, NOW).is_none());
}

#[test]
fn a_block_with_a_failing_proof_is_rejected() {
    let mut eng = engine();
    let mut block = valid_block(&eng, vec![tx(1)], NOW);
    block.zk_proof.proof_data = vec![1u8; 63];
    assert!(eng.handle_new_block(block, NOW).is_none());
}

#[test]
fn height_never_decreases_across_message_interleavings() {
    let mut eng = engine();
    let good = valid_block(&eng, vec![tx(1)], NOW);
    let hash = good.hash();
    let mut stale = valid_block(&eng, vec![tx(2)], NOW);
    stale.header.block_number = 7;

    let messages = vec![
        ConsensusMessage::BlockVote(approve(&hash, 1)),
        ConsensusMessage::NewBlock(good),
        ConsensusMessage::BlockVote(approve(&hash, 2)),
        ConsensusMessage::NewBlock(stale),
        ConsensusMessage::BlockVote(approve(&hash, 3)),
        ConsensusMessage::BlockVote(approve(&hash, 1)),
        ConsensusMessage::BlockVote(approve(&hash, 4)),
    ];
    let mut last_height = eng.current_block();
    for message in messages {
        eng.handle_message(message, NOW);
        let height = eng.current_block();
        assert!(height >= last_height);
        last_height = height;
    }
    // Every delivery at or past the quorum advances the height again.
    assert_eq!(last_height, 3);

    // A different interleaving: votes ahead of their block, duplicates
    // between them.  The height still never decreases.
    let mut eng = engine();
    let good = valid_block(&eng, vec![tx(3)], NOW);
    let hash = good.hash();
    let messages = vec![
        ConsensusMessage::BlockVote(approve(&hash, 9)),
        ConsensusMessage::BlockVote(approve(&hash, 9)),
        ConsensusMessage::BlockVote(approve(&hash, 8)),
        ConsensusMessage::NewBlock(good),
        ConsensusMessage::BlockVote(approve(&hash, 7)),
    ];
    let mut last_height = eng.current_block();
    for message in messages {
        eng.handle_message(message, NOW);
        let height = eng.current_block();
        assert!(height >= last_height);
        last_height = height;
    }
    assert_eq!(last_height, 1);
}

#[test]
fn a_state_snapshot_replaces_the_local_state_wholesale() {
    let mut eng = engine();
    let state = ConsensusState {
        current_block: 42,
        validators: vec![validator(1, false)],
        total_stake: 100,
        epoch: 3,
    };
    eng.handle_consensus_state(state);
    assert_eq!(eng.current_block(), 42);
    let snapshot = eng.consensus_state();
    assert_eq!(snapshot.epoch, 3);
    assert_eq!(snapshot.validators.len(), 1);
}

#[test]
fn proof_requests_are_answered_for_stored_blocks_only() {
    let mut eng = engine();
    let block = valid_block(&eng, vec![tx(1)], NOW);
    eng.handle_new_block(block.clone(), NOW);

    let request = ProofRequest {
        block_number: 1,
        request_id: vec![5u8; 32],
        requester: vec![6u8; 32],
    };
    let response = eng.handle_proof_request(&request).expect("block 1 is stored");
    assert_eq!(response.request_id, vec![5u8; 32]);
    assert_eq!(response.responder, eng.node_id());
    assert!(eng.handle_proof_response(&response));

    let missing = ProofRequest {
        block_number: 9,
        request_id: vec![5u8; 32],
        requester: vec![6u8; 32],
    };
    assert!(eng.handle_proof_request(&missing).is_none());
}

#[test]
fn an_accepted_block_message_yields_a_vote_message() {
    let mut eng = engine();
    let block = valid_block(&eng, vec![tx(1)], NOW);
    let hash = block.hash();
    let out = eng.handle_message(ConsensusMessage::NewBlock(block), NOW);
    assert_eq!(out.len(), 1);
    match &out[0] {
        ConsensusMessage::BlockVote(v) => {
            assert_eq!(v.block_hash, hash);
            assert_eq!(v.vote, VoteType::Approve);
        }
        other => panic!("expected a vote message, got {:?}", other),
    }
}

#[test]
fn a_proof_request_message_yields_a_response_message() {
    let mut eng = engine();
    let block = valid_block(&eng, vec![tx(1)], NOW);
    eng.handle_new_block(block, NOW);
    let request = ProofRequest {
        block_number: 1,
        request_id: vec![4u8; 32],
        requester: vec![5u8; 32],
    };
    let out = eng.handle_message(ConsensusMessage::ZKProofRequest(request), NOW);
    assert_eq!(out.len(), 1);
    match &out[0] {
        ConsensusMessage::ZKProofResponse(resp) => {
            assert_eq!(resp.request_id, vec![4u8; 32]);
            assert!(eng.handle_proof_response(resp));
        }
        other => panic!("expected a proof response, got {:?}", other),
    }
}

#[test]
fn an_ineligible_node_does_not_propose() {
    let mut eng = engine();
    assert_eq!(eng.tick(NOW), None);

    // Present but inactive is still ineligible.
    let mut state = ConsensusState {
        current_block: 0,
        validators: Vec::new(),
        total_stake: 0,
        epoch: 0,
    };
    state.validators.push(ValidatorEntry {
        node_id: eng.node_id(),
        info: ValidatorInfo {
            stake: 1,
            is_active: false,
            last_block_time: 0,
            performance_score: 0,
        },
    });
    eng.handle_consensus_state(state);
    assert_eq!(eng.tick(NOW), None);
}

#[test]
fn proposals_wait_for_the_block_interval() {
    let mut eng = engine();
    let mut state = ConsensusState {
        current_block: 0,
        validators: Vec::new(),
        total_stake: 0,
        epoch: 0,
    };
    state.validators.push(ValidatorEntry {
        node_id: eng.node_id(),
        info: ValidatorInfo {
            stake: 1,
            is_active: true,
            last_block_time: 0,
            performance_score: 0,
        },
    });
    eng.handle_consensus_state(state);

    let first = eng.tick(NOW).expect("nothing stored yet, so a proposal is due");
    assert_eq!(first.header.block_number, 1);
    // Too soon after the stored block: the interval is twelve seconds.
    assert_eq!(eng.tick(NOW + 5), None);
    // After the interval a proposal is due again.
    assert!(eng.tick(NOW + 12).is_some());
}

#[test]
fn an_inactive_validator_score_decays_by_five_hundredths_per_tick() {
    let mut eng = engine();
    let state = ConsensusState {
        current_block: 0,
        validators: vec![ValidatorEntry {
            node_id: vec![1u8; 32],
            info: ValidatorInfo {
                stake: 10,
                is_active: true,
                last_block_time: NOW - 600,
                performance_score: 50,
            },
        }],
        total_stake: 10,
        epoch: 0,
    };
    eng.handle_consensus_state(state);

    eng.update_consensus_state(NOW);
    assert_eq!(eng.consensus_state().validators[0].info.performance_score, 45);
    eng.update_consensus_state(NOW);
    assert_eq!(eng.consensus_state().validators[0].info.performance_score, 40);
    for _ in 0..7 {
        eng.update_consensus_state(NOW);
    }
    assert_eq!(eng.consensus_state().validators[0].info.performance_score, 5);
    eng.update_consensus_state(NOW);
    assert_eq!(eng.consensus_state().validators[0].info.performance_score, 0);
    eng.update_consensus_state(NOW);
    assert_eq!(eng.consensus_state().validators[0].info.performance_score, 0);
}

#[test]
fn a_recently_active_validator_score_rises_and_caps_at_one() {
    let mut eng = engine();
    let state = ConsensusState {
        current_block: 0,
        validators: vec![ValidatorEntry {
            node_id: vec![1u8; 32],
            info: ValidatorInfo {
                stake: 10,
                is_active: true,
                last_block_time: NOW - 10,
                performance_score: 85,
            },
        }],
        total_stake: 10,
        epoch: 0,
    };
    eng.handle_consensus_state(state);

    eng.update_consensus_state(NOW);
    assert_eq!(eng.consensus_state().validators[0].info.performance_score, 95);
    eng.update_consensus_state(NOW);
    assert_eq!(eng.consensus_state().validators[0].info.performance_score, 100);
    eng.update_consensus_state(NOW);
    assert_eq!(eng.consensus_state().validators[0].info.performance_score, 100);
}

#[test]
fn record_activity_updates_the_last_block_time() {
    let mut state = ConsensusState {
        current_block: 0,
        validators: vec![validator(1, true), validator(2, true)],
        total_stake: 200,
        epoch: 0,
    };
    state.record_activity(&vec![2u8; 32], NOW + 99);
    assert_eq!(state.validators[0].info.last_block_time, NOW);
    assert_eq!(state.validators[1].info.last_block_time, NOW + 99);
}

#[test]
fn seeded_demonstration_transactions_are_pending() {
    let mut storage = StorageManager::new("seed.db");
    create_test_transactions(&mut storage, NOW);
    let pending = storage.get_pending_transactions();
    assert_eq!(pending.len(), 5);
    assert_eq!(pending[0].id, vec![0u8; 32]);
    assert_eq!(pending[4].amount, 500);
    assert_eq!(storage.get_transaction_count(), 5);
}
