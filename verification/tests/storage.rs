use zk_consensus::storage::StorageManager;
use zk_consensus::types::{
    Block, BlockHeader, BlockVote, ConsensusState, Transaction, ValidatorEntry, ValidatorInfo,
    VoteType, ZKProof, ProofType,
};

fn tx(seed: u8) -> Transaction {
    Transaction {
        id: vec![seed; 32],
        from: vec![seed.wrapping_add(1); 32],
        to: vec![seed.wrapping_add(2); 32],
        amount: (seed as u64 + 1) * 100,
        timestamp: 1_700_000_000,
        signature: vec![0u8; 64],
    }
}

fn block(height: u64, seed: u8) -> Block {
    Block {
        header: BlockHeader {
            block_number: height,
            parent_hash: vec![0u8; 32],
            timestamp: 1_700_000_000 + height as i64,
            merkle_root: vec![seed; 32],
            validator: vec![9u8; 32],
            difficulty: 1000,
            nonce: 0,
        },
        transactions: vec![tx(seed)],
        zk_proof: ZKProof {
            proof_data: vec![seed; 64],
            public_inputs: vec![seed],
            verification_key: Vec::new(),
            proof_type: ProofType::Groth16,
        },
    }
}

fn vote(hash: &[u8], validator: u8, verdict: VoteType) -> BlockVote {
    BlockVote {
        block_hash: hash.to_vec(),
        validator: vec![validator; 32],
        vote: verdict,
        timestamp: 1_700_000_000,
        signature: Vec::new(),
    }
}

#[test]
fn stored_block_round_trips_by_height_and_by_hash() {
    let mut storage = StorageManager::new("test.db");
    let b = block(1, 5);
    storage.store_block(&b);
    assert_eq!(storage.get_block(1), Some(b.clone()));
    assert_eq!(storage.get_block_by_hash(&b.hash()), Some(b));
    assert_eq!(storage.get_block(2), None);
    assert_eq!(storage.get_block_by_hash(&vec![0u8; 32]), None);
}

#[test]
fn storing_at_an_existing_height_overwrites() {
    let mut storage = StorageManager::new("test.db");
    storage.store_block(&block(1, 5));
    storage.store_block(&block(1, 6));
    assert_eq!(storage.get_block_count(), 1);
    assert_eq!(storage.get_block(1), Some(block(1, 6)));
}

#[test]
fn latest_block_has_the_greatest_height() {
    let mut storage = StorageManager::new("test.db");
    assert_eq!(storage.get_latest_block(), None);
    storage.store_block(&block(2, 2));
    storage.store_block(&block(5, 5));
    storage.store_block(&block(3, 3));
    assert_eq!(storage.get_latest_block(), Some(block(5, 5)));
}

#[test]
fn block_range_collects_existing_heights_in_order() {
    let mut storage = StorageManager::new("test.db");
    storage.store_block(&block(1, 1));
    storage.store_block(&block(3, 3));
    storage.store_block(&block(4, 4));
    let range = storage.get_block_range(1, 3);
    assert_eq!(range, vec![block(1, 1), block(3, 3)]);
    assert_eq!(storage.get_block_range(5, 9), Vec::<Block>::new());
}

#[test]
fn duplicate_votes_overwrite_per_validator_and_hash() {
    let mut storage = StorageManager::new("test.db");
    let hash = vec![7u8; 32];
    storage.store_vote(&vote(&hash, 1, VoteType::Approve));
    storage.store_vote(&vote(&hash, 1, VoteType::Reject));
    let votes = storage.get_votes_for_block(&hash);
    assert_eq!(votes.len(), 1);
    assert_eq!(votes[0].vote, VoteType::Reject);
}

#[test]
fn votes_are_selected_by_block_hash() {
    let mut storage = StorageManager::new("test.db");
    let a = vec![1u8; 32];
    let b = vec![2u8; 32];
    storage.store_vote(&vote(&a, 1, VoteType::Approve));
    storage.store_vote(&vote(&b, 2, VoteType::Approve));
    storage.store_vote(&vote(&a, 3, VoteType::Abstain));
    let for_a = storage.get_votes_for_block(&a);
    assert_eq!(for_a.len(), 2);
    assert!(for_a.iter().all(|v| v.block_hash == a));
}

#[test]
fn stored_transaction_round_trips_and_queues_as_pending() {
    let mut storage = StorageManager::new("test.db");
    let t = tx(4);
    storage.store_transaction(&t);
    assert_eq!(storage.get_transaction(&t.id), Some(t.clone()));
    assert_eq!(storage.get_pending_transactions(), vec![t]);
    assert_eq!(storage.get_transaction(&vec![9u8; 32]), None);
}

#[test]
fn removing_pending_transactions_filters_by_identity() {
    let mut storage = StorageManager::new("test.db");
    storage.store_transaction(&tx(1));
    storage.store_transaction(&tx(2));
    storage.store_transaction(&tx(3));
    storage.remove_pending_transactions(&vec![vec![1u8; 32], vec![3u8; 32]]);
    assert_eq!(storage.get_pending_transactions(), vec![tx(2)]);
}

#[test]
fn batches_store_every_element() {
    let mut storage = StorageManager::new("test.db");
    storage.store_blocks_batch(&vec![block(1, 1), block(2, 2)]);
    assert_eq!(storage.get_block_count(), 2);
    storage.store_transactions_batch(&vec![tx(1), tx(2), tx(1)]);
    assert_eq!(storage.get_transaction_count(), 2);
    assert_eq!(storage.get_pending_transactions().len(), 3);
}

#[test]
fn consensus_state_snapshot_round_trips() {
    let mut storage = StorageManager::new("test.db");
    assert_eq!(storage.get_consensus_state(), None);
    let state = ConsensusState {
        current_block: 9,
        validators: vec![ValidatorEntry {
            node_id: vec![1u8; 32],
            info: ValidatorInfo {
                stake: 10,
                is_active: true,
                last_block_time: 0,
                performance_score: 50,
            },
        }],
        total_stake: 10,
        epoch: 2,
    };
    storage.store_consensus_state(&state);
    assert_eq!(storage.get_consensus_state(), Some(state));
}

#[test]
fn cloning_the_store_copies_its_contents() {
    let mut storage = StorageManager::new("test.db");
    storage.store_block(&block(1, 1));
    let copy = storage.clone();
    storage.store_block(&block(2, 2));
    assert_eq!(copy.get_block_count(), 1);
    assert_eq!(storage.get_block_count(), 2);
    assert_eq!(copy.get_block(1), Some(block(1, 1)));
}

#[test]
fn maintenance_operations_leave_the_store_unchanged() {
    let mut storage = StorageManager::new("test.db");
    storage.store_block(&block(1, 1));
    storage.compact();
    storage.backup("backup.db");
    storage.restore("backup.db");
    assert_eq!(storage.get_block(1), Some(block(1, 1)));
}
