use sha2::{Digest, Sha256};
use zk_consensus::network::NetworkStats;
use zk_consensus::types::{Block, BlockHeader, Transaction, ZKProof, ProofType};
use zk_consensus::zk_proof::ZKProofGenerator;

fn sample_block() -> Block {
    let transactions = vec![Transaction {
        id: vec![1u8; 32],
        from: vec![2u8; 32],
        to: vec![3u8; 32],
        amount: 100,
        timestamp: 1_700_000_000,
        signature: vec![0u8; 64],
    }];
    Block {
        header: BlockHeader {
            block_number: 4,
            parent_hash: vec![7u8; 32],
            timestamp: 1_700_000_123,
            merkle_root: vec![8u8; 32],
            validator: vec![9u8; 32],
            difficulty: 1000,
            nonce: 0,
        },
        transactions,
        zk_proof: ZKProof {
            proof_data: Vec::new(),
            public_inputs: Vec::new(),
            verification_key: Vec::new(),
            proof_type: ProofType::Groth16,
        },
    }
}

#[test]
fn generated_proof_matches_the_deterministic_construction() {
    let gen = ZKProofGenerator::new();
    let block = sample_block();
    let proof = gen.generate_proof(&block);

    let mut content: Vec<u8> = Vec::new();
    content.extend_from_slice(&4u64.to_le_bytes());
    content.extend_from_slice(&[7u8; 32]);
    content.extend_from_slice(&[8u8; 32]);
    content.extend_from_slice(&1_700_000_123u64.to_le_bytes());
    content.extend_from_slice(&[9u8; 32]);
    let bch = Sha256::digest(&content).to_vec();

    let mut expected_data = bch.clone();
    for i in 0..28u8 {
        expected_data.push(bch[i as usize].wrapping_add(i));
    }
    expected_data.extend_from_slice(&((bch[0] as u64) * 1000).to_le_bytes());
    assert_eq!(proof.proof_data, expected_data);
    assert_eq!(proof.proof_data.len(), 68);

    let mut expected_inputs: Vec<u8> = Vec::new();
    expected_inputs.extend_from_slice(&4u64.to_le_bytes());
    expected_inputs.extend_from_slice(&[8u8; 32]);
    expected_inputs.extend_from_slice(&1_700_000_123u64.to_le_bytes());
    assert_eq!(proof.public_inputs, expected_inputs);

    let mut expected_vk = bch.clone();
    expected_vk.extend_from_slice(&bch);
    assert_eq!(proof.verification_key, expected_vk);

    let again = gen.generate_proof(&block);
    assert_eq!(again.proof_data, proof.proof_data);
    assert_eq!(again.public_inputs, proof.public_inputs);
}

#[test]
fn generated_proofs_pass_verification() {
    let gen = ZKProofGenerator::new();
    let proof = gen.generate_proof(&sample_block());
    assert!(gen.verify_proof(&proof));
}

#[test]
fn verification_requires_minimum_proof_size() {
    let gen = ZKProofGenerator::new();
    let ok = ZKProof {
        proof_data: vec![1u8; 64],
        public_inputs: vec![1u8],
        verification_key: Vec::new(),
        proof_type: ProofType::Groth16,
    };
    assert!(gen.verify_proof(&ok));
    let short = ZKProof {
        proof_data: vec![1u8; 63],
        public_inputs: vec![1u8],
        verification_key: Vec::new(),
        proof_type: ProofType::Groth16,
    };
    assert!(!gen.verify_proof(&short));
}

#[test]
fn verification_rejects_empty_proof_or_inputs() {
    let gen = ZKProofGenerator::new();
    let no_inputs = ZKProof {
        proof_data: vec![1u8; 64],
        public_inputs: Vec::new(),
        verification_key: Vec::new(),
        proof_type: ProofType::Groth16,
    };
    assert!(!gen.verify_proof(&no_inputs));
    let no_data = ZKProof {
        proof_data: Vec::new(),
        public_inputs: vec![1u8],
        verification_key: Vec::new(),
        proof_type: ProofType::Groth16,
    };
    assert!(!gen.verify_proof(&no_data));
}

#[test]
fn recursive_proof_chains_the_previous_proof() {
    let gen = ZKProofGenerator::new();
    let block = sample_block();
    let first = gen.generate_proof(&block);
    let recursive = gen.generate_recursive_proof(&first, &block);

    assert_eq!(recursive.proof_data.len(), 256);
    assert!(recursive.verification_key.is_empty());

    let mut expected_inputs = Sha256::digest(&first.proof_data).to_vec();
    expected_inputs.extend_from_slice(&4u64.to_le_bytes());
    expected_inputs.extend_from_slice(&[8u8; 32]);
    expected_inputs.extend_from_slice(&1_700_000_123u64.to_le_bytes());
    assert_eq!(recursive.public_inputs, expected_inputs);
}

#[test]
fn fresh_network_stats_count_only_the_node_itself() {
    let stats = NetworkStats::new();
    assert_eq!(stats.connected_peers, 1);
    assert_eq!(stats.messages_sent, 0);
    assert_eq!(stats.messages_received, 0);
    assert_eq!(stats.bytes_sent, 0);
    assert_eq!(stats.bytes_received, 0);
}
