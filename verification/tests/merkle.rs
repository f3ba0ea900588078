use sha2::{Digest, Sha256};
use zk_consensus::commitment::{calculate_merkle_root, encode_header, encode_transaction, encode_transactions};
use zk_consensus::types::{Block, BlockHeader, Transaction, ZKProof, ProofType};

fn tx(seed: u8) -> Transaction {
    Transaction {
        id: vec![seed; 32],
        from: vec![seed.wrapping_add(1); 32],
        to: vec![seed.wrapping_add(2); 32],
        amount: (seed as u64 + 1) * 100,
        timestamp: 1_700_000_000,
        signature: vec![0u8; 64],
    }
}

fn sha(data: &[u8]) -> Vec<u8> {
    Sha256::digest(data).to_vec()
}

fn combine(a: &[u8], b: &[u8]) -> Vec<u8> {
    let mut cat = a.to_vec();
    cat.extend_from_slice(b);
    sha(&cat)
}

#[test]
fn merkle_root_is_deterministic() {
    let txs = vec![tx(1), tx(2), tx(3)];
    let again = vec![tx(1), tx(2), tx(3)];
    assert_eq!(calculate_merkle_root(&txs), calculate_merkle_root(&again));
}

#[test]
fn merkle_root_of_empty_is_all_zero() {
    let txs: Vec<Transaction> = Vec::new();
    assert_eq!(calculate_merkle_root(&txs), vec![0u8; 32]);
}

#[test]
fn merkle_root_of_single_transaction_pairs_the_leaf_with_itself() {
    let t = tx(7);
    let leaf = sha(&encode_transaction(&t));
    let expected = combine(&leaf, &leaf);
    let root = calculate_merkle_root(&vec![t]);
    assert_eq!(root, expected);
    assert_ne!(root, leaf);
}

#[test]
fn merkle_root_of_two_transactions_combines_the_leaves() {
    let a = tx(1);
    let b = tx(2);
    let la = sha(&encode_transaction(&a));
    let lb = sha(&encode_transaction(&b));
    let expected = combine(&la, &lb);
    assert_eq!(calculate_merkle_root(&vec![a, b]), expected);
}

#[test]
fn merkle_root_of_three_transactions_duplicates_the_odd_leaf() {
    let a = tx(1);
    let b = tx(2);
    let c = tx(3);
    let la = sha(&encode_transaction(&a));
    let lb = sha(&encode_transaction(&b));
    let lc = sha(&encode_transaction(&c));
    let left = combine(&la, &lb);
    let right = combine(&lc, &lc);
    let expected = combine(&left, &right);
    assert_eq!(calculate_merkle_root(&vec![a, b, c]), expected);
}

#[test]
fn block_hash_covers_header_and_transactions() {
    let transactions = vec![tx(1), tx(2)];
    let header = BlockHeader {
        block_number: 1,
        parent_hash: vec![0u8; 32],
        timestamp: 1_700_000_000,
        merkle_root: calculate_merkle_root(&transactions),
        validator: vec![9u8; 32],
        difficulty: 1000,
        nonce: 0,
    };
    let block = Block {
        header,
        transactions,
        zk_proof: ZKProof {
            proof_data: Vec::new(),
            public_inputs: Vec::new(),
            verification_key: Vec::new(),
            proof_type: ProofType::Groth16,
        },
    };
    let mut data = encode_header(&block.header);
    data.extend_from_slice(&encode_transactions(&block.transactions));
    assert_eq!(block.hash(), sha(&data));
    assert_eq!(block.header.hash(), sha(&encode_header(&block.header)));
}

#[test]
fn header_encoding_is_little_endian_and_field_ordered() {
    let header = BlockHeader {
        block_number: 0x0102030405060708,
        parent_hash: vec![0xaa; 32],
        timestamp: 5,
        merkle_root: vec![0xbb; 32],
        validator: vec![0xcc; 32],
        difficulty: 1000,
        nonce: 7,
    };
    let enc = encode_header(&header);
    let mut expected: Vec<u8> = Vec::new();
    expected.extend_from_slice(&0x0102030405060708u64.to_le_bytes());
    expected.extend_from_slice(&[0xaa; 32]);
    expected.extend_from_slice(&5u64.to_le_bytes());
    expected.extend_from_slice(&[0xbb; 32]);
    expected.extend_from_slice(&[0xcc; 32]);
    expected.extend_from_slice(&1000u64.to_le_bytes());
    expected.extend_from_slice(&7u64.to_le_bytes());
    assert_eq!(enc, expected);
}
