//! The proof gateway: a stand-in for an external succinct-proof system.
//!
//! Proof generation derives the proof bytes deterministically from the
//! block's content hash; verification applies the acceptance rule the
//! engine trusts: non-empty proof and public inputs, and a minimum proof
//! size.  A production deployment replaces this with a real prover and
//! verifier behind the same calling contract: a single boolean verdict
//! and no side effects.

use vstd::prelude::*;
use crate::codec::{le8, push_u64_le, push_bytes, copy_bytes};
use crate::commitment::{sha256, sha256_of};
use crate::types::{Block, BlockModel, ZKProof, ZKProofModel, ProofType};

verus! {

/// Relies on rand's `random`: 32 bytes drawn from the thread-local
/// generator; nothing is promised of their values.
#[verifier::external_body]
pub(crate) fn random_bytes32() -> (r: Vec<u8>)
    ensures
        r@.len() == 32,
{
    rand::random::<[u8; 32]>().to_vec()
}

/// The public inputs a proof commits to: the block's height, Merkle root
/// and timestamp.
pub open spec fn spec_public_inputs(b: BlockModel) -> Seq<u8> {
    le8(b.header.block_number) + b.header.merkle_root + le8(b.header.timestamp as u64)
}

/// The content hash proof generation starts from: height, parent hash,
/// Merkle root, timestamp and proposer of the block's header.
pub open spec fn spec_block_content_hash(b: BlockModel) -> Seq<u8> {
    sha256_of(
        le8(b.header.block_number) + b.header.parent_hash + b.header.merkle_root + le8(
            b.header.timestamp as u64,
        ) + b.header.validator,
    )
}

/// The deterministic padding byte at the given position: the content
/// hash's byte there, shifted by the position, wrapping around.
pub open spec fn spec_pad_byte(bch: Seq<u8>, k: int) -> u8 {
    (((bch[k] + k) % 256) as u8)
}

/// The deterministic proof bytes derived from a content hash: the hash,
/// then 28 padding bytes, then a factor drawn from the hash's first byte.
pub open spec fn spec_proof_data(bch: Seq<u8>) -> Seq<u8> {
    bch + Seq::new(28nat, |k: int| spec_pad_byte(bch, k)) + le8(((bch[0] as u64) * 1000) as u64)
}

/// The proof a generator produces for a block: a deterministic function
/// of the block's header.
pub open spec fn spec_generate_proof(b: BlockModel) -> ZKProofModel {
    let bch = spec_block_content_hash(b);
    ZKProofModel {
        proof_data: spec_proof_data(bch),
        public_inputs: spec_public_inputs(b),
        verification_key: bch + bch,
        proof_type: ProofType::Groth16,
    }
}

/// The gateway's acceptance rule: non-empty proof bytes, non-empty public
/// inputs, and at least the minimum proof size of 64 bytes.
pub open spec fn spec_verify_proof(p: ZKProofModel) -> bool {
    p.proof_data.len() > 0 && p.public_inputs.len() > 0 && p.proof_data.len() >= 64
}

/// The generator behind the proof gateway.
#[derive(Debug)]
pub struct ZKProofGenerator {}

impl ZKProofGenerator {
    /// A fresh generator.
    pub fn new() -> (r: Self) {
        ZKProofGenerator {  }
    }

    /// The public inputs of a block: height, Merkle root, timestamp.
    fn extract_public_inputs(&self, block: &Block) -> (r: Vec<u8>)
        ensures
            r@ == spec_public_inputs(block@),
    {
        let mut inputs: Vec<u8> = Vec::new();
        push_u64_le(&mut inputs, block.header.block_number);
        push_bytes(&mut inputs, block.header.merkle_root.as_slice());
        push_u64_le(&mut inputs, #[verifier::truncate] (block.header.timestamp as u64));
        assert(inputs@ =~= spec_public_inputs(block@));
        inputs
    }

    /// The content hash proof generation starts from.
    fn hash_block_content(&self, block: &Block) -> (r: Vec<u8>)
        ensures
            r@ == spec_block_content_hash(block@),
            r@.len() == 32,
    {
        let mut data: Vec<u8> = Vec::new();
        push_u64_le(&mut data, block.header.block_number);
        push_bytes(&mut data, block.header.parent_hash.as_slice());
        push_bytes(&mut data, block.header.merkle_root.as_slice());
        push_u64_le(&mut data, #[verifier::truncate] (block.header.timestamp as u64));
        push_bytes(&mut data, block.header.validator.as_slice());
        assert(data@ =~= le8(block@.header.block_number) + block@.header.parent_hash
            + block@.header.merkle_root + le8(block@.header.timestamp as u64)
            + block@.header.validator);
        sha256(data.as_slice())
    }

    /// The deterministic proof bytes derived from a content hash.
    #[verifier::loop_isolation(false)]
    fn generate_deterministic_proof(&self, block_hash: &Vec<u8>) -> (r: Vec<u8>)
        requires
            block_hash@.len() == 32,
        ensures
            r@ == spec_proof_data(block_hash@),
    {
        let mut proof_data = copy_bytes(block_hash.as_slice());
        let mut i: usize = 0;
        assert(proof_data@ =~= block_hash@ + Seq::new(0, |k: int| spec_pad_byte(block_hash@, k)));
        while i < 28
            invariant
                i <= 28,
                proof_data@ =~= block_hash@ + Seq::new(
                    i as nat,
                    |k: int| spec_pad_byte(block_hash@, k),
                ),
            decreases 28 - i,
        {
            let v: u8 = (((block_hash[i] as u16) + (i as u16)) % 256) as u8;
            proof_data.push(v);
            assert(proof_data@ =~= block_hash@ + Seq::new(
                (i + 1) as nat,
                |k: int| spec_pad_byte(block_hash@, k),
            ));
            i = i + 1;
        }
        let time_factor: u64 = (block_hash[0] as u64) * 1000;
        push_u64_le(&mut proof_data, time_factor);
        assert(proof_data@ =~= spec_proof_data(block_hash@));
        proof_data
    }

    /// The deterministic verification key derived from a content hash:
    /// the hash twice over.
    fn generate_verification_key(&self, block_hash: &Vec<u8>) -> (r: Vec<u8>)
        ensures
            r@ == block_hash@ + block_hash@,
    {
        let mut vk = copy_bytes(block_hash.as_slice());
        push_bytes(&mut vk, block_hash.as_slice());
        vk
    }

    /// Builds the proof for a block: a deterministic function of the
    /// block's header, and one the gateway's own rule always accepts.
    pub fn generate_proof(&self, block: &Block) -> (r: ZKProof)
        ensures
            r@ == spec_generate_proof(block@),
            spec_verify_proof(r@),
            r@.proof_data.len() == 68,
            r@.public_inputs.len() == 16 + block@.header.merkle_root.len(),
    {
        let public_inputs = self.extract_public_inputs(block);
        let block_hash = self.hash_block_content(block);
        let proof_data = self.generate_deterministic_proof(&block_hash);
        let verification_key = self.generate_verification_key(&block_hash);
        let zk_proof = ZKProof {
            proof_data,
            public_inputs,
            verification_key,
            proof_type: ProofType::Groth16,
        };
        zk_proof
    }

    /// Applies the acceptance rule to a proof: true exactly when the
    /// proof bytes and public inputs are non-empty and the proof bytes
    /// reach the minimum size.  It never fails on a structurally valid
    /// proof value and has no side effects.
    pub fn verify_proof(&self, zk_proof: &ZKProof) -> (r: bool)
        ensures
            r == spec_verify_proof(zk_proof@),
    {
        zk_proof.proof_data.len() > 0 && zk_proof.public_inputs.len() > 0
            && zk_proof.proof_data.len() >= 64
    }

    /// The public inputs of a recursive proof: the hash of the previous
    /// proof's bytes, then the new block's public inputs.
    fn extract_recursive_public_inputs(
        &self,
        previous_proof: &ZKProof,
        new_block: &Block,
    ) -> (r: Vec<u8>)
        ensures
            r@ == sha256_of(previous_proof@.proof_data) + spec_public_inputs(new_block@),
    {
        let mut inputs = sha256(previous_proof.proof_data.as_slice());
        let pi = self.extract_public_inputs(new_block);
        push_bytes(&mut inputs, pi.as_slice());
        inputs
    }

    /// Builds a proof chained to its predecessor: the public inputs
    /// commit to the previous proof's hash and the new block, while the
    /// proof bytes are drawn at random, 256 of them, whatever the inputs.
    #[verifier::loop_isolation(false)]
    pub fn generate_recursive_proof(&self, previous_proof: &ZKProof, new_block: &Block) -> (r:
        ZKProof)
        ensures
            r@.proof_data.len() == 256,
            r@.public_inputs == sha256_of(previous_proof@.proof_data) + spec_public_inputs(
                new_block@,
            ),
            r@.verification_key.len() == 0,
            r@.proof_type == ProofType::Groth16,
    {
        let mut proof_data: Vec<u8> = Vec::new();
        let mut i: usize = 0;
        while i < 8
            invariant
                i <= 8,
                proof_data@.len() == 32 * i,
            decreases 8 - i,
        {
            let chunk = random_bytes32();
            push_bytes(&mut proof_data, chunk.as_slice());
            i = i + 1;
        }
        let public_inputs = self.extract_recursive_public_inputs(previous_proof, new_block);
        ZKProof {
            proof_data,
            public_inputs,
            verification_key: Vec::new(),
            proof_type: ProofType::Groth16,
        }
    }
}

} // verus!
