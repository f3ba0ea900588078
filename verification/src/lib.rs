//! A single-node engine for a proof-of-validity blockchain: validators
//! propose blocks, attach a succinct proof of validity, vote, and converge
//! on a finalized chain once a quorum approves.

pub mod codec;
pub mod commitment;
pub mod consensus;
pub mod network;
pub mod registry;
pub mod storage;
pub mod types;
pub mod zk_proof;
