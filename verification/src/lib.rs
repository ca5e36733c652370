//! A branching ledger: a tree of independently mined block sequences.
//!
//! Each branch is an append-only chain of proof-of-work blocks; once a branch
//! grows past a split threshold, two child branches are seeded from its tip.
//! The data model (transactions, blocks, Merkle commitments), the consensus
//! search, the branch-tree bookkeeping and the split decisions are verified;
//! the cryptographic digests themselves are called through trusted wrappers.

pub mod block;
pub mod blocktree;
pub mod clock;
pub mod clustering;
pub mod coin;
pub mod consensus;
pub mod encoding;
pub mod error;
pub mod hashing;
pub mod network;
pub mod storage;
pub mod transaction;
pub mod tree;
