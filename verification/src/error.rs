//! The failure modes that ledger operations surface to their callers.

use vstd::prelude::*;
use vstd::string::StringExecFns;

verus! {

/// Every fallible operation of the ledger reports one of these kinds,
/// each carrying a short description of what went wrong.
#[derive(Debug, Clone)]
pub enum BlocktreeError {
    /// A referenced branch identifier is absent, or the branch is empty.
    BranchNotFound(String),
    /// A block's stored digest does not match a fresh recomputation.
    InvalidHash(String),
    /// A block's predecessor digest does not match its predecessor's digest.
    InvalidPreviousHash(String),
    /// A canonical encoding could not be produced.
    SerializationError(String),
    /// The proof-of-work search exceeded its time budget.
    MiningTimeout(String),
    /// The partition computation was degenerate (too few nodes).
    ClusteringError(String),
    /// A malformed transaction was handed in.
    TransactionError(String),
    /// The broadcaster rejected or failed to publish a block.
    NetworkError(String),
    /// The ledger store failed to append or read.
    StorageError(String),
}

impl BlocktreeError {
    /// A readable description of the failure, in place of std's `Display`.
    pub fn message(&self) -> (r: String)
        ensures
            match self {
                BlocktreeError::BranchNotFound(id) => r@ == "Branch not found: "@ + id@,
                BlocktreeError::InvalidHash(msg) => r@ == "Invalid hash: "@ + msg@,
                BlocktreeError::InvalidPreviousHash(msg) => r@ == "Invalid previous hash: "@
                    + msg@,
                BlocktreeError::SerializationError(msg) => r@ == "Serialization error: "@ + msg@,
                BlocktreeError::MiningTimeout(msg) => r@ == "Mining timeout: "@ + msg@,
                BlocktreeError::ClusteringError(msg) => r@ == "Clustering error: "@ + msg@,
                BlocktreeError::TransactionError(msg) => r@ == "Transaction error: "@ + msg@,
                BlocktreeError::NetworkError(msg) => r@ == "Network error: "@ + msg@,
                BlocktreeError::StorageError(msg) => r@ == "Storage error: "@ + msg@,
            },
    {
        match self {
            BlocktreeError::BranchNotFound(id) => "Branch not found: ".to_owned().concat(
                id.as_str(),
            ),
            BlocktreeError::InvalidHash(msg) => "Invalid hash: ".to_owned().concat(msg.as_str()),
            BlocktreeError::InvalidPreviousHash(msg) => "Invalid previous hash: ".to_owned().concat(
                msg.as_str(),
            ),
            BlocktreeError::SerializationError(msg) => "Serialization error: ".to_owned().concat(
                msg.as_str(),
            ),
            BlocktreeError::MiningTimeout(msg) => "Mining timeout: ".to_owned().concat(
                msg.as_str(),
            ),
            BlocktreeError::ClusteringError(msg) => "Clustering error: ".to_owned().concat(
                msg.as_str(),
            ),
            BlocktreeError::TransactionError(msg) => "Transaction error: ".to_owned().concat(
                msg.as_str(),
            ),
            BlocktreeError::NetworkError(msg) => "Network error: ".to_owned().concat(msg.as_str()),
            BlocktreeError::StorageError(msg) => "Storage error: ".to_owned().concat(msg.as_str()),
        }
    }
}

} // verus!
