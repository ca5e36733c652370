use blocktree::block::Block;
use blocktree::blocktree::Blocktree;
use blocktree::clustering::{fiedler_component_index, partition_by_sign, Clustering};
use blocktree::coin::Coin;
use blocktree::consensus::{Consensus, ProofOfWork};
use blocktree::encoding::{i64_to_dec, push_lp, u64_to_dec};
use blocktree::error::BlocktreeError;
use blocktree::network::Network;
use blocktree::storage::{InMemoryStorage, Storage};
use blocktree::transaction::Transaction;
use blocktree::tree::{BlocktreeCore, Tree};

struct QuietNetwork;

impl Network for QuietNetwork {
    fn broadcast_block(&self, _block: Block) -> Result<(), BlocktreeError> {
        Ok(())
    }
}

struct RefusingNetwork;

impl Network for RefusingNetwork {
    fn broadcast_block(&self, _block: Block) -> Result<(), BlocktreeError> {
        Err(BlocktreeError::NetworkError("channel closed".to_string()))
    }
}

struct ParityClustering {
    node_count: u32,
}

impl Clustering for ParityClustering {
    fn compute_fiedler_vector(&self) -> Result<Vec<bool>, BlocktreeError> {
        if self.node_count < 2 {
            return Err(BlocktreeError::ClusteringError(
                "Failed to compute Fiedler vector".to_string(),
            ));
        }
        Ok((0..self.node_count).map(|i| i % 2 == 0).collect())
    }

    fn partition_nodes(&self, fiedler_vector: &Vec<bool>) -> (Vec<u32>, Vec<u32>) {
        let nodes: Vec<u32> = (0..self.node_count).collect();
        partition_by_sign(&nodes, fiedler_vector)
    }
}

fn ledger(node_count: u32) -> Blocktree<ParityClustering, QuietNetwork> {
    Blocktree::new(QuietNetwork, ParityClustering { node_count })
}

#[test]
fn test_decimal_encoding() {
    assert_eq!(u64_to_dec(0), "0");
    assert_eq!(u64_to_dec(1234567890), "1234567890");
    assert_eq!(u64_to_dec(u64::MAX), "18446744073709551615");
    assert_eq!(i64_to_dec(-5), "-5");
    assert_eq!(i64_to_dec(0), "0");
    assert_eq!(i64_to_dec(i64::MIN), "-9223372036854775808");
    let mut s = String::new();
    push_lp(&mut s, "abc");
    push_lp(&mut s, "");
    assert_eq!(s, "3:abc0:");
}

#[test]
fn test_tx_digest_formula() {
    let t = Transaction::new("ab".to_string(), "cd".to_string(), 7).unwrap();
    let serial = format!("2:ab|2:cd|7|{}", t.timestamp);
    let expected = hex::encode(<sha2::Sha256 as sha2::Digest>::digest(serial.as_bytes()));
    assert_eq!(t.tx_id, expected);
    assert_eq!(t.calculate_hash().unwrap(), t.tx_id);
}

#[test]
fn test_tx_validation() {
    let good = Transaction::new("a".to_string(), "b".to_string(), 1).unwrap();
    assert!(good.is_valid());
    let unnamed = Transaction::new(String::new(), "b".to_string(), 1).unwrap();
    assert!(!unnamed.is_valid());
    let empty_amount = Transaction::new("a".to_string(), "b".to_string(), 0).unwrap();
    assert!(!empty_amount.is_valid());
}

#[test]
fn test_block_digest_formula() {
    let b = Block::new(0, Vec::new(), "0".to_string(), "b".to_string()).unwrap();
    assert_eq!(b.merkle_root, "0");
    let serial = format!("0|{}|0||1:0|1:b|1:0|0", b.timestamp);
    let expected = hex::encode(<sha3::Sha3_256 as sha3::Digest>::digest(serial.as_bytes()));
    assert_eq!(b.hash, expected);
    assert_eq!(b.calculate_hash().unwrap(), b.hash);
}

#[test]
fn test_nonce_avalanche() {
    let mut block = Block::new(0, Vec::new(), "0".to_string(), "root".to_string()).unwrap();
    let mut seen = std::collections::HashSet::new();
    for nonce in 0..1000u64 {
        block.nonce = nonce;
        block.update_hash().unwrap();
        assert!(seen.insert(block.hash.clone()), "digest collision between two nonces");
    }
}

#[test]
fn test_merkle_root_empty_and_order() {
    assert_eq!(Block::calculate_merkle_root(&Vec::new()).unwrap(), "0");
    let t1 = Transaction::new("a".to_string(), "b".to_string(), 1).unwrap();
    let t2 = Transaction::new("c".to_string(), "d".to_string(), 2).unwrap();
    let forward = Block::calculate_merkle_root(&vec![t1.clone(), t2.clone()]).unwrap();
    let again = Block::calculate_merkle_root(&vec![t1.clone(), t2.clone()]).unwrap();
    let reversed = Block::calculate_merkle_root(&vec![t2.clone(), t1.clone()]).unwrap();
    assert_eq!(forward, again);
    assert_ne!(forward, reversed);
    let single = Block::calculate_merkle_root(&vec![t1.clone()]).unwrap();
    assert_eq!(single, Block::calculate_merkle_root(&vec![t1]).unwrap());
}

#[test]
fn test_merkle_root_matches_reference_tree() {
    let t1 = Transaction::new("a".to_string(), "b".to_string(), 1).unwrap();
    let t2 = Transaction::new("c".to_string(), "d".to_string(), 2).unwrap();
    let leaves: Vec<[u8; 32]> = [&t1, &t2]
        .iter()
        .map(|t| <sha3::Sha3_256 as sha3::Digest>::digest(t.tx_id.as_bytes()).into())
        .collect();
    let tree = rs_merkle::MerkleTree::<rs_merkle::algorithms::Sha256>::from_leaves(&leaves);
    let expected = hex::encode(tree.root().unwrap());
    assert_eq!(Block::calculate_merkle_root(&vec![t1, t2]).unwrap(), expected);
}

#[test]
fn test_mine_zero_difficulty_immediate() {
    let pow = ProofOfWork::new(0, 0);
    let block = Block::new(0, Vec::new(), "0".to_string(), "x".to_string()).unwrap();
    let nonce_before = block.nonce;
    let mined = pow.mine_block(block).unwrap();
    assert_eq!(mined.nonce, nonce_before);
}

#[test]
fn test_mine_timeout_zero_budget() {
    let pow = ProofOfWork::new(64, 0);
    let block = Block::new(0, Vec::new(), "0".to_string(), "x".to_string()).unwrap();
    assert!(matches!(
        pow.mine_block(block),
        Err(BlocktreeError::MiningTimeout(_))
    ));
}

#[test]
fn test_mine_meets_difficulty() {
    let pow = ProofOfWork::new(1, 5000);
    let block = Block::new(0, Vec::new(), "0".to_string(), "x".to_string()).unwrap();
    let mined = pow.mine_block(block).unwrap();
    assert!(mined.hash.starts_with('0'));
    assert_eq!(mined.calculate_hash().unwrap(), mined.hash);
}

#[test]
fn test_adjust_difficulty_rule() {
    let pow = ProofOfWork::new(2, 1000);
    let mut earlier = Block::new(0, Vec::new(), "0".to_string(), "x".to_string()).unwrap();
    let mut later = Block::new(1, Vec::new(), earlier.hash.clone(), "x".to_string()).unwrap();
    earlier.timestamp = 10_000;
    later.timestamp = 10_400;
    assert_eq!(pow.adjust_difficulty(&later, &earlier), 3);
    later.timestamp = 13_000;
    assert_eq!(pow.adjust_difficulty(&later, &earlier), 1);
    later.timestamp = 11_000;
    assert_eq!(pow.adjust_difficulty(&later, &earlier), 2);
    let floored = ProofOfWork::new(1, 1000);
    assert_eq!(floored.adjust_difficulty(&later, &earlier), 1);
    later.timestamp = 13_000;
    assert_eq!(floored.adjust_difficulty(&later, &earlier), 1);
}

#[test]
fn test_chain_walk_detects_tampering() {
    let tree = BlocktreeCore::new();
    let b0 = Block::new(0, Vec::new(), "0".to_string(), "x".to_string()).unwrap();
    let b1 = Block::new(1, Vec::new(), b0.hash.clone(), "x".to_string()).unwrap();

    let mut honest = InMemoryStorage::new();
    honest.save_block(b0.clone(), "x").unwrap();
    honest.save_block(b1.clone(), "x").unwrap();
    assert!(tree.is_branch_valid("x", &honest).unwrap());

    let mut tampered = b1.clone();
    let mut digits: Vec<char> = tampered.hash.chars().collect();
    digits[0] = if digits[0] == '0' { '1' } else { '0' };
    tampered.hash = digits.into_iter().collect();
    let mut forged = InMemoryStorage::new();
    forged.save_block(b0.clone(), "x").unwrap();
    forged.save_block(tampered, "x").unwrap();
    assert!(!tree.is_branch_valid("x", &forged).unwrap());

    let unlinked = Block::new(1, Vec::new(), "beef".to_string(), "x".to_string()).unwrap();
    let mut broken = InMemoryStorage::new();
    broken.save_block(b0, "x").unwrap();
    broken.save_block(unlinked, "x").unwrap();
    assert!(!tree.is_branch_valid("x", &broken).unwrap());

    assert!(matches!(
        tree.is_branch_valid("nowhere", &honest),
        Err(BlocktreeError::BranchNotFound(_))
    ));
}

#[test]
fn test_split_branch_seeds_children() {
    let mut tree = BlocktreeCore::new();
    let mut storage = InMemoryStorage::new();
    let b0 = Block::new(0, Vec::new(), "0".to_string(), "m".to_string()).unwrap();
    storage.save_block(b0.clone(), "m").unwrap();
    tree.split_branch("m", &ParityClustering { node_count: 4 }, &mut storage)
        .unwrap();
    let parent = storage.get_branch("m").unwrap();
    assert_eq!(parent.len(), 1);
    let child1 = storage.get_branch("m.1").unwrap();
    let child2 = storage.get_branch("m.2").unwrap();
    assert_eq!(child1.len(), 1);
    assert_eq!(child2.len(), 1);
    assert_eq!(child1[0].hash, b0.hash);
    assert_eq!(child2[0].hash, b0.hash);
}

#[test]
fn test_split_branch_failures() {
    let mut tree = BlocktreeCore::new();
    let mut storage = InMemoryStorage::new();
    assert!(matches!(
        tree.split_branch("m", &ParityClustering { node_count: 4 }, &mut storage),
        Err(BlocktreeError::BranchNotFound(_))
    ));
    let b0 = Block::new(0, Vec::new(), "0".to_string(), "m".to_string()).unwrap();
    storage.save_block(b0, "m").unwrap();
    assert!(matches!(
        tree.split_branch("m", &ParityClustering { node_count: 1 }, &mut storage),
        Err(BlocktreeError::ClusteringError(_))
    ));
    assert!(storage.get_branch("m.1").is_none());
    assert!(storage.get_branch("m.2").is_none());
}

#[test]
fn test_add_block_unknown_branch() {
    let mut ledger = ledger(10);
    let tx = Transaction::new("a".to_string(), "b".to_string(), 1).unwrap();
    assert!(matches!(
        ledger.add_block(vec![tx], "nowhere"),
        Err(BlocktreeError::BranchNotFound(_))
    ));
    assert_eq!(ledger.get_bkt_supply(), 0);
}

#[test]
fn test_add_block_exhausted_index_space() {
    let mut ledger = ledger(10);
    let mut maxed = Block::new(0, Vec::new(), "0".to_string(), "maxed".to_string()).unwrap();
    maxed.index = u64::MAX;
    maxed.update_hash().unwrap();
    ledger.storage.save_block(maxed, "maxed").unwrap();
    let tx = Transaction::new("a".to_string(), "b".to_string(), 1).unwrap();
    assert!(matches!(
        ledger.add_block(vec![tx], "maxed"),
        Err(BlocktreeError::StorageError(_))
    ));
}

#[test]
fn test_add_block_network_failure_keeps_append() {
    let mut ledger = Blocktree::new(RefusingNetwork, ParityClustering { node_count: 10 });
    let tx = Transaction::new("a".to_string(), "b".to_string(), 1).unwrap();
    assert!(matches!(
        ledger.add_block(vec![tx], "root"),
        Err(BlocktreeError::NetworkError(_))
    ));
    assert_eq!(ledger.storage.get_branch("root").unwrap().len(), 2);
    assert_eq!(ledger.get_bkt_supply(), 0);
}

#[test]
fn test_end_to_end_split_lineage() {
    let mut ledger = ledger(10);
    for i in 1..=5 {
        let tx = Transaction::new(format!("s{}", i), format!("r{}", i), 100).unwrap();
        ledger.add_block(vec![tx], "root").expect("Failed to add block");
    }
    let root = ledger.storage.get_branch("root").unwrap();
    assert_eq!(root.len(), 6);
    let pre_split_tip = &root[4];
    for child in ["root.1", "root.2"] {
        let blocks = ledger.storage.get_branch(child).unwrap();
        assert!(!blocks.is_empty());
        assert!(blocks
            .iter()
            .any(|b| b.previous_hash == pre_split_tip.hash));
    }
    assert!(ledger.is_branch_valid("root").unwrap());
    let names = ledger.get_branches();
    assert!(names.iter().any(|n| n == "root"));
    assert!(names.iter().any(|n| n == "root.1"));
    assert!(names.iter().any(|n| n == "root.2"));
}

#[test]
fn test_reward_decay_and_supply() {
    let mut coin = Coin::new();
    assert_eq!(coin.get_supply(), 0);
    assert_eq!(coin.mine_reward(), 50);
    assert_eq!(coin.mine_reward(), 49);
    assert_eq!(coin.get_supply(), 99);

    let mut ledger = ledger(10);
    assert_eq!(ledger.get_bkt_supply(), 0);
    let tx = Transaction::new("a".to_string(), "b".to_string(), 1).unwrap();
    ledger.add_block(vec![tx], "root").unwrap();
    assert_eq!(ledger.get_bkt_supply(), 50);
}

#[test]
fn test_fiedler_component_index() {
    assert!(matches!(
        fiedler_component_index(0),
        Err(BlocktreeError::ClusteringError(_))
    ));
    assert!(matches!(
        fiedler_component_index(1),
        Err(BlocktreeError::ClusteringError(_))
    ));
    assert_eq!(fiedler_component_index(2).unwrap(), 1);
    assert_eq!(fiedler_component_index(5).unwrap(), 1);
}

#[test]
fn test_partition_by_sign() {
    let nodes: Vec<u32> = vec![0, 1, 2, 3];
    let signs = vec![true, false, true, false];
    let (a, b) = partition_by_sign(&nodes, &signs);
    assert_eq!(a, vec![0, 2]);
    assert_eq!(b, vec![1, 3]);
    let (all, none) = partition_by_sign(&nodes, &vec![true; 4]);
    assert_eq!(all, nodes);
    assert!(none.is_empty());
}

#[test]
fn test_two_node_spectral_pipeline() {
    let n = 2usize;
    let latency = nalgebra::DMatrix::from_row_slice(n, n, &[0.0, 50.0, 50.0, 0.0]);
    let mut adjacency = nalgebra::DMatrix::zeros(n, n);
    for i in 0..n {
        for j in 0..n {
            if i != j {
                adjacency[(i, j)] = 1.0 / (latency[(i, j)] + 1e-6);
            }
        }
    }
    let degree = nalgebra::DMatrix::from_diagonal(&nalgebra::DVector::from_iterator(
        n,
        (0..n).map(|i| adjacency.row(i).sum()),
    ));
    let laplacian = degree - adjacency;
    let eigen = laplacian.symmetric_eigen();
    assert_eq!(eigen.eigenvalues.len(), 2);
    let mut pairs: Vec<(f64, usize)> = eigen
        .eigenvalues
        .iter()
        .enumerate()
        .map(|(i, &v)| (v, i))
        .collect();
    pairs.sort_by(|a, b| a.0.partial_cmp(&b.0).unwrap_or(std::cmp::Ordering::Equal));
    let fiedler = fiedler_component_index(pairs.len()).unwrap();
    let column = eigen.eigenvectors.column(pairs[fiedler].1);
    let signs: Vec<bool> = column.iter().map(|&v| v >= 0.0).collect();
    assert_eq!(signs.len(), 2);
    let (a, b) = partition_by_sign(&vec![0u32, 1], &signs);
    assert_eq!(a.len() + b.len(), 2);
}

#[test]
fn test_error_messages() {
    assert_eq!(
        BlocktreeError::BranchNotFound("side".to_string()).message(),
        "Branch not found: side"
    );
    assert_eq!(
        BlocktreeError::MiningTimeout("budget".to_string()).message(),
        "Mining timeout: budget"
    );
    assert_eq!(
        BlocktreeError::ClusteringError("degenerate".to_string()).message(),
        "Clustering error: degenerate"
    );
    assert_eq!(
        BlocktreeError::NetworkError("closed".to_string()).message(),
        "Network error: closed"
    );
    assert_eq!(
        BlocktreeError::InvalidHash("h".to_string()).message(),
        "Invalid hash: h"
    );
    assert_eq!(
        BlocktreeError::InvalidPreviousHash("p".to_string()).message(),
        "Invalid previous hash: p"
    );
    assert_eq!(
        BlocktreeError::SerializationError("s".to_string()).message(),
        "Serialization error: s"
    );
    assert_eq!(
        BlocktreeError::TransactionError("t".to_string()).message(),
        "Transaction error: t"
    );
    assert_eq!(
        BlocktreeError::StorageError("d".to_string()).message(),
        "Storage error: d"
    );
}
