use blocktree::block::Block;
use blocktree::blocktree::Blocktree;
use blocktree::clustering::{partition_by_sign, Clustering};
use blocktree::error::BlocktreeError;
use blocktree::network::Network;
use blocktree::storage::Storage;
use blocktree::transaction::Transaction;

struct FakeNetwork;

impl Network for FakeNetwork {
    fn broadcast_block(&self, _block: Block) -> Result<(), BlocktreeError> {
        Ok(())
    }
}

struct FakeClustering {
    node_count: u32,
}

impl Clustering for FakeClustering {
    fn compute_fiedler_vector(&self) -> Result<Vec<bool>, BlocktreeError> {
        if self.node_count < 2 {
            return Err(BlocktreeError::ClusteringError(
                "Failed to compute Fiedler vector".to_string(),
            ));
        }
        Ok((0..self.node_count).map(|i| i % 2 == 0).collect())
    }

    fn partition_nodes(&self, fiedler_vector: &Vec<bool>) -> (Vec<u32>, Vec<u32>) {
        let nodes: Vec<u32> = (0..self.node_count).collect();
        partition_by_sign(&nodes, fiedler_vector)
    }
}

fn fresh_ledger() -> Blocktree<FakeClustering, FakeNetwork> {
    Blocktree::new(FakeNetwork, FakeClustering { node_count: 10 })
}

#[test]
fn test_genesis_block() {
    let blocktree = fresh_ledger();
    let root_branch = blocktree.storage.get_branch("root").unwrap();
    assert_eq!(root_branch.len(), 1);
    assert_eq!(root_branch[0].index, 0);
    assert_eq!(root_branch[0].transactions[0].sender, "genesis");
}

#[test]
fn test_add_block_and_split() {
    let mut blocktree = fresh_ledger();
    for i in 1..=5 {
        let tx = Transaction::new(format!("sender{}", i), format!("receiver{}", i), 100).unwrap();
        blocktree
            .add_block(vec![tx], "root")
            .expect("Failed to add block");
    }
    assert!(blocktree.storage.get_branch("root.1").is_some());
    assert!(blocktree.storage.get_branch("root.2").is_some());
}

#[test]
fn test_branch_validation() {
    let mut blocktree = fresh_ledger();
    let tx = Transaction::new("sender".to_string(), "receiver".to_string(), 100).unwrap();
    blocktree
        .add_block(vec![tx], "root")
        .expect("Failed to add block");
    assert!(blocktree.is_branch_valid("root").unwrap());
}
