//! The branch tree: appends blocks through a store, validates a branch's
//! internal consistency, and splits a branch into two children seeded
//! from its tip.

use vstd::prelude::*;
use vstd::string::StringExecFns;

use crate::block::{spec_block_digest, Block, BlockModel};
use crate::clustering::Clustering;
use crate::error::BlocktreeError;
use crate::storage::{branch_or_empty, BranchMap, Storage};

verus! {

/// A branch is internally consistent when, from its second block on,
/// every block's stored digest matches a fresh recomputation of its
/// fields and names its immediate predecessor's stored digest.
pub open spec fn spec_chain_valid(chain: Seq<BlockModel>) -> bool {
    forall|i: int|
        1 <= i < chain.len() ==> (#[trigger] chain[i]).hash == spec_block_digest(chain[i])
            && chain[i].previous_hash == chain[i - 1].hash
}

/// Law: a branch stays internally consistent when a well-formed block
/// that names the old tip extends it. A branch grown block by block from
/// freshly mined, correctly linked blocks is therefore always valid.
pub proof fn lemma_mined_append_preserves_validity(chain: Seq<BlockModel>, b: BlockModel)
    requires
        spec_chain_valid(chain),
        crate::block::spec_block_wf(b),
        chain.len() > 0 ==> b.previous_hash == chain.last().hash,
    ensures
        spec_chain_valid(chain.push(b)),
{
    let grown = chain.push(b);
    assert forall|i: int|
        1 <= i < grown.len() implies (#[trigger] grown[i]).hash == spec_block_digest(grown[i])
        && grown[i].previous_hash == grown[i - 1].hash by {
        if i < chain.len() {
            assert(grown[i] == chain[i]);
            assert(grown[i - 1] == chain[i - 1]);
        } else {
            assert(grown[i] == b);
            assert(grown[i - 1] == chain[i - 1]);
            assert(chain[i - 1] == chain.last());
        }
    }
}

/// Law: corrupting one stored digest in a branch of two or more blocks
/// makes the branch invalid — the altered block fails the digest
/// recomputation, or, for the first block, its successor's linkage
/// check.
pub proof fn lemma_digest_tamper_invalidates(c: Seq<BlockModel>, t: Seq<BlockModel>, i: int)
    requires
        spec_chain_valid(c),
        c.len() >= 2,
        t.len() == c.len(),
        0 <= i < c.len(),
        t[i].hash != c[i].hash,
        t[i].index == c[i].index,
        t[i].timestamp == c[i].timestamp,
        t[i].transactions == c[i].transactions,
        t[i].previous_hash == c[i].previous_hash,
        t[i].branch_id == c[i].branch_id,
        t[i].nonce == c[i].nonce,
        t[i].merkle_root == c[i].merkle_root,
        forall|j: int| 0 <= j < c.len() && j != i ==> c[j] == #[trigger] t[j],
    ensures
        !spec_chain_valid(t),
{
    if i >= 1 {
        assert(spec_block_digest(t[i]) == spec_block_digest(c[i])) by {
            assert(crate::block::spec_block_serial(t[i]) == crate::block::spec_block_serial(
                c[i],
            ));
        }
        if spec_chain_valid(t) {
            assert(t[i].hash == spec_block_digest(t[i]));
            assert(false);
        }
    } else {
        if spec_chain_valid(t) {
            assert(t[1].previous_hash == t[0].hash);
            assert(c[1] == t[1]);
            assert(c[1].previous_hash == c[0].hash);
            assert(false);
        }
    }
}

/// The first child's identifier: the parent's with ".1" appended.
pub open spec fn spec_child1(parent: Seq<char>) -> Seq<char> {
    parent + seq!['.', '1']
}

/// The second child's identifier: the parent's with ".2" appended.
pub open spec fn spec_child2(parent: Seq<char>) -> Seq<char> {
    parent + seq!['.', '2']
}

/// The store after a split of `parent` with tip `tip`: each child branch
/// gains one copy of the tip, the parent is left untouched.
pub open spec fn spec_seeded(m: BranchMap, parent: Seq<char>, tip: BlockModel) -> BranchMap {
    let c1 = spec_child1(parent);
    let c2 = spec_child2(parent);
    let m1 = m.insert(c1, branch_or_empty(m, c1).push(tip));
    m1.insert(c2, branch_or_empty(m1, c2).push(tip))
}

/// The branch-tree policy: the split threshold, and the operations that
/// read and extend branches through a store.
pub trait Tree: Sized {
    /// The block count at which a branch must split.
    spec fn spec_split_interval(&self) -> usize;

    /// Appends a mined block to the named branch.
    fn add_block<S: Storage>(&mut self, block: Block, branch_id: &str, storage: &mut S) -> (r:
        Result<(), BlocktreeError>)
        ensures
            *final(self) == *old(self),
            match r {
                Ok(()) => final(storage).branches() == old(storage).branches().insert(
                    branch_id@,
                    branch_or_empty(old(storage).branches(), branch_id@).push(block@),
                ),
                Err(e) => final(storage).branches() == old(storage).branches()
                    && e is StorageError,
            },
    ;

    /// Splits the named branch: asks the partitioner for a partition,
    /// then seeds both children with a copy of the parent's tip. A
    /// failed partition aborts the split with the store untouched.
    fn split_branch<C: Clustering, S: Storage>(
        &mut self,
        branch_id: &str,
        clustering: &C,
        storage: &mut S,
    ) -> (r: Result<(), BlocktreeError>)
        ensures
            *final(self) == *old(self),
            ({
                let m = old(storage).branches();
                let missing = !m.contains_key(branch_id@) || m[branch_id@].len() == 0;
                match r {
                    Ok(()) => !missing && final(storage).branches() == spec_seeded(
                        m,
                        branch_id@,
                        m[branch_id@].last(),
                    ),
                    Err(e) => {
                        &&& (e is BranchNotFound <==> missing)
                        &&& (e is BranchNotFound || e is ClusteringError || e is StorageError)
                        &&& (e is BranchNotFound || e is ClusteringError
                            ==> final(storage).branches() == m)
                        &&& (e is StorageError ==> final(storage).branches() == m
                            || final(storage).branches() == m.insert(
                            spec_child1(branch_id@),
                            branch_or_empty(m, spec_child1(branch_id@)).push(
                                m[branch_id@].last(),
                            ),
                        ))
                    },
                }
            }),
    ;

    /// Walks the named branch and reports whether it is internally
    /// consistent; absent branches are refused.
    fn is_branch_valid<S: Storage>(&self, branch_id: &str, storage: &S) -> (r: Result<
        bool,
        BlocktreeError,
    >)
        ensures
            match r {
                Ok(b) => storage.branches().contains_key(branch_id@) && b == spec_chain_valid(
                    storage.branches()[branch_id@],
                ),
                Err(e) => e is BranchNotFound && !storage.branches().contains_key(branch_id@),
            },
    ;
}

/// The concrete branch-tree policy: splits a branch once it holds five
/// blocks.
pub struct BlocktreeCore {
    split_interval: usize,
}

impl BlocktreeCore {
    /// A tree with the default split threshold of five blocks.
    pub fn new() -> (r: BlocktreeCore)
        ensures
            r.spec_split_interval() == 5,
    {
        BlocktreeCore { split_interval: 5 }
    }

    /// The block count at which a branch must split.
    pub fn get_split_interval(&self) -> (r: usize)
        ensures
            r == self.spec_split_interval(),
    {
        self.split_interval
    }
}

impl Tree for BlocktreeCore {
    closed spec fn spec_split_interval(&self) -> usize {
        self.split_interval
    }

    fn add_block<S: Storage>(&mut self, block: Block, branch_id: &str, storage: &mut S) -> (r:
        Result<(), BlocktreeError>) {
        storage.save_block(block, branch_id)
    }

    fn split_branch<C: Clustering, S: Storage>(
        &mut self,
        branch_id: &str,
        clustering: &C,
        storage: &mut S,
    ) -> (r: Result<(), BlocktreeError>) {
        let tip: Block;
        match storage.get_branch(branch_id) {
            Some(branch) => {
                if branch.len() == 0 {
                    return Err(BlocktreeError::BranchNotFound("Empty branch".to_owned()));
                }
                tip = branch[branch.len() - 1].duplicate();
            },
            None => {
                return Err(BlocktreeError::BranchNotFound(branch_id.to_owned()));
            },
        }
        let fiedler_vector = match clustering.compute_fiedler_vector() {
            Ok(v) => v,
            Err(e) => {
                return Err(e);
            },
        };
        let _clusters = clustering.partition_nodes(&fiedler_vector);
        let mut child1 = branch_id.to_owned();
        child1.append(".1");
        let mut child2 = branch_id.to_owned();
        child2.append(".2");
        proof {
            reveal_strlit(".1");
            reveal_strlit(".2");
            assert(".1"@ =~= seq!['.', '1']);
            assert(".2"@ =~= seq!['.', '2']);
            assert(child1@ == spec_child1(branch_id@));
            assert(child2@ == spec_child2(branch_id@));
        }
        let tip_copy = tip.duplicate();
        match storage.save_block(tip, child1.as_str()) {
            Ok(()) => {},
            Err(e) => {
                return Err(e);
            },
        }
        match storage.save_block(tip_copy, child2.as_str()) {
            Ok(()) => {},
            Err(e) => {
                return Err(e);
            },
        }
        Ok(())
    }

    fn is_branch_valid<S: Storage>(&self, branch_id: &str, storage: &S) -> (r: Result<
        bool,
        BlocktreeError,
    >) {
        let chain: &Vec<Block> = match storage.get_branch(branch_id) {
            Some(c) => c,
            None => {
                return Err(BlocktreeError::BranchNotFound(branch_id.to_owned()));
            },
        };
        let ghost cm = storage.branches()[branch_id@];
        let n = chain.len();
        if n == 0 {
            return Ok(true);
        }
        for i in 1..n
            invariant
                1 <= i <= n,
                n == chain@.len(),
                cm == chain.deep_view(),
                storage.branches().contains_key(branch_id@),
                storage.branches()[branch_id@] == cm,
                forall|j: int|
                    1 <= j < i ==> (#[trigger] cm[j]).hash == spec_block_digest(cm[j])
                        && cm[j].previous_hash == cm[j - 1].hash,
        {
            let current = &chain[i];
            let previous = &chain[i - 1];
            proof {
                assert(cm[i as int] == chain@[i as int]@);
                assert(cm[i - 1] == chain@[i - 1]@);
            }
            let current_hash = match current.calculate_hash() {
                Ok(h) => h,
                Err(e) => {
                    return Err(e);
                },
            };
            if !(current.hash == current_hash) {
                proof {
                    assert(cm[i as int].hash != spec_block_digest(cm[i as int]));
                }
                return Ok(false);
            }
            if !(current.previous_hash == previous.hash) {
                proof {
                    assert(cm[i as int].previous_hash != cm[i - 1].hash);
                }
                return Ok(false);
            }
        }
        Ok(true)
    }
}

} // verus!
