//! The ledger controller: builds a block on a branch's tip, mines it,
//! stores it, broadcasts it, credits the reward, and splits the branch
//! once it has grown past the threshold.

use vstd::pervasive::unreached;
use vstd::prelude::*;

use crate::block::{spec_block_wf, Block, BlockModel};
use crate::clustering::Clustering;
use crate::coin::{spec_credit, Coin};
use crate::consensus::{spec_meets_difficulty, Consensus, ProofOfWork};
use crate::error::BlocktreeError;
use crate::network::Network;
use crate::storage::{branch_or_empty, BranchMap, InMemoryStorage, Storage};
use crate::transaction::{Transaction, TransactionModel};
use crate::tree::{spec_chain_valid, spec_child1, spec_seeded, BlocktreeCore, Tree};

verus! {

/// The shape of the block a fresh ledger starts with: index 0 on the
/// root branch, the "0" predecessor sentinel, one zero-amount seed
/// transaction between "genesis" and itself.
pub open spec fn spec_genesis_shaped(g: BlockModel) -> bool {
    &&& g.index == 0
    &&& g.previous_hash == "0"@
    &&& g.branch_id == "root"@
    &&& g.nonce == 0
    &&& g.transactions.len() == 1
    &&& g.transactions[0].sender == "genesis"@
    &&& g.transactions[0].receiver == "genesis"@
    &&& g.transactions[0].amount == 0
    &&& spec_block_wf(g)
}

/// A mined block `b` fit to extend the branch at `k`: it carries the
/// next index, names the tip's digest, holds the given transactions, is
/// well formed, and meets the difficulty.
pub open spec fn spec_mined_block(
    m: BranchMap,
    k: Seq<char>,
    txs: Seq<TransactionModel>,
    difficulty: usize,
    b: BlockModel,
) -> bool {
    let tip = m[k].last();
    &&& b.index == tip.index + 1
    &&& b.previous_hash == tip.hash
    &&& b.branch_id == k
    &&& b.transactions == txs
    &&& spec_block_wf(b)
    &&& spec_meets_difficulty(b.hash, difficulty as nat)
}

/// The branch map after `b` extended the branch at `k`.
pub open spec fn spec_appended(m: BranchMap, k: Seq<char>, b: BlockModel) -> BranchMap {
    m.insert(k, m[k].push(b))
}

/// How one successful `add_block` call changes the branches: some mined
/// block `b` over the given transactions extends the branch at `k`, and
/// where the grown branch has reached the split threshold, both children
/// are seeded from it.
pub open spec fn spec_mined_extension(
    m: BranchMap,
    k: Seq<char>,
    txs: Seq<TransactionModel>,
    interval: usize,
    difficulty: usize,
    b: BlockModel,
    result: BranchMap,
) -> bool {
    let appended = spec_appended(m, k, b);
    &&& spec_mined_block(m, k, txs, difficulty, b)
    &&& if appended[k].len() >= interval {
        result == spec_seeded(appended, k, b)
    } else {
        result == appended
    }
}

/// The reward accumulator after exactly one credit: the supply grew by
/// the then-current reward (saturating), which then decayed by one part
/// in a thousand at the fixed-point scale.
pub open spec fn spec_rewarded_once<C: Clustering, N: Network>(
    pre: Blocktree<C, N>,
    post: Blocktree<C, N>,
) -> bool {
    &&& post.spec_supply() == spec_credit(pre.spec_supply(), pre.spec_current_reward())
    &&& post.spec_reward_scaled() as int == (pre.spec_reward_scaled() as int) * 999 / 1000
}

/// The reward accumulator untouched: supply and pending reward stand as
/// they were.
pub open spec fn spec_unrewarded<C: Clustering, N: Network>(
    pre: Blocktree<C, N>,
    post: Blocktree<C, N>,
) -> bool {
    &&& post.spec_supply() == pre.spec_supply()
    &&& post.spec_reward_scaled() == pre.spec_reward_scaled()
}

/// The composition root: a branch tree over an in-memory store, mined by
/// proof of work, partitioned on splits, broadcast to a network.
pub struct Blocktree<C: Clustering, N: Network> {
    tree: BlocktreeCore,
    consensus: ProofOfWork,
    clustering: C,
    coin: Coin,
    pub storage: InMemoryStorage,
    network: N,
}

impl<C: Clustering, N: Network> Blocktree<C, N> {
    /// The branches held by the ledger's store.
    pub closed spec fn spec_branches(&self) -> BranchMap {
        self.storage.branches()
    }

    /// The total supply credited so far.
    pub closed spec fn spec_supply(&self) -> u64 {
        self.coin.spec_supply()
    }

    /// The reward the next mined block will credit.
    pub closed spec fn spec_current_reward(&self) -> u64 {
        self.coin.spec_current_reward()
    }

    /// The decaying reward, tracked at the fixed-point scale.
    pub closed spec fn spec_reward_scaled(&self) -> u64 {
        self.coin.spec_reward_scaled()
    }

    /// The branch length at which a split is triggered.
    pub closed spec fn spec_split_interval(&self) -> usize {
        self.tree.spec_split_interval()
    }

    /// The number of leading zero characters mined digests must carry.
    pub closed spec fn spec_difficulty(&self) -> usize {
        self.consensus.spec_difficulty()
    }

    /// A fresh ledger: a genesis block on the root branch, no supply,
    /// split threshold five, difficulty two.
    pub fn new(network: N, clustering: C) -> (r: Blocktree<C, N>)
        ensures
            r.spec_branches().contains_key("root"@),
            r.spec_branches()["root"@].len() == 1,
            spec_genesis_shaped(r.spec_branches()["root"@][0]),
            forall|k: Seq<char>| #[trigger] r.spec_branches().contains_key(k) ==> k == "root"@,
            r.spec_supply() == 0,
            r.spec_split_interval() == 5,
            r.spec_difficulty() == 2,
    {
        let mut storage = InMemoryStorage::new();
        let genesis_tx = match Transaction::new("genesis".to_owned(), "genesis".to_owned(), 0) {
            Ok(t) => t,
            Err(_) => unreached(),
        };
        let mut txs: Vec<Transaction> = Vec::new();
        txs.push(genesis_tx);
        let genesis = match Block::new(0, txs, "0".to_owned(), "root".to_owned()) {
            Ok(b) => b,
            Err(_) => unreached(),
        };
        match storage.save_block(genesis, "root") {
            Ok(()) => {},
            Err(_) => unreached(),
        }
        Blocktree {
            tree: BlocktreeCore::new(),
            consensus: ProofOfWork::new(2, 200),
            clustering,
            coin: Coin::new(),
            storage,
            network,
        }
    }

    /// Builds the next block on the named branch's tip, mines it, stores
    /// it, broadcasts it, credits the reward, and splits the branch once
    /// its length has reached the threshold. The supply never decreases.
    pub fn add_block(&mut self, transactions: Vec<Transaction>, branch_id: &str) -> (r: Result<
        (),
        BlocktreeError,
    >)
        ensures
            final(self).spec_supply() >= old(self).spec_supply(),
            final(self).spec_split_interval() == old(self).spec_split_interval(),
            final(self).spec_difficulty() == old(self).spec_difficulty(),
            ({
                let m = old(self).spec_branches();
                let txs = transactions.deep_view();
                let d = old(self).spec_difficulty();
                let missing = !m.contains_key(branch_id@) || m[branch_id@].len() == 0;
                match r {
                    Ok(()) => {
                        &&& !missing
                        &&& spec_rewarded_once(*old(self), *final(self))
                        &&& (exists|b: BlockModel|
                            spec_mined_extension(
                                m,
                                branch_id@,
                                txs,
                                old(self).spec_split_interval(),
                                d,
                                b,
                                final(self).spec_branches(),
                            ))
                    },
                    Err(e) => {
                        &&& (e is BranchNotFound <==> missing)
                        &&& (e is BranchNotFound || e is MiningTimeout || e is StorageError
                            || e is NetworkError || e is ClusteringError)
                        &&& (e is BranchNotFound || e is MiningTimeout
                            ==> final(self).spec_branches() == m && spec_unrewarded(
                                *old(self),
                                *final(self),
                            ))
                        &&& (e is NetworkError ==> spec_unrewarded(*old(self), *final(self)) && (
                        exists|b: BlockModel|
                            spec_mined_block(m, branch_id@, txs, d, b)
                                && final(self).spec_branches() == spec_appended(m, branch_id@, b)))
                        &&& (e is ClusteringError ==> spec_rewarded_once(*old(self), *final(self))
                            && (exists|b: BlockModel|
                            spec_mined_block(m, branch_id@, txs, d, b)
                                && final(self).spec_branches() == spec_appended(m, branch_id@, b)))
                        &&& (e is StorageError ==> (final(self).spec_branches() == m
                            && spec_unrewarded(*old(self), *final(self))) || (spec_rewarded_once(
                            *old(self),
                            *final(self),
                        ) && (exists|b: BlockModel|
                            spec_mined_block(m, branch_id@, txs, d, b) && ({
                                let appended = spec_appended(m, branch_id@, b);
                                ||| final(self).spec_branches() == appended
                                ||| final(self).spec_branches() == appended.insert(
                                    spec_child1(branch_id@),
                                    branch_or_empty(appended, spec_child1(branch_id@)).push(b),
                                )
                            }))))
                    },
                }
            }),
    {
        let tip: Block;
        match self.storage.get_branch(branch_id) {
            Some(branch) => {
                if branch.len() == 0 {
                    return Err(BlocktreeError::BranchNotFound("Empty branch".to_owned()));
                }
                tip = branch[branch.len() - 1].duplicate();
            },
            None => {
                return Err(BlocktreeError::BranchNotFound(branch_id.to_owned()));
            },
        }
        if tip.index == u64::MAX {
            return Err(
                BlocktreeError::StorageError("the branch's index space is exhausted".to_owned()),
            );
        }
        let new_block = match Block::new(
            tip.index + 1,
            transactions,
            tip.hash.clone(),
            branch_id.to_owned(),
        ) {
            Ok(b) => b,
            Err(_) => unreached(),
        };
        let mined = match self.consensus.mine_block(new_block) {
            Ok(b) => b,
            Err(e) => {
                return Err(e);
            },
        };
        let mined_copy = mined.duplicate();
        let ghost mined_model = mined@;
        match self.tree.add_block(mined, branch_id, &mut self.storage) {
            Ok(()) => {},
            Err(e) => {
                return Err(e);
            },
        }
        match self.network.broadcast_block(mined_copy) {
            Ok(()) => {},
            Err(e) => {
                proof {
                    assert(spec_mined_block(
                        old(self).spec_branches(),
                        branch_id@,
                        transactions.deep_view(),
                        old(self).spec_difficulty(),
                        mined_model,
                    ));
                    assert(self.spec_branches() == spec_appended(
                        old(self).spec_branches(),
                        branch_id@,
                        mined_model,
                    ));
                }
                return Err(e);
            },
        }
        self.coin.mine_reward();
        let branch_len: usize;
        match self.storage.get_branch(branch_id) {
            Some(branch) => {
                branch_len = branch.len();
            },
            None => {
                branch_len = unreached();
            },
        }
        if branch_len >= self.tree.get_split_interval() {
            let ghost appended = self.spec_branches();
            let clustering = &self.clustering;
            match self.tree.split_branch(branch_id, clustering, &mut self.storage) {
                Ok(()) => {},
                Err(e) => {
                    proof {
                        let m = old(self).spec_branches();
                        assert(spec_mined_block(
                            m,
                            branch_id@,
                            transactions.deep_view(),
                            old(self).spec_difficulty(),
                            mined_model,
                        ));
                        assert(appended == spec_appended(m, branch_id@, mined_model));
                        assert(appended[branch_id@].last() == mined_model);
                        assert(spec_rewarded_once(*old(self), *self));
                    }
                    return Err(e);
                },
            }
        }
        proof {
            assert(spec_rewarded_once(*old(self), *final(self)));
            assert(spec_mined_extension(
                old(self).spec_branches(),
                branch_id@,
                transactions.deep_view(),
                old(self).spec_split_interval(),
                old(self).spec_difficulty(),
                mined_model,
                final(self).spec_branches(),
            ));
        }
        Ok(())
    }

    /// Whether the named branch is internally consistent.
    pub fn is_branch_valid(&self, branch_id: &str) -> (r: Result<bool, BlocktreeError>)
        ensures
            match r {
                Ok(b) => self.spec_branches().contains_key(branch_id@) && b == spec_chain_valid(
                    self.spec_branches()[branch_id@],
                ),
                Err(e) => e is BranchNotFound && !self.spec_branches().contains_key(branch_id@),
            },
    {
        self.tree.is_branch_valid(branch_id, &self.storage)
    }

    /// The total supply credited so far.
    pub fn get_bkt_supply(&self) -> (r: u64)
        ensures
            r == self.spec_supply(),
    {
        self.coin.get_supply()
    }

    /// The identifiers of every held branch, each exactly once.
    pub fn get_branches(&self) -> (r: Vec<String>)
        ensures
            forall|i: int| 0 <= i < r@.len() ==> self.spec_branches().contains_key(
                #[trigger] r@[i]@,
            ),
            forall|k: Seq<char>|
                #[trigger] self.spec_branches().contains_key(k) ==> exists|i: int|
                    0 <= i < r@.len() && r@[i]@ == k,
            forall|i: int, j: int|
                #![trigger r@[i], r@[j]]
                0 <= i < j < r@.len() ==> r@[i]@ != r@[j]@,
    {
        self.storage.get_branch_keys()
    }
}

} // verus!
