//! Proof-of-work consensus: the nonce search under a time budget, and
//! the advisory difficulty rule.

use vstd::prelude::*;
use vstd::string::StrSliceExecFns;

use crate::block::{spec_block_digest, spec_block_serial, spec_with_nonce, Block};
use crate::clock::now_millis;
use crate::error::BlocktreeError;

verus! {

/// Whether a digest carries at least `d` leading zero characters.
pub open spec fn spec_meets_difficulty(h: Seq<char>, d: nat) -> bool {
    h.len() >= d && forall|i: int| 0 <= i < d ==> h[i] == '0'
}

/// Checks the difficulty predicate on a digest.
fn meets_difficulty(h: &str, d: usize) -> (r: bool)
    ensures
        r == spec_meets_difficulty(h@, d as nat),
{
    let n = h.unicode_len();
    if n < d {
        return false;
    }
    for i in 0..d
        invariant
            d <= n,
            n == h@.len(),
            forall|j: int| 0 <= j < i ==> h@[j] == '0',
    {
        let c = h.get_char(i);
        if c != '0' {
            return false;
        }
    }
    true
}

/// The advisory difficulty rule: one step harder when the block came in
/// less than half the target time, one step easier (floored at one) when
/// it took more than double, unchanged otherwise.
pub open spec fn spec_adjusted_difficulty(d: usize, target_ms: u64, t_new: i64, t_old: i64) -> int {
    let taken = t_new - t_old;
    if 2 * taken < target_ms {
        if d < usize::MAX {
            d + 1
        } else {
            d as int
        }
    } else if taken > 2 * (target_ms as int) {
        if d <= 1 {
            1
        } else {
            d - 1
        }
    } else {
        d as int
    }
}

/// The consensus interface: mining, and the difficulty adjustment rule.
pub trait Consensus: Sized {
    /// The number of leading zero characters a digest must carry.
    spec fn spec_difficulty(&self) -> usize;

    /// The time budget for one mining search, in milliseconds.
    spec fn spec_target_ms(&self) -> u64;

    /// Searches for a nonce whose digest meets the difficulty; gives up
    /// with `MiningTimeout` once the budget is spent. With difficulty 0
    /// the search succeeds at once, nonce untouched; where no nonce at
    /// all yields a satisfying digest, it never succeeds.
    fn mine_block(&self, block: Block) -> (r: Result<Block, BlocktreeError>)
        ensures
            match r {
                Ok(b) => {
                    &&& b@.index == block@.index
                    &&& b@.timestamp == block@.timestamp
                    &&& b@.transactions == block@.transactions
                    &&& b@.previous_hash == block@.previous_hash
                    &&& b@.branch_id == block@.branch_id
                    &&& b@.merkle_root == block@.merkle_root
                    &&& b@.hash == spec_block_digest(b@)
                    &&& spec_meets_difficulty(b@.hash, self.spec_difficulty() as nat)
                },
                Err(e) => e is MiningTimeout && self.spec_difficulty() > 0,
            },
            self.spec_difficulty() == 0 ==> (r matches Ok(b) && b@.nonce == block@.nonce),
            (forall|n: u64|
                !spec_meets_difficulty(
                    spec_block_digest(#[trigger] spec_with_nonce(block@, n)),
                    self.spec_difficulty() as nat,
                )) ==> r is Err,
    ;

    /// The advisory difficulty for the block after these two.
    fn adjust_difficulty(&self, block: &Block, previous_block: &Block) -> (r: usize)
        ensures
            r == spec_adjusted_difficulty(
                self.spec_difficulty(),
                self.spec_target_ms(),
                block@.timestamp,
                previous_block@.timestamp,
            ),
    ;
}

/// The proof-of-work engine: a base difficulty and the time budget for
/// one mining search.
pub struct ProofOfWork {
    base_difficulty: usize,
    target_block_time_ms: u64,
}

impl ProofOfWork {
    /// An engine demanding `base_difficulty` leading zeros, abandoning a
    /// search after `target_block_time_ms` milliseconds.
    pub fn new(base_difficulty: usize, target_block_time_ms: u64) -> (r: ProofOfWork)
        ensures
            r.spec_difficulty() == base_difficulty,
            r.spec_target_ms() == target_block_time_ms,
    {
        ProofOfWork { base_difficulty, target_block_time_ms }
    }
}

impl Consensus for ProofOfWork {
    closed spec fn spec_difficulty(&self) -> usize {
        self.base_difficulty
    }

    closed spec fn spec_target_ms(&self) -> u64 {
        self.target_block_time_ms
    }

    #[verifier::loop_isolation(false)]
    fn mine_block(&self, block: Block) -> (r: Result<Block, BlocktreeError>) {
        let mut block = block;
        let ghost orig = block@;
        let start = now_millis();
        let mut attempts: u64 = 0;
        loop
            invariant
                block@.index == orig.index,
                block@.timestamp == orig.timestamp,
                block@.transactions == orig.transactions,
                block@.previous_hash == orig.previous_hash,
                block@.branch_id == orig.branch_id,
                block@.merkle_root == orig.merkle_root,
                self.base_difficulty == 0 ==> block@.nonce == orig.nonce,
            decreases u64::MAX - attempts,
        {
            match block.update_hash() {
                Ok(()) => {},
                Err(e) => {
                    return Err(e);
                },
            }
            if meets_difficulty(block.hash.as_str(), self.base_difficulty) {
                proof {
                    let candidate = spec_with_nonce(orig, block@.nonce);
                    assert(spec_block_serial(candidate) == spec_block_serial(block@));
                    assert(spec_meets_difficulty(
                        spec_block_digest(candidate),
                        self.spec_difficulty() as nat,
                    ));
                }
                return Ok(block);
            }
            assert(self.base_difficulty > 0);
            if block.nonce == u64::MAX {
                block.nonce = 0;
            } else {
                block.nonce = block.nonce + 1;
            }
            let now = now_millis();
            if (now as i128) - (start as i128) > (self.target_block_time_ms as i128) {
                return Err(
                    BlocktreeError::MiningTimeout(
                        "Failed to mine the block within its time budget".to_owned(),
                    ),
                );
            }
            if attempts == u64::MAX {
                return Err(
                    BlocktreeError::MiningTimeout(
                        "Failed to mine the block: the nonce space is exhausted".to_owned(),
                    ),
                );
            }
            attempts = attempts + 1;
        }
    }

    fn adjust_difficulty(&self, block: &Block, previous_block: &Block) -> (r: usize) {
        let taken: i128 = (block.timestamp as i128) - (previous_block.timestamp as i128);
        if 2 * taken < (self.target_block_time_ms as i128) {
            if self.base_difficulty < usize::MAX {
                self.base_difficulty + 1
            } else {
                self.base_difficulty
            }
        } else if taken > 2 * (self.target_block_time_ms as i128) {
            if self.base_difficulty <= 1 {
                1
            } else {
                self.base_difficulty - 1
            }
        } else {
            self.base_difficulty
        }
    }
}

} // verus!
