//! The ledger's reward counter: a per-block reward that decays by one
//! part in a thousand, feeding a total supply that never decreases.

use vstd::prelude::*;

use vstd::arithmetic::div_mod::lemma_div_is_ordered;
use vstd::arithmetic::mul::lemma_mul_inequality;

verus! {

/// The fixed-point scale the current reward is tracked at.
pub const REWARD_SCALE: u64 = 1_000_000_000;

/// The decaying reward counter. Each mined block credits the current
/// reward to the supply; the reward then decays for the next block.
pub struct Coin {
    /// Total units credited so far; monotonically increasing.
    pub supply: u64,
    reward_scaled: u64,
    blocks_mined: u64,
}

/// The supply after one credit: grown by the reward, saturating at the
/// numeric limit.
pub open spec fn spec_credit(supply: u64, reward: u64) -> u64 {
    if supply + reward <= u64::MAX {
        (supply + reward) as u64
    } else {
        u64::MAX
    }
}

impl Coin {
    /// The decaying reward, tracked at the fixed-point scale.
    pub closed spec fn spec_reward_scaled(&self) -> u64 {
        self.reward_scaled
    }

    /// The reward the next mined block will credit.
    pub open spec fn spec_current_reward(&self) -> u64 {
        self.spec_reward_scaled() / REWARD_SCALE
    }

    /// The total supply credited so far.
    pub closed spec fn spec_supply(&self) -> u64 {
        self.supply
    }

    /// Starts with no supply and a base reward of fifty units.
    pub fn new() -> (r: Coin)
        ensures
            r.spec_supply() == 0,
            r.spec_reward_scaled() == 50_000_000_000,
            r.spec_current_reward() == 50,
    {
        Coin { supply: 0, reward_scaled: 50_000_000_000, blocks_mined: 0 }
    }

    /// Credits the current reward to the supply (saturating at the
    /// numeric limit) and decays the reward by exactly one part in a
    /// thousand, rounded down at the fixed-point scale. The supply never
    /// decreases, and the reward never grows.
    pub fn mine_reward(&mut self) -> (r: u64)
        ensures
            r == old(self).spec_current_reward(),
            final(self).spec_supply() == spec_credit(old(self).spec_supply(), r),
            final(self).spec_reward_scaled() as int == (old(self).spec_reward_scaled() as int)
                * 999 / 1000,
            final(self).spec_supply() >= old(self).spec_supply(),
            final(self).spec_current_reward() <= old(self).spec_current_reward(),
    {
        let reward = self.reward_scaled / REWARD_SCALE;
        if self.supply <= u64::MAX - reward {
            self.supply = self.supply + reward;
        } else {
            self.supply = u64::MAX;
        }
        let ghost old_scaled = self.reward_scaled as int;
        let decayed_wide: u128 = (self.reward_scaled as u128) * 999 / 1000;
        proof {
            lemma_mul_inequality(999, 1000, old_scaled);
            assert(old_scaled * 999 == 999 * old_scaled) by (nonlinear_arith);
            assert(old_scaled * 1000 == 1000 * old_scaled) by (nonlinear_arith);
            lemma_div_is_ordered(old_scaled * 999, old_scaled * 1000, 1000);
            assert(old_scaled * 1000 / 1000 == old_scaled) by (nonlinear_arith);
            assert(decayed_wide <= old_scaled);
        }
        self.reward_scaled = decayed_wide as u64;
        proof {
            lemma_div_is_ordered(
                self.reward_scaled as int,
                old_scaled,
                REWARD_SCALE as int,
            );
        }
        if self.blocks_mined < u64::MAX {
            self.blocks_mined = self.blocks_mined + 1;
        }
        reward
    }

    /// The total supply credited so far.
    pub fn get_supply(&self) -> (r: u64)
        ensures
            r == self.spec_supply(),
    {
        self.supply
    }
}

} // verus!
