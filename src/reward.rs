use vstd::prelude::*;

verus! {

/// The stake reward paid before the first reduction.
pub const STAKE_REWARD: u64 = 50;

/// How much the reward drops at each reduction height.
pub const REWARD_STEP: u64 = 10;

/// The number of reductions; the reward stays flat after the last one.
pub const REWARD_REDUCTIONS: u64 = 4;

/// The distance between two reduction heights.
pub const REWARD_REDUCTION_BLOCK: u64 = 525_960;

/// The length of a super block, in blocks.
pub const SUPER_BLOCK: u64 = 43_200;

/// The first height at which the supply grows.
pub const SUPPLY_GROWTH_START: u64 = SUPER_BLOCK + 1_000;

/// Blocks until a stake reward matures.
pub const STAKE_DELAY: u64 = 30;

/// Blocks until a locked unit matures.
pub const LOCK_DELAY: u64 = 1_000;

/// The largest height at which a reward or a lock may be created.
pub const MAX_HEIGHT: u64 = 0xffff_ffff_ffff_ffff - LOCK_DELAY;

/// The reward paid for a block at height `h`: a step function that drops by
/// `REWARD_STEP` at each of the reduction heights.
pub open spec fn reward_at(h: u64) -> u64 {
    if h / REWARD_REDUCTION_BLOCK < REWARD_REDUCTIONS {
        (STAKE_REWARD - REWARD_STEP * (h / REWARD_REDUCTION_BLOCK)) as u64
    } else {
        (STAKE_REWARD - REWARD_STEP * REWARD_REDUCTIONS) as u64
    }
}

/// What the supply grows by when the chain reaches height `h`.
pub open spec fn supply_increment_at(h: u64) -> u64 {
    if h >= SUPPLY_GROWTH_START {
        reward_at(h)
    } else {
        0
    }
}

/// The stake reward for a block at height `h`.
pub fn block_reward(h: u64) -> (r: u64)
    ensures
        r == reward_at(h),
        STAKE_REWARD - REWARD_STEP * REWARD_REDUCTIONS <= r <= STAKE_REWARD,
{
    if h < REWARD_REDUCTION_BLOCK {
        STAKE_REWARD
    } else if h < REWARD_REDUCTION_BLOCK * 2 {
        STAKE_REWARD - REWARD_STEP
    } else if h < REWARD_REDUCTION_BLOCK * 3 {
        STAKE_REWARD - REWARD_STEP * 2
    } else if h < REWARD_REDUCTION_BLOCK * 4 {
        STAKE_REWARD - REWARD_STEP * 3
    } else {
        STAKE_REWARD - REWARD_STEP * 4
    }
}

/// What the supply grows by when the chain reaches height `h`.
pub fn supply_increment(h: u64) -> (r: u64)
    ensures
        r == supply_increment_at(h),
        r <= STAKE_REWARD,
{
    if h >= SUPPLY_GROWTH_START {
        block_reward(h)
    } else {
        0
    }
}

/// Past the growth start, crossing the `k`-th reduction height lowers the
/// supply increment by exactly `REWARD_STEP`, and the increment stays
/// positive at every height past the growth start.
pub proof fn lemma_supply_schedule_steps(k: u64)
    requires
        1 <= k <= REWARD_REDUCTIONS,
    ensures
        supply_increment_at((k * REWARD_REDUCTION_BLOCK) as u64) + REWARD_STEP
            == supply_increment_at((k * REWARD_REDUCTION_BLOCK - 1) as u64),
        supply_increment_at((k * REWARD_REDUCTION_BLOCK) as u64) > 0,
{
    let h = (k * REWARD_REDUCTION_BLOCK) as u64;
    assert(h / REWARD_REDUCTION_BLOCK == k && (h - 1) as u64 / REWARD_REDUCTION_BLOCK == k - 1)
        by (nonlinear_arith)
        requires
            h == k * REWARD_REDUCTION_BLOCK,
            1 <= k <= REWARD_REDUCTIONS,
    ;
}

/// The supply increment never goes negative, never exceeds the first
/// reward, and never grows as the height grows past the growth start.
pub proof fn lemma_supply_schedule_monotone(h1: u64, h2: u64)
    requires
        SUPPLY_GROWTH_START <= h1 <= h2,
    ensures
        0 < supply_increment_at(h2) <= supply_increment_at(h1) <= STAKE_REWARD,
{
    assert(h1 / REWARD_REDUCTION_BLOCK <= h2 / REWARD_REDUCTION_BLOCK) by (nonlinear_arith)
        requires
            h1 <= h2,
    ;
}

/// A reward waiting in an account's maturity queue.
#[derive(Clone, Copy, Debug, PartialEq, Eq, Structural)]
pub struct PendingReward {
    /// A stake reward, rather than a unit locked by restructuring.
    pub is_stake: bool,
    pub amount: u64,
    pub created_height: u64,
    pub maturity_height: u64,
}

impl PendingReward {
    pub open spec fn spec_stake(amount: u64, h: u64) -> PendingReward {
        PendingReward {
            is_stake: true,
            amount,
            created_height: h,
            maturity_height: (h + STAKE_DELAY) as u64,
        }
    }

    pub open spec fn spec_lock(amount: u64, h: u64) -> PendingReward {
        PendingReward {
            is_stake: false,
            amount,
            created_height: h,
            maturity_height: (h + LOCK_DELAY) as u64,
        }
    }

    /// A stake reward of `amount` won at height `h`.
    #[verifier::when_used_as_spec(spec_stake)]
    pub fn stake(amount: u64, h: u64) -> (r: PendingReward)
        requires
            h <= MAX_HEIGHT,
        ensures
            r == Self::spec_stake(amount, h),
    {
        PendingReward { is_stake: true, amount, created_height: h, maturity_height: h + STAKE_DELAY }
    }

    /// A unit of face value `amount` locked at height `h`.
    #[verifier::when_used_as_spec(spec_lock)]
    pub fn lock(amount: u64, h: u64) -> (r: PendingReward)
        requires
            h <= MAX_HEIGHT,
        ensures
            r == Self::spec_lock(amount, h),
    {
        PendingReward { is_stake: false, amount, created_height: h, maturity_height: h + LOCK_DELAY }
    }

    pub open spec fn spec_is_mature(&self, h: u64) -> bool {
        self.maturity_height <= h
    }

    /// Whether the reward may be released at height `h`.
    #[verifier::when_used_as_spec(spec_is_mature)]
    pub fn is_mature(&self, h: u64) -> (r: bool)
        ensures
            r == self.spec_is_mature(h),
    {
        self.maturity_height <= h
    }
}

/// The money held by the rewards of `q`.
pub open spec fn total_amount(q: Seq<PendingReward>) -> int
    decreases q.len(),
{
    if q.len() == 0 {
        0
    } else {
        total_amount(q.drop_last()) + q.last().amount
    }
}

/// `k` locks of `amount`, all made at height `h`.
pub open spec fn lock_run(amount: u64, k: nat, h: u64) -> Seq<PendingReward> {
    Seq::new(k, |_i: int| PendingReward::spec_lock(amount, h))
}

pub proof fn lemma_total_amount_nonneg(q: Seq<PendingReward>)
    ensures
        total_amount(q) >= 0,
    decreases q.len(),
{
    if q.len() > 0 {
        lemma_total_amount_nonneg(q.drop_last());
    }
}

pub proof fn lemma_total_amount_push(q: Seq<PendingReward>, r: PendingReward)
    ensures
        total_amount(q.push(r)) == total_amount(q) + r.amount,
{
    assert(q.push(r).drop_last() =~= q);
}

pub proof fn lemma_total_amount_concat(a: Seq<PendingReward>, b: Seq<PendingReward>)
    ensures
        total_amount(a + b) == total_amount(a) + total_amount(b),
    decreases b.len(),
{
    if b.len() > 0 {
        lemma_total_amount_concat(a, b.drop_last());
        assert((a + b).drop_last() =~= a + b.drop_last());
    } else {
        assert(a + b =~= a);
    }
}

pub proof fn lemma_total_amount_remove(q: Seq<PendingReward>, i: int)
    requires
        0 <= i < q.len(),
    ensures
        total_amount(q.remove(i)) == total_amount(q) - q[i].amount,
    decreases q.len(),
{
    if i < q.len() - 1 {
        lemma_total_amount_remove(q.drop_last(), i);
        assert(q.remove(i).drop_last() =~= q.drop_last().remove(i));
    } else {
        assert(q.remove(i) =~= q.drop_last());
    }
}

pub proof fn lemma_total_amount_lock_run(amount: u64, k: nat, h: u64)
    ensures
        total_amount(lock_run(amount, k, h)) == k * amount,
    decreases k,
{
    if k > 0 {
        lemma_total_amount_lock_run(amount, (k - 1) as nat, h);
        assert(lock_run(amount, k, h).drop_last() =~= lock_run(amount, (k - 1) as nat, h));
        assert(lock_run(amount, k, h).last().amount == amount);
        assert(k * amount == (k - 1) * amount + amount) by (nonlinear_arith);
    } else {
        assert(lock_run(amount, k, h).len() == 0);
    }
}

} // verus!
