use vstd::prelude::*;
use crate::inventory::{decomposed, Inventory};
use crate::lottery::{draw_below, picked_index, prefix_sum, select, weight_total};
use crate::reward::{
    block_reward, lemma_total_amount_concat, lemma_total_amount_nonneg, lemma_total_amount_push,
    lemma_total_amount_remove, reward_at, total_amount, PendingReward, MAX_HEIGHT,
};
use crate::strategy::{
    all_locks_at, consolidated, lemma_consolidated_locks, lemma_initial_pass_no_locks, Strategy,
};
use crate::tier::{TicketWeights, Tier, MAX_BALANCE};
use rand::rngs::StdRng;

verus! {

/// A balance or a reward that would leave the valid money range.
#[derive(Clone, Copy, Debug, PartialEq, Eq, Structural)]
pub enum ConfigError {
    BalanceOutOfRange,
    RewardOutOfRange,
}

/// One account of the network.
#[derive(Debug)]
pub struct Staker {
    pub id: u64,
    pub start_balance: u64,
    /// The supply when the account was made; the starting share is
    /// `start_balance / start_supply`.
    pub start_supply: u64,
    /// The supply at the last `update`; the current share is
    /// `balance_spendable / current_supply`.
    pub current_supply: u64,
    pub balance_spendable: u64,
    /// The money waiting in the maturity queue.
    pub balance_immature: u64,
    pub orphaned_count: u64,
    pub strategy: Strategy,
    /// The unit count above which wins may be orphaned and the
    /// threshold-bounded strategy restructures.
    pub threshold: u64,
    pub total_stake_count: u64,
    pub conf_stake_count: u64,
    pub immature_stake_count: u64,
    pub inventory: Inventory,
    pub queue: Vec<PendingReward>,
}

/// The number of stake rewards in `q`.
pub open spec fn stake_entries(q: Seq<PendingReward>) -> int
    decreases q.len(),
{
    if q.len() == 0 {
        0
    } else {
        stake_entries(q.drop_last()) + if q.last().is_stake {
            1int
        } else {
            0int
        }
    }
}

pub proof fn lemma_stake_entries_nonneg(q: Seq<PendingReward>)
    ensures
        stake_entries(q) >= 0,
    decreases q.len(),
{
    if q.len() > 0 {
        lemma_stake_entries_nonneg(q.drop_last());
    }
}

pub proof fn lemma_stake_entries_push(q: Seq<PendingReward>, r: PendingReward)
    ensures
        stake_entries(q.push(r)) == stake_entries(q) + if r.is_stake {
            1int
        } else {
            0int
        },
{
    assert(q.push(r).drop_last() =~= q);
}

pub proof fn lemma_stake_entries_remove(q: Seq<PendingReward>, i: int)
    requires
        0 <= i < q.len(),
    ensures
        stake_entries(q.remove(i)) == stake_entries(q) - if q[i].is_stake {
            1int
        } else {
            0int
        },
    decreases q.len(),
{
    if i < q.len() - 1 {
        lemma_stake_entries_remove(q.drop_last(), i);
        assert(q.remove(i).drop_last() =~= q.drop_last().remove(i));
    } else {
        assert(q.remove(i) =~= q.drop_last());
    }
}

pub proof fn lemma_stake_entries_locks(a: Seq<PendingReward>, b: Seq<PendingReward>, h: u64)
    requires
        all_locks_at(b, h),
    ensures
        stake_entries(a + b) == stake_entries(a),
    decreases b.len(),
{
    if b.len() > 0 {
        assert((a + b).drop_last() =~= a + b.drop_last());
        lemma_stake_entries_locks(a, b.drop_last(), h);
    } else {
        assert(a + b =~= a);
    }
}

/// Entry `i` is the first of `q` that may be released at height `h`.
pub open spec fn is_first_mature(q: Seq<PendingReward>, h: u64, i: int) -> bool {
    &&& 0 <= i < q.len()
    &&& q[i].is_mature(h)
    &&& forall|j: int| 0 <= j < i ==> !q[j].is_mature(h)
}

/// The first entry of `q` that may be released at height `h`, if any.
pub open spec fn first_mature(q: Seq<PendingReward>, h: u64) -> Option<int> {
    if exists|i: int| is_first_mature(q, h, i) {
        Some(choose|i: int| is_first_mature(q, h, i))
    } else {
        None
    }
}

pub proof fn lemma_first_mature_unique(q: Seq<PendingReward>, h: u64, i: int)
    requires
        is_first_mature(q, h, i),
    ensures
        first_mature(q, h) == Some(i),
{
    let k = choose|k: int| is_first_mature(q, h, k);
    if k < i {
        assert(!q[k].is_mature(h));
    } else if i < k {
        assert(!q[i].is_mature(h));
    }
}

/// Looks for the first entry that may be released at height `h`.
fn find_mature(q: &Vec<PendingReward>, h: u64) -> (r: Option<usize>)
    ensures
        r matches Some(i) ==> first_mature(q@, h) == Some(i as int),
        r is None ==> first_mature(q@, h) is None,
{
    let mut i: usize = 0;
    while i < q.len()
        invariant
            0 <= i <= q@.len(),
            forall|j: int| 0 <= j < i ==> !q@[j].is_mature(h),
        decreases q@.len() - i,
    {
        if q[i].is_mature(h) {
            proof {
                lemma_first_mature_unique(q@, h, i as int);
            }
            return Some(i);
        }
        i = i + 1;
    }
    None
}

impl Staker {
    /// The money the account holds in units and in its queue.
    pub open spec fn holdings(&self) -> int {
        self.inventory.worth() + self.balance_immature
    }

    /// The account's invariant: its queue money is recorded, it never holds
    /// more than it was paid, its pay stays in the money range, and its stake
    /// counters agree with its queue.
    pub open spec fn wf(&self) -> bool {
        &&& self.inventory.wf()
        &&& self.balance_immature == total_amount(self.queue@)
        &&& self.holdings() <= self.balance_spendable <= MAX_BALANCE
        &&& self.total_stake_count <= self.balance_spendable
        &&& self.conf_stake_count + self.immature_stake_count == self.total_stake_count
        &&& self.immature_stake_count == stake_entries(self.queue@)
    }

    /// The fields that a release leaves alone are those of `o`.
    pub open spec fn keeps_account(&self, o: Staker) -> bool {
        &&& self.id == o.id
        &&& self.start_balance == o.start_balance
        &&& self.start_supply == o.start_supply
        &&& self.current_supply == o.current_supply
        &&& self.balance_spendable == o.balance_spendable
        &&& self.orphaned_count == o.orphaned_count
        &&& self.strategy == o.strategy
        &&& self.threshold == o.threshold
        &&& self.total_stake_count == o.total_stake_count
    }

    /// Every field is that of `o`.
    pub open spec fn same_as(&self, o: Staker) -> bool {
        &&& self.keeps_account(o)
        &&& self.balance_immature == o.balance_immature
        &&& self.conf_stake_count == o.conf_stake_count
        &&& self.immature_stake_count == o.immature_stake_count
        &&& self.inventory == o.inventory
        &&& self.queue@ == o.queue@
    }

    /// A new account holding `balance`, split largest tier first and then
    /// restructured once by `strategy` as a first pass. A balance outside the
    /// money range is refused.
    pub fn new(balance: u64, id: u64, strategy: Strategy, threshold: u64, start_supply: u64) -> (r:
        Result<Staker, ConfigError>)
        ensures
            r is Err <==> balance > MAX_BALANCE,
            r matches Err(e) ==> e == ConfigError::BalanceOutOfRange,
            r matches Ok(s) ==> {
                &&& s.wf()
                &&& s.id == id
                &&& s.start_balance == balance
                &&& s.start_supply == start_supply
                &&& s.current_supply == start_supply
                &&& s.balance_spendable == balance
                &&& s.balance_immature == 0
                &&& s.orphaned_count == 0
                &&& s.strategy == strategy
                &&& s.threshold == threshold
                &&& s.total_stake_count == 0
                &&& s.conf_stake_count == 0
                &&& s.immature_stake_count == 0
                &&& s.queue@.len() == 0
                &&& (s.inventory, s.queue@) == consolidated(
                    decomposed(balance),
                    strategy,
                    threshold,
                    true,
                    0,
                )
            },
    {
        if balance > MAX_BALANCE {
            return Err(ConfigError::BalanceOutOfRange);
        }
        let mut inventory = Inventory::decompose(balance);
        let queue = inventory.consolidate(strategy, threshold, true, 0);
        proof {
            lemma_initial_pass_no_locks(decomposed(balance), strategy, threshold, 0);
            assert(queue@ =~= Seq::<PendingReward>::empty());
        }
        Ok(
            Staker {
                id,
                start_balance: balance,
                start_supply,
                current_supply: start_supply,
                balance_spendable: balance,
                balance_immature: 0,
                orphaned_count: 0,
                strategy,
                threshold,
                total_stake_count: 0,
                conf_stake_count: 0,
                immature_stake_count: 0,
                inventory,
                queue,
            },
        )
    }

    /// `n` is `self` after the release at height `h`: the first entry that may
    /// be released leaves the queue, a stake reward among them is confirmed,
    /// its amount is split back into units largest tier first, and the
    /// strategy runs again, its locks joining the end of the queue. With
    /// nothing to release, `n` is `self`.
    pub open spec fn released_into(&self, n: Staker, h: u64) -> bool {
        match first_mature(self.queue@, h) {
            None => n.same_as(*self),
            Some(i) => {
                let e = self.queue@[i];
                let c = consolidated(
                    self.inventory.plus(decomposed(e.amount)),
                    self.strategy,
                    self.threshold,
                    false,
                    h,
                );
                let s: int = if e.is_stake {
                    1
                } else {
                    0
                };
                &&& n.keeps_account(*self)
                &&& n.conf_stake_count == self.conf_stake_count + s
                &&& n.immature_stake_count == self.immature_stake_count - s
                &&& n.inventory == c.0
                &&& n.queue@ == self.queue@.remove(i) + c.1
                &&& n.balance_immature == total_amount(n.queue@)
            },
        }
    }

    /// Releases at most one entry of the queue at height `h`: the first whose
    /// maturity height has been reached. Returns the entry released.
    pub fn mature_balances(&mut self, h: u64) -> (r: Option<PendingReward>)
        requires
            old(self).wf(),
            h <= MAX_HEIGHT,
        ensures
            final(self).wf(),
            old(self).released_into(*final(self), h),
            r == (match first_mature(old(self).queue@, h) {
                Some(i) => Some(old(self).queue@[i]),
                None => None,
            }),
    {
        let found = find_mature(&self.queue, h);
        match found {
            None => None,
            Some(i) => {
                let ghost q0 = self.queue@;
                let ghost inv0 = self.inventory;
                let e = self.queue.remove(i);
                proof {
                    lemma_total_amount_remove(q0, i as int);
                    lemma_stake_entries_remove(q0, i as int);
                    lemma_total_amount_nonneg(q0.remove(i as int));
                    lemma_stake_entries_nonneg(q0.remove(i as int));
                }
                if e.is_stake {
                    self.immature_stake_count = self.immature_stake_count - 1;
                    self.conf_stake_count = self.conf_stake_count + 1;
                }
                self.balance_immature = self.balance_immature - e.amount;
                let d = Inventory::decompose(e.amount);
                self.inventory.add(&d);
                let ghost inv1 = self.inventory;
                let before = self.inventory.value();
                let mut locks = self.inventory.consolidate(self.strategy, self.threshold, false, h);
                let ghost q1 = self.queue@;
                let ghost l = locks@;
                proof {
                    lemma_consolidated_locks(inv1, self.strategy, self.threshold, false, h);
                    lemma_total_amount_concat(q1, l);
                    lemma_stake_entries_locks(q1, l, h);
                    lemma_total_amount_nonneg(l);
                }
                let after = self.inventory.value();
                self.balance_immature = self.balance_immature + (before - after);
                self.queue.append(&mut locks);
                Some(e)
            },
        }
    }

    /// Every field is that of `o` but the current supply, which is `supply`.
    pub open spec fn resupplied(&self, o: Staker, supply: u64) -> bool {
        &&& self.current_supply == supply
        &&& self.id == o.id
        &&& self.start_balance == o.start_balance
        &&& self.start_supply == o.start_supply
        &&& self.balance_spendable == o.balance_spendable
        &&& self.orphaned_count == o.orphaned_count
        &&& self.strategy == o.strategy
        &&& self.threshold == o.threshold
        &&& self.total_stake_count == o.total_stake_count
        &&& self.balance_immature == o.balance_immature
        &&& self.conf_stake_count == o.conf_stake_count
        &&& self.immature_stake_count == o.immature_stake_count
        &&& self.inventory == o.inventory
        &&& self.queue@ == o.queue@
    }

    /// Records the supply against which the current share is measured.
    pub fn update(&mut self, total_supply: u64)
        requires
            old(self).wf(),
        ensures
            final(self).wf(),
            final(self).resupplied(*old(self), total_supply),
    {
        self.current_supply = total_supply;
    }

    /// The stake probability as a fraction: the account's tickets over a
    /// tenth of the supply. Every account shares the denominator, so the
    /// first stage of the lottery draws by the numerators alone.
    pub fn stake_probability(&self, tw: &TicketWeights, total_supply: u64) -> (r: (u64, u64))
        requires
            self.wf(),
            tw.wf(),
        ensures
            r.0 == self.inventory.tickets(*tw),
            r.1 == total_supply / 10,
    {
        (self.inventory.total_weight(tw), total_supply / 10)
    }

    /// Whether anything waits in the maturity queue.
    pub fn are_stakes_maturing(&self) -> (r: bool)
        ensures
            r == (self.queue@.len() > 0),
    {
        self.queue.len() > 0
    }
}

} // verus!

verus! {

/// A release takes out one entry per call. When exactly two entries of a
/// queue may be released at height `h`, a first release takes the earlier
/// one and leaves the later as the only one that may go, a second release
/// takes that one, and then nothing is left to release at `h`.
#[verifier::rlimit(40)]
pub proof fn lemma_release_one_per_call(
    s0: Staker,
    s1: Staker,
    s2: Staker,
    h: u64,
    i: int,
    j: int,
)
    requires
        h <= MAX_HEIGHT,
        0 <= i < j < s0.queue@.len(),
        s0.queue@[i].is_mature(h),
        s0.queue@[j].is_mature(h),
        forall|k: int| 0 <= k < s0.queue@.len() && k != i && k != j ==> !s0.queue@[k].is_mature(h),
        s0.released_into(s1, h),
        s1.released_into(s2, h),
    ensures
        first_mature(s0.queue@, h) == Some(i),
        first_mature(s1.queue@, h) == Some(j - 1),
        s1.queue@[j - 1] == s0.queue@[j],
        first_mature(s2.queue@, h) is None,
{
    let q0 = s0.queue@;
    lemma_first_mature_unique(q0, h, i);
    let c1 = consolidated(
        s0.inventory.plus(decomposed(q0[i].amount)),
        s0.strategy,
        s0.threshold,
        false,
        h,
    );
    lemma_consolidated_locks(
        s0.inventory.plus(decomposed(q0[i].amount)),
        s0.strategy,
        s0.threshold,
        false,
        h,
    );
    let q1 = s1.queue@;
    assert(q1 == q0.remove(i) + c1.1);
    assert(q1[j - 1] == q0[j]);
    assert forall|k: int| 0 <= k < j - 1 implies !q1[k].is_mature(h) by {
        if k < i {
            assert(q1[k] == q0[k]);
        } else {
            assert(q1[k] == q0[k + 1]);
        }
    }
    assert(is_first_mature(q1, h, j - 1));
    lemma_first_mature_unique(q1, h, j - 1);
    let c2 = consolidated(
        s1.inventory.plus(decomposed(q1[j - 1].amount)),
        s1.strategy,
        s1.threshold,
        false,
        h,
    );
    lemma_consolidated_locks(
        s1.inventory.plus(decomposed(q1[j - 1].amount)),
        s1.strategy,
        s1.threshold,
        false,
        h,
    );
    let q2 = s2.queue@;
    assert(q2 == q1.remove(j - 1) + c2.1);
    assert forall|k: int| 0 <= k < q2.len() implies !q2[k].is_mature(h) by {
        if k < j - 1 {
            assert(q2[k] == q1[k]);
        } else if k < q1.len() - 1 {
            assert(q2[k] == q1[k + 1]);
            if k + 1 < q0.len() - 1 {
                if k + 1 < i {
                    assert(q1[k + 1] == q0[k + 1]);
                } else {
                    assert(q1[k + 1] == q0[k + 2]);
                }
            } else {
                assert(q1[k + 1] == c1.1[k + 1 - (q0.len() - 1)]);
            }
        } else {
            assert(q2[k] == c2.1[k - (q1.len() - 1)]);
        }
    }
}

} // verus!

verus! {

/// What became of a win.
#[derive(Clone, Copy, Debug, PartialEq, Eq, Structural)]
pub enum StakeOutcome {
    /// The win was discarded by the over-threshold penalty.
    Orphaned,
    /// The reward was queued, and the unit of tier `locked` was locked, if the
    /// account had any tickets left to draw from.
    Rewarded { reward: u64, locked: Option<Tier> },
}

/// The ticket weights of the four tiers of `inv`, lowest first; an empty tier
/// has weight zero and so can never be drawn.
pub open spec fn tier_weights(inv: Inventory, tw: TicketWeights) -> Seq<u64> {
    seq![
        (inv.d10 * tw.d10) as u64,
        (inv.d100 * tw.d100) as u64,
        (inv.d1000 * tw.d1000) as u64,
        (inv.d10000 * tw.d10000) as u64,
    ]
}

/// The tier at position `i`, lowest first.
pub open spec fn tier_at(i: int) -> Tier {
    if i == 0 {
        Tier::D10
    } else if i == 1 {
        Tier::D100
    } else if i == 2 {
        Tier::D1000
    } else {
        Tier::D10000
    }
}

impl Staker {
    /// `n` is `self` with one more orphaned win and nothing else changed.
    pub open spec fn orphaned_into(&self, n: Staker) -> bool {
        &&& n.orphaned_count == self.orphaned_count + 1
        &&& n.id == self.id
        &&& n.start_balance == self.start_balance
        &&& n.start_supply == self.start_supply
        &&& n.current_supply == self.current_supply
        &&& n.balance_spendable == self.balance_spendable
        &&& n.strategy == self.strategy
        &&& n.threshold == self.threshold
        &&& n.total_stake_count == self.total_stake_count
        &&& n.balance_immature == self.balance_immature
        &&& n.conf_stake_count == self.conf_stake_count
        &&& n.immature_stake_count == self.immature_stake_count
        &&& n.inventory == self.inventory
        &&& n.queue@ == self.queue@
    }

    /// `n` is `self` after the stake reward for height `h` was paid and queued.
    pub open spec fn paid_into(&self, n: Staker, h: u64) -> bool {
        let reward = reward_at(h);
        &&& n.id == self.id
        &&& n.start_balance == self.start_balance
        &&& n.start_supply == self.start_supply
        &&& n.current_supply == self.current_supply
        &&& n.orphaned_count == self.orphaned_count
        &&& n.strategy == self.strategy
        &&& n.threshold == self.threshold
        &&& n.balance_spendable == self.balance_spendable + reward
        &&& n.total_stake_count == self.total_stake_count + 1
        &&& n.immature_stake_count == self.immature_stake_count + 1
        &&& n.conf_stake_count == self.conf_stake_count
        &&& n.balance_immature == self.balance_immature + reward
        &&& n.inventory == self.inventory
        &&& n.queue@ == self.queue@.push(PendingReward::spec_stake(reward, h))
    }

    /// `n` is `self` after one unit of tier `t` was locked at height `h`.
    pub open spec fn locked_into(&self, n: Staker, h: u64, t: Tier) -> bool {
        &&& self.inventory.get(t) > 0
        &&& n.keeps_account(*self)
        &&& n.conf_stake_count == self.conf_stake_count
        &&& n.immature_stake_count == self.immature_stake_count
        &&& n.balance_immature == self.balance_immature + t.face_value()
        &&& n.inventory == self.inventory.minus_one(t)
        &&& n.queue@ == self.queue@.push(PendingReward::spec_lock(t.face_value(), h))
    }

    /// `n` is `self` after a win at height `h` settled with result `r`: an
    /// orphaned win only counts; a refused reward changes nothing; otherwise
    /// the reward is paid and, if the account has tickets, one unit of a tier
    /// it holds is locked. The penalty draw lies below the unit count and
    /// orphans only above the threshold, so only an account with more than
    /// one unit over its threshold can be orphaned; a reward is refused only
    /// when it would take the spendable balance out of the money range.
    pub open spec fn won_into(
        &self,
        n: Staker,
        h: u64,
        tw: TicketWeights,
        r: Result<StakeOutcome, ConfigError>,
    ) -> bool {
        &&& r matches Ok(StakeOutcome::Orphaned) ==> self.inventory.units() > self.threshold + 1
            && self.orphaned_into(n)
        &&& r matches Err(e) ==> e == ConfigError::RewardOutOfRange && self.balance_spendable
            + reward_at(h) > MAX_BALANCE && n.same_as(*self)
        &&& r matches Ok(StakeOutcome::Rewarded { reward, locked }) ==> {
            &&& reward == reward_at(h)
            &&& (locked is None <==> self.inventory.tickets(tw) == 0)
            &&& match locked {
                None => self.paid_into(n, h),
                Some(t) => exists|mid: Staker|
                    self.paid_into(mid, h) && #[trigger] mid.locked_into(n, h, t),
            }
        }
        &&& self.balance_spendable + reward_at(h) <= MAX_BALANCE && self.inventory.units()
            <= self.threshold + 1 ==> r is Ok && !(r matches Ok(StakeOutcome::Orphaned))
    }

    /// Whether a win is orphaned when the penalty draw, a value below the unit
    /// count, is `draw`: only an account above its threshold can lose a win,
    /// and it does when the draw is above the threshold.
    pub fn is_orphaned(&self, draw: u64) -> (r: bool)
        requires
            self.wf(),
        ensures
            r == (self.inventory.units() > self.threshold && draw > self.threshold),
    {
        self.inventory.count() > self.threshold && draw > self.threshold
    }

    /// Counts one more orphaned win.
    pub fn record_orphan(&mut self)
        requires
            old(self).orphaned_count < 0xffff_ffff_ffff_ffff,
        ensures
            old(self).orphaned_into(*final(self)),
    {
        self.orphaned_count = self.orphaned_count + 1;
    }

    /// Pays the stake reward for height `h` into the spendable balance and
    /// queues it to mature. A reward that would take the spendable balance
    /// out of the money range is refused and nothing changes.
    pub fn issue_reward(&mut self, h: u64) -> (r: Result<u64, ConfigError>)
        requires
            old(self).wf(),
            h <= MAX_HEIGHT,
        ensures
            final(self).wf(),
            r is Err <==> old(self).balance_spendable + reward_at(h) > MAX_BALANCE,
            r matches Err(e) ==> e == ConfigError::RewardOutOfRange && final(self).same_as(
                *old(self),
            ),
            r matches Ok(v) ==> v == reward_at(h) && old(self).paid_into(*final(self), h),
    {
        let reward = block_reward(h);
        if self.balance_spendable > MAX_BALANCE - reward {
            return Err(ConfigError::RewardOutOfRange);
        }
        let entry = PendingReward::stake(reward, h);
        proof {
            lemma_total_amount_push(self.queue@, entry);
            lemma_stake_entries_push(self.queue@, entry);
        }
        self.queue.push(entry);
        self.balance_spendable = self.balance_spendable + reward;
        self.balance_immature = self.balance_immature + reward;
        self.total_stake_count = self.total_stake_count + 1;
        self.immature_stake_count = self.immature_stake_count + 1;
        Ok(reward)
    }

    /// The second stage of the lottery: `draw`, a value below the account's
    /// tickets, selects a tier by the ticket weights of its units, and one
    /// unit of that tier is locked at height `h`.
    pub fn lock_denom(&mut self, h: u64, tw: &TicketWeights, draw: u128) -> (t: Tier)
        requires
            old(self).wf(),
            tw.wf(),
            h <= MAX_HEIGHT,
            draw < old(self).inventory.tickets(*tw),
        ensures
            final(self).wf(),
            t == tier_at(picked_index(tier_weights(old(self).inventory, *tw), draw as int)),
            old(self).locked_into(*final(self), h, t),
    {
        let ghost inv = self.inventory;
        let weights: Vec<u64> = vec![
            self.inventory.weight(Tier::D10, tw),
            self.inventory.weight(Tier::D100, tw),
            self.inventory.weight(Tier::D1000, tw),
            self.inventory.weight(Tier::D10000, tw),
        ];
        proof {
            let w = weights@;
            assert(w =~= tier_weights(inv, *tw));
            assert(prefix_sum(w, 0) == 0);
            assert(prefix_sum(w, 1) == w[0]);
            assert(prefix_sum(w, 2) == w[0] + w[1]);
            assert(prefix_sum(w, 3) == w[0] + w[1] + w[2]);
            assert(weight_total(w) == w[0] + w[1] + w[2] + w[3]);
        }
        let i = select(&weights, draw).unwrap();
        let t = if i == 0 {
            Tier::D10
        } else if i == 1 {
            Tier::D100
        } else if i == 2 {
            Tier::D1000
        } else {
            Tier::D10000
        };
        proof {
            assert(weights@[i as int] > 0);
            assert(inv.get(t) > 0) by (nonlinear_arith)
                requires
                    weights@[i as int] == inv.get(t) * tw.multiplier(t),
                    weights@[i as int] > 0,
            ;
        }
        let face = t.face_value();
        let entry = PendingReward::lock(face, h);
        proof {
            lemma_total_amount_push(self.queue@, entry);
            lemma_stake_entries_push(self.queue@, entry);
        }
        self.inventory.remove_unit(t);
        self.queue.push(entry);
        self.balance_immature = self.balance_immature + face;
        t
    }

    /// Settles a win at height `h`, drawing from `rng`: first the orphan
    /// penalty, for an account above its threshold; then the reward; then the
    /// tier that loses a unit to a lock, if the account has tickets.
    pub fn hit_stake(&mut self, h: u64, tw: &TicketWeights, rng: &mut StdRng) -> (r: Result<
        StakeOutcome,
        ConfigError,
    >)
        requires
            old(self).wf(),
            tw.wf(),
            h <= MAX_HEIGHT,
            old(self).orphaned_count < 0xffff_ffff_ffff_ffff,
        ensures
            final(self).wf(),
            old(self).won_into(*final(self), h, *tw, r),
    {
        let count = self.inventory.count();
        if count > self.threshold {
            let d = draw_below(rng, count as u128) as u64;
            if self.is_orphaned(d) {
                self.record_orphan();
                return Ok(StakeOutcome::Orphaned);
            }
        }
        let ghost before = *self;
        let reward = match self.issue_reward(h) {
            Ok(v) => v,
            Err(e) => {
                return Err(e);
            },
        };
        let tickets = self.inventory.total_weight(tw);
        if tickets == 0 {
            return Ok(StakeOutcome::Rewarded { reward, locked: None });
        }
        let ghost mid = *self;
        let d = draw_below(rng, tickets as u128);
        let t = self.lock_denom(h, tw, d);
        proof {
            assert(old(self).paid_into(mid, h));
            assert(mid.locked_into(*self, h, t));
        }
        Ok(StakeOutcome::Rewarded { reward, locked: Some(t) })
    }
}

} // verus!
