use vstd::prelude::*;
use crate::lottery::{draw_below, lemma_prefix_sum_bound, prefix_sum, select, selects, weight_total};
use crate::inventory::decomposed;
use crate::reward::{reward_at,
    supply_increment, supply_increment_at, MAX_HEIGHT, STAKE_REWARD, SUPER_BLOCK,
};
use crate::staker::{ConfigError, StakeOutcome, Staker};
use crate::strategy::{consolidated, Strategy};
use crate::tier::{TicketWeights, MAX_BALANCE};
use rand::rngs::StdRng;

verus! {

/// The supply when the simulated history starts: six super blocks of rewards.
pub const GENESIS_SUPPLY: u64 = SUPER_BLOCK * STAKE_REWARD * 6;

/// The height at which the simulated history starts.
pub const GENESIS_HEIGHT: u64 = SUPER_BLOCK * 6;

/// The accounts and the chain's global counters.
#[derive(Debug)]
pub struct Network {
    pub stakers: Vec<Staker>,
    pub total_supply: u64,
    pub block_height: u64,
    pub tickets: TicketWeights,
}

/// A block's winner: the index of the account and what became of the win.
#[derive(Clone, Copy, Debug, PartialEq, Eq, Structural)]
pub struct Win {
    pub staker: usize,
    pub outcome: StakeOutcome,
}

/// Splits the next account's balance off the supply still to hand out: the
/// sampled balance, or what is left if that is less. Returns the balance and
/// what remains.
pub fn allot(remaining: u64, sampled: u64) -> (r: (u64, u64))
    ensures
        r.0 == if sampled <= remaining {
            sampled
        } else {
            remaining
        },
        r.0 + r.1 == remaining,
{
    if sampled <= remaining {
        (sampled, remaining - sampled)
    } else {
        (remaining, 0)
    }
}

/// `n` is `o` after the release at height `h` and then a win settled with
/// `outcome`, the account holding tickets when it won.
pub open spec fn released_and_won(
    o: Staker,
    n: Staker,
    h: u64,
    tw: TicketWeights,
    outcome: StakeOutcome,
) -> bool {
    exists|mid: Staker|
        #[trigger] o.released_into(mid, h) && mid.inventory.tickets(tw) > 0 && mid.won_into(
            n,
            h,
            tw,
            Ok(outcome),
        )
}

impl Network {
    /// Valid tickets and accounts, with no account orphaned more often than
    /// `bound`.
    pub open spec fn wf_at(&self, bound: u64) -> bool {
        &&& self.tickets.wf()
        &&& forall|i: int|
            0 <= i < self.stakers@.len() ==> #[trigger] self.stakers@[i].wf()
                && self.stakers@[i].orphaned_count <= bound
    }

    /// Some account, once it has released what matured at the current
    /// height, holds lottery tickets.
    pub open spec fn tickets_after_release(&self) -> bool {
        exists|i: int, m: Staker|
            0 <= i < self.stakers@.len() && #[trigger] self.stakers@[i].released_into(
                m,
                self.block_height,
            ) && m.inventory.tickets(self.tickets) > 0
    }

    /// Some account's spendable balance would leave the money range if it
    /// were paid the reward for the current height.
    pub open spec fn reward_overflows_some(&self) -> bool {
        exists|i: int|
            0 <= i < self.stakers@.len() && #[trigger] self.stakers@[i].balance_spendable
                + reward_at(self.block_height) > MAX_BALANCE
    }

    /// The network's invariant: no account has been orphaned more often than
    /// there have been blocks.
    pub open spec fn wf(&self) -> bool {
        self.wf_at(self.block_height)
    }

    /// An empty network at the genesis height and supply, with the standard
    /// ticket multipliers.
    pub fn new() -> (r: Network)
        ensures
            r.wf(),
            r.stakers@.len() == 0,
            r.total_supply == GENESIS_SUPPLY,
            r.block_height == GENESIS_HEIGHT,
            r.tickets == (TicketWeights { d10: 2, d100: 19, d1000: 180, d10000: 1_700 }),
    {
        Network {
            stakers: Vec::new(),
            total_supply: GENESIS_SUPPLY,
            block_height: GENESIS_HEIGHT,
            tickets: TicketWeights::standard(),
        }
    }

    /// Adds an account holding `balance`, with the next id and the current
    /// supply as its starting supply. Returns its id; a balance outside the
    /// money range is refused and nothing changes.
    pub fn add_staker(&mut self, balance: u64, strategy: Strategy, threshold: u64) -> (r: Result<
        u64,
        ConfigError,
    >)
        requires
            old(self).wf(),
        ensures
            final(self).wf(),
            final(self).total_supply == old(self).total_supply,
            final(self).block_height == old(self).block_height,
            final(self).tickets == old(self).tickets,
            r is Err <==> balance > MAX_BALANCE,
            r is Err ==> final(self).stakers@ == old(self).stakers@,
            r matches Ok(id) ==> {
                &&& id == old(self).stakers@.len()
                &&& final(self).stakers@.len() == old(self).stakers@.len() + 1
                &&& final(self).stakers@.drop_last() == old(self).stakers@
                &&& final(self).stakers@.last().id == id
                &&& final(self).stakers@.last().balance_spendable == balance
                &&& final(self).stakers@.last().start_supply == old(self).total_supply
                &&& final(self).stakers@.last().strategy == strategy
                &&& final(self).stakers@.last().threshold == threshold
                &&& final(self).stakers@.last().start_balance == balance
                &&& final(self).stakers@.last().current_supply == old(self).total_supply
                &&& final(self).stakers@.last().inventory == consolidated(
                    decomposed(balance),
                    strategy,
                    threshold,
                    true,
                    0,
                ).0
                &&& final(self).stakers@.last().queue@.len() == 0
                &&& final(self).stakers@.last().balance_immature == 0
                &&& final(self).stakers@.last().orphaned_count == 0
                &&& final(self).stakers@.last().total_stake_count == 0
                &&& final(self).stakers@.last().conf_stake_count == 0
                &&& final(self).stakers@.last().immature_stake_count == 0
            },
    {
        let id = self.stakers.len() as u64;
        match Staker::new(balance, id, strategy, threshold, self.total_supply) {
            Ok(s) => {
                self.stakers.push(s);
                proof {
                    assert(self.stakers@.drop_last() =~= old(self).stakers@);
                }
                Ok(id)
            },
            Err(e) => Err(e),
        }
    }

    /// One block's lottery at the current height: every account releases at
    /// most one matured entry, then a draw over the accounts' tickets picks
    /// the winner, which settles its win. An account's stake probability is
    /// its tickets over a tenth of the supply; the denominator is the same
    /// for all, so the draw goes by tickets. With no tickets anywhere there
    /// is no winner. A refused reward is reported as an error.
    pub fn stake(&mut self, rng: &mut StdRng) -> (r: Result<Option<Win>, ConfigError>)
        requires
            old(self).wf(),
            old(self).block_height < MAX_HEIGHT,
        ensures
            final(self).wf_at((old(self).block_height + 1) as u64),
            final(self).total_supply == old(self).total_supply,
            final(self).block_height == old(self).block_height,
            final(self).tickets == old(self).tickets,
            final(self).stakers@.len() == old(self).stakers@.len(),
            forall|i: int|
                0 <= i < old(self).stakers@.len() && !(r matches Ok(Some(w)) && w.staker == i)
                    ==> #[trigger] old(self).stakers@[i].released_into(
                    final(self).stakers@[i],
                    old(self).block_height,
                ),
            r matches Err(e) ==> e == ConfigError::RewardOutOfRange,
            r is Err ==> old(self).reward_overflows_some(),
            (forall|i: int|
                0 <= i < old(self).stakers@.len() ==> #[trigger] old(self).stakers@[i].balance_spendable
                    + reward_at(old(self).block_height) <= MAX_BALANCE) ==> r is Ok,
            (r matches Ok(None)) <==> !old(self).tickets_after_release(),
            r matches Ok(None) ==> forall|i: int|
                0 <= i < old(self).stakers@.len() ==> (#[trigger] final(self).stakers@[i]).inventory.tickets(
                    old(self).tickets,
                ) == 0,
            r matches Ok(Some(w)) ==> {
                &&& w.staker < old(self).stakers@.len()
                &&& released_and_won(
                    old(self).stakers@[w.staker as int],
                    final(self).stakers@[w.staker as int],
                    old(self).block_height,
                    old(self).tickets,
                    w.outcome,
                )
            },
    {
        let h = self.block_height;
        let tw = self.tickets;
        let ghost start = self.stakers@;
        assert(forall|j: int| 0 <= j < start.len() ==> (#[trigger] self.stakers@[j]).wf()
            && self.stakers@[j].orphaned_count <= h);
        let mut weights: Vec<u64> = Vec::new();
        let mut total: u128 = 0;
        let mut i: usize = 0;
        while i < self.stakers.len()
            invariant
                self.stakers@.len() == start.len(),
                0 <= i <= start.len(),
                h == old(self).block_height,
                h < MAX_HEIGHT,
                tw == old(self).tickets,
                tw.wf(),
                self.total_supply == old(self).total_supply,
                self.block_height == h,
                self.tickets == tw,
                start == old(self).stakers@,
                forall|j: int|
                    0 <= j < i ==> start[j].released_into(#[trigger] self.stakers@[j], h),
                forall|j: int|
                    0 <= j < start.len() ==> (#[trigger] self.stakers@[j]).wf()
                        && self.stakers@[j].orphaned_count <= h,
                forall|j: int| i <= j < start.len() ==> #[trigger] self.stakers@[j] == start[j],
                weights@.len() == i,
                forall|j: int|
                    0 <= j < i ==> #[trigger] weights@[j] == self.stakers@[j].inventory.tickets(tw),
                total == prefix_sum(weights@, i as int),
            decreases start.len() - i,
        {
            self.stakers[i].mature_balances(h);
            let w = self.stakers[i].inventory.total_weight(&tw);
            proof {
                lemma_prefix_sum_bound(weights@, i as int);
                assert(total + w <= (i + 1) * 0xffff_ffff_ffff_ffffu64) by (nonlinear_arith)
                    requires
                        total <= i * 0xffff_ffff_ffff_ffffu64,
                        w <= 0xffff_ffff_ffff_ffffu64,
                ;
                assert((i + 1) * 0xffff_ffff_ffff_ffffu64 <= 0xffff_ffff_ffff_ffff_ffff_ffff_ffff_ffffu128)
                    by (nonlinear_arith)
                    requires
                        i < 0x1_0000_0000_0000_0000int,
                ;
            }
            let ghost before = weights@;
            weights.push(w);
            proof {
                assert(weights@.subrange(0, i as int) =~= before);
                lemma_prefix_sum_prefix(weights@, before, i as int);
            }
            total = total + w as u128;
            i = i + 1;
        }
        if total == 0 {
            proof {
                assert forall|j: int| 0 <= j < start.len() implies (
                #[trigger] self.stakers@[j]).inventory.tickets(tw) == 0 by {
                    lemma_zero_total(weights@, j);
                }
                assert forall|j: int, m: Staker|
                    0 <= j < start.len() && #[trigger] start[j].released_into(m, h) implies m.inventory.tickets(tw)
                    == 0 by {
                    lemma_zero_total(weights@, j);
                    lemma_release_inventory(start[j], m, self.stakers@[j], h);
                }
            }
            return Ok(None);
        }
        let d = draw_below(rng, total);
        let winner = select(&weights, d).unwrap();
        let ghost mid = self.stakers@[winner as int];
        proof {
            assert(selects(weights@, winner as int, d as int));
            assert(weights@[winner as int] > 0);
            assert(mid.inventory.tickets(tw) > 0);
            assert(start[winner as int].released_into(mid, h));
            assert(old(self).tickets_after_release());
        }
        let res = self.stakers[winner].hit_stake(h, &tw, rng);
        match res {
            Ok(outcome) => {
                proof {
                    assert(start[winner as int].released_into(mid, h));
                    assert(mid.won_into(self.stakers@[winner as int], h, tw, Ok(outcome)));
                    assert(released_and_won(start[winner as int], self.stakers@[winner as int], h, tw, outcome));
                }
                Ok(Some(Win { staker: winner, outcome }))
            },
            Err(e) => {
                proof {
                    assert(start[winner as int].released_into(self.stakers@[winner as int], h));
                    assert(start[winner as int].balance_spendable + reward_at(h) > MAX_BALANCE);
                    assert(old(self).reward_overflows_some());
                }
                Err(e)
            },
        }
    }

    /// The supply grows by the schedule's increment for the current height.
    pub fn update_total_supply(&mut self)
        requires
            old(self).total_supply <= 0xffff_ffff_ffff_ffff - STAKE_REWARD,
        ensures
            final(self).total_supply == old(self).total_supply + supply_increment_at(
                old(self).block_height,
            ),
            final(self).block_height == old(self).block_height,
            final(self).tickets == old(self).tickets,
            final(self).stakers@ == old(self).stakers@,
    {
        let inc = supply_increment(self.block_height);
        self.total_supply = self.total_supply + inc;
    }

    /// Closes a block: the height moves on by one and the supply grows by the
    /// increment for the new height.
    pub fn advance(&mut self)
        requires
            old(self).wf_at((old(self).block_height + 1) as u64),
            old(self).block_height < MAX_HEIGHT,
            old(self).total_supply <= 0xffff_ffff_ffff_ffff - STAKE_REWARD,
        ensures
            final(self).wf(),
            final(self).block_height == old(self).block_height + 1,
            final(self).total_supply == old(self).total_supply + supply_increment_at(
                final(self).block_height,
            ),
            final(self).tickets == old(self).tickets,
            final(self).stakers@ == old(self).stakers@,
    {
        let ghost before = *self;
        self.block_height = self.block_height + 1;
        self.update_total_supply();
        proof {
            assert forall|i: int| 0 <= i < self.stakers@.len() implies #[trigger] self.stakers@[i].wf()
                && self.stakers@[i].orphaned_count <= self.block_height by {
                assert(self.stakers@[i] == before.stakers@[i]);
                assert(before.stakers@[i].wf());
                assert(before.stakers@[i].orphaned_count <= (before.block_height + 1) as u64);
            }
        }
    }

    /// One whole block: the lottery at the current height, then the height
    /// moves on by one and the supply grows by the increment for the new
    /// height.
    pub fn step(&mut self, rng: &mut StdRng) -> (r: Result<Option<Win>, ConfigError>)
        requires
            old(self).wf(),
            old(self).block_height < MAX_HEIGHT,
            old(self).total_supply <= 0xffff_ffff_ffff_ffff - STAKE_REWARD,
        ensures
            final(self).wf(),
            final(self).block_height == old(self).block_height + 1,
            final(self).total_supply == old(self).total_supply + supply_increment_at(
                final(self).block_height,
            ),
            final(self).tickets == old(self).tickets,
            final(self).stakers@.len() == old(self).stakers@.len(),
            forall|i: int|
                0 <= i < old(self).stakers@.len() && !(r matches Ok(Some(w)) && w.staker == i)
                    ==> #[trigger] old(self).stakers@[i].released_into(
                    final(self).stakers@[i],
                    old(self).block_height,
                ),
            r matches Err(e) ==> e == ConfigError::RewardOutOfRange,
            r is Err ==> old(self).reward_overflows_some(),
            (forall|i: int|
                0 <= i < old(self).stakers@.len() ==> #[trigger] old(self).stakers@[i].balance_spendable
                    + reward_at(old(self).block_height) <= MAX_BALANCE) ==> r is Ok,
            (r matches Ok(None)) <==> !old(self).tickets_after_release(),
            r matches Ok(None) ==> forall|i: int|
                0 <= i < old(self).stakers@.len() ==> (#[trigger] final(self).stakers@[i]).inventory.tickets(
                    old(self).tickets,
                ) == 0,
            r matches Ok(Some(w)) ==> {
                &&& w.staker < old(self).stakers@.len()
                &&& released_and_won(
                    old(self).stakers@[w.staker as int],
                    final(self).stakers@[w.staker as int],
                    old(self).block_height,
                    old(self).tickets,
                    w.outcome,
                )
            },
    {
        let r = self.stake(rng);
        self.advance();
        r
    }

    /// Records the final supply in every account, against which its current
    /// share is measured.
    pub fn update_stakers(&mut self)
        requires
            old(self).wf(),
        ensures
            final(self).wf(),
            final(self).total_supply == old(self).total_supply,
            final(self).block_height == old(self).block_height,
            final(self).stakers@.len() == old(self).stakers@.len(),
            final(self).tickets == old(self).tickets,
            forall|i: int|
                0 <= i < final(self).stakers@.len() ==> (#[trigger] final(self).stakers@[i]).resupplied(
                    old(self).stakers@[i],
                    old(self).total_supply,
                ),
    {
        let supply = self.total_supply;
        let mut i: usize = 0;
        while i < self.stakers.len()
            invariant
                self.wf(),
                self.stakers@.len() == old(self).stakers@.len(),
                self.total_supply == supply,
                supply == old(self).total_supply,
                self.block_height == old(self).block_height,
                0 <= i <= self.stakers@.len(),
                self.tickets == old(self).tickets,
                forall|j: int|
                    0 <= j < i ==> (#[trigger] self.stakers@[j]).resupplied(old(self).stakers@[j], supply),
                forall|j: int|
                    i <= j < self.stakers@.len() ==> #[trigger] self.stakers@[j] == old(self).stakers@[j],
            decreases self.stakers@.len() - i,
        {
            let ghost prev = self.stakers@;
            self.stakers[i].update(supply);
            proof {
                assert forall|j: int| 0 <= j < self.stakers@.len() implies (
                #[trigger] self.stakers@[j]).wf() && self.stakers@[j].orphaned_count
                    <= self.block_height by {
                    if j != i {
                        assert(self.stakers@[j] == prev[j]);
                    }
                }
            }
            i = i + 1;
        }
    }
}

proof fn lemma_prefix_sum_prefix(w: Seq<u64>, v: Seq<u64>, n: int)
    requires
        0 <= n <= v.len(),
        n <= w.len(),
        w.subrange(0, n) == v,
    ensures
        prefix_sum(w, n) == prefix_sum(v, n),
    decreases n,
{
    if n > 0 {
        assert(w[n - 1] == v[n - 1]);
        assert(w.subrange(0, n - 1) =~= v.subrange(0, n - 1));
        lemma_prefix_sum_prefix(w, v.subrange(0, n - 1), n - 1);
        lemma_prefix_sum_prefix(v, v.subrange(0, n - 1), n - 1);
    }
}

/// A release at a given height leaves one inventory, whatever else is said of
/// the account after it.
proof fn lemma_release_inventory(o: Staker, m1: Staker, m2: Staker, h: u64)
    requires
        o.released_into(m1, h),
        o.released_into(m2, h),
    ensures
        m1.inventory == m2.inventory,
{
}

proof fn lemma_zero_total(w: Seq<u64>, j: int)
    requires
        0 <= j < w.len(),
        weight_total(w) == 0,
    ensures
        w[j] == 0,
{
    crate::lottery::lemma_prefix_sum_monotone(w, 0, j);
    crate::lottery::lemma_prefix_sum_monotone(w, j + 1, w.len() as int);
}

} // verus!
