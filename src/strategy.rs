use vstd::prelude::*;
use crate::inventory::Inventory;
use crate::reward::{
    lemma_total_amount_concat, lemma_total_amount_lock_run, lock_run, total_amount, PendingReward,
    LOCK_DELAY, MAX_HEIGHT,
};
use crate::lottery::draw_below;
use crate::tier::Tier;
use rand::rngs::StdRng;

verus! {

/// How an account restructures its units after each change.
#[derive(Clone, Copy, Debug, PartialEq, Eq, Structural)]
pub enum Strategy {
    /// Leaves the units as they are.
    Hold,
    /// Moves holdings toward one tier: each tier pair below the pair that
    /// ends in that tier takes at most one promotion of ten units, and the
    /// pair that ends in it is flattened (see `FlattenToRatio`). Tiers above
    /// the target are left alone; with the lowest tier as target nothing moves.
    SingleTierBias(Tier),
    /// For each pair of tiers, lowest first, promotes ten lower units into one
    /// upper unit while the lower count is above the upper count and above ten.
    FlattenToRatio,
    /// For each pair of tiers, lowest first, promotes ten lower units into one
    /// upper unit once, if there are ten.
    CollapseUp,
    /// Breaks every unit down into units of the lowest tier.
    CollapseDown,
    /// On the first pass breaks everything down to the lowest tier. Then, for
    /// each tier below the top, while the unit count is above the threshold,
    /// takes ten units at a time from the tier while it holds more than ten:
    /// on the first pass they become one unit of the next tier at once, later
    /// they leave as a lock of that unit's value, to mature in the queue. A
    /// tier stops early once the count falls below the threshold.
    ThresholdBounded,
}

/// The strategy with index `n` among those a new account may draw.
pub open spec fn strategy_of_index(n: u64) -> Strategy {
    if n == 1 {
        Strategy::SingleTierBias(Tier::D10000)
    } else if n == 2 {
        Strategy::FlattenToRatio
    } else if n == 3 {
        Strategy::CollapseUp
    } else if n == 4 {
        Strategy::SingleTierBias(Tier::D100)
    } else if n == 5 {
        Strategy::SingleTierBias(Tier::D1000)
    } else if n == 6 {
        Strategy::ThresholdBounded
    } else {
        Strategy::Hold
    }
}

/// The number of strategies a new account draws from.
pub const STRATEGY_COUNT: u64 = 7;

impl Strategy {
    /// The strategy with index `n`: 0 holds, 1 to 3 lean to the top tier in
    /// different ways, 4 and 5 lean to the hundreds and the thousands, 6 is
    /// threshold-bounded; any other index holds.
    pub fn from_index(n: u64) -> (r: Strategy)
        ensures
            r == strategy_of_index(n),
    {
        if n == 1 {
            Strategy::SingleTierBias(Tier::D10000)
        } else if n == 2 {
            Strategy::FlattenToRatio
        } else if n == 3 {
            Strategy::CollapseUp
        } else if n == 4 {
            Strategy::SingleTierBias(Tier::D100)
        } else if n == 5 {
            Strategy::SingleTierBias(Tier::D1000)
        } else if n == 6 {
            Strategy::ThresholdBounded
        } else {
            Strategy::Hold
        }
    }

    /// Draws one of the strategies a new account may get, uniformly by index.
    pub fn draw(rng: &mut StdRng) -> (r: Strategy)
        ensures
            exists|n: u64| n < STRATEGY_COUNT && r == strategy_of_index(n),
    {
        let n = draw_below(rng, STRATEGY_COUNT as u128) as u64;
        Strategy::from_index(n)
    }
}

/// Ten units of tier `lower` turned into one unit of the tier above.
pub open spec fn promoted(inv: Inventory, lower: Tier) -> Inventory {
    let up = lower.next();
    inv.with(lower, (inv.get(lower) - 10) as u64).with(up, (inv.get(up) + 1) as u64)
}

/// Ten units of tier `lower` taken out.
pub open spec fn taken(inv: Inventory, lower: Tier) -> Inventory {
    inv.with(lower, (inv.get(lower) - 10) as u64)
}

/// Promotes out of `lower` while its count is above the next tier's and
/// above ten.
pub open spec fn flattened(inv: Inventory, lower: Tier) -> Inventory
    decreases inv.get(lower),
{
    if lower != Tier::D10000 && inv.get(lower) > inv.get(lower.next()) && inv.get(lower) > 10 {
        flattened(promoted(inv, lower), lower)
    } else {
        inv
    }
}

/// One promotion out of `lower`, if it holds ten units.
pub open spec fn bumped(inv: Inventory, lower: Tier) -> Inventory {
    if lower != Tier::D10000 && inv.get(lower) >= 10 {
        promoted(inv, lower)
    } else {
        inv
    }
}

/// The bias toward tier `target`.
pub open spec fn biased(inv: Inventory, target: Tier) -> Inventory {
    match target {
        Tier::D10 => inv,
        Tier::D100 => flattened(inv, Tier::D10),
        Tier::D1000 => flattened(bumped(inv, Tier::D10), Tier::D100),
        Tier::D10000 => flattened(bumped(bumped(inv, Tier::D10), Tier::D100), Tier::D1000),
    }
}

/// Everything as units of the lowest tier.
pub open spec fn collapsed_down(inv: Inventory) -> Inventory {
    Inventory {
        d10: (inv.d10 + 10 * inv.d100 + 100 * inv.d1000 + 1_000 * inv.d10000) as u64,
        d100: 0,
        d1000: 0,
        d10000: 0,
    }
}

/// The batches of ten taken out of `lower` while it holds more than ten,
/// stopping early once the unit count falls below `thr`; with `initial` each
/// batch becomes a unit of the next tier, otherwise it leaves as a lock. The
/// result is the inventory and the number of locks.
pub open spec fn drain_steps(inv: Inventory, lower: Tier, thr: u64, initial: bool) -> (
    Inventory,
    nat,
)
    decreases inv.get(lower),
{
    if lower != Tier::D10000 && inv.get(lower) > 10 {
        let next = if initial {
            promoted(inv, lower)
        } else {
            taken(inv, lower)
        };
        let emitted: nat = if initial {
            0
        } else {
            1
        };
        if next.units() < thr {
            (next, emitted)
        } else {
            let rest = drain_steps(next, lower, thr, initial);
            (rest.0, rest.1 + emitted)
        }
    } else {
        (inv, 0)
    }
}

/// The draining of `lower`, which only starts above the threshold.
pub open spec fn drained(inv: Inventory, lower: Tier, thr: u64, initial: bool) -> (Inventory, nat) {
    if inv.units() > thr {
        drain_steps(inv, lower, thr, initial)
    } else {
        (inv, 0)
    }
}

/// The threshold-bounded restructuring, with the locks it makes at height `h`.
pub open spec fn threshold_bounded(inv: Inventory, thr: u64, initial: bool, h: u64) -> (
    Inventory,
    Seq<PendingReward>,
) {
    let start = if initial {
        collapsed_down(inv)
    } else {
        inv
    };
    let s1 = drained(start, Tier::D10, thr, initial);
    let s2 = drained(s1.0, Tier::D100, thr, initial);
    let s3 = drained(s2.0, Tier::D1000, thr, initial);
    (s3.0, lock_run(100, s1.1, h) + lock_run(1_000, s2.1, h) + lock_run(10_000, s3.1, h))
}

/// The inventory after restructuring by `s`, and the locks made at height `h`.
pub open spec fn consolidated(inv: Inventory, s: Strategy, thr: u64, initial: bool, h: u64) -> (
    Inventory,
    Seq<PendingReward>,
) {
    match s {
        Strategy::Hold => (inv, Seq::empty()),
        Strategy::SingleTierBias(target) => (biased(inv, target), Seq::empty()),
        Strategy::FlattenToRatio => (
            flattened(flattened(flattened(inv, Tier::D10), Tier::D100), Tier::D1000),
            Seq::empty(),
        ),
        Strategy::CollapseUp => (
            bumped(bumped(bumped(inv, Tier::D10), Tier::D100), Tier::D1000),
            Seq::empty(),
        ),
        Strategy::CollapseDown => (collapsed_down(inv), Seq::empty()),
        Strategy::ThresholdBounded => threshold_bounded(inv, thr, initial, h),
    }
}

/// Every entry of `q` is a lock made at height `h`.
pub open spec fn all_locks_at(q: Seq<PendingReward>, h: u64) -> bool {
    forall|k: int|
        0 <= k < q.len() ==> !q[k].is_stake && q[k].created_height == h && q[k].maturity_height
            == h + LOCK_DELAY
}

/// What restructuring adds to the queue are locks made at the given height.
pub proof fn lemma_consolidated_locks(inv: Inventory, s: Strategy, thr: u64, initial: bool, h: u64)
    requires
        h <= MAX_HEIGHT,
    ensures
        all_locks_at(consolidated(inv, s, thr, initial, h).1, h),
{
    let q = consolidated(inv, s, thr, initial, h).1;
    assert forall|k: int| 0 <= k < q.len() implies !q[k].is_stake && q[k].created_height == h
        && q[k].maturity_height == h + LOCK_DELAY by {
        if s is ThresholdBounded {
            let start = if initial {
                collapsed_down(inv)
            } else {
                inv
            };
            let s1 = drained(start, Tier::D10, thr, initial);
            let s2 = drained(s1.0, Tier::D100, thr, initial);
            let s3 = drained(s2.0, Tier::D1000, thr, initial);
            let r1 = lock_run(100, s1.1, h);
            let r2 = lock_run(1_000, s2.1, h);
            let r3 = lock_run(10_000, s3.1, h);
            if k < r1.len() {
                assert(q[k] == r1[k]);
            } else if k < r1.len() + r2.len() {
                assert(q[k] == r2[k - r1.len()]);
            } else {
                assert(q[k] == r3[k - r1.len() - r2.len()]);
            }
        }
    }
}

proof fn lemma_initial_drain_no_locks(inv: Inventory, lower: Tier, thr: u64)
    ensures
        drain_steps(inv, lower, thr, true).1 == 0,
    decreases inv.get(lower),
{
    if lower != Tier::D10000 && inv.get(lower) > 10 {
        let next = promoted(inv, lower);
        if next.units() >= thr {
            lemma_initial_drain_no_locks(next, lower, thr);
        }
    }
}

/// The first pass over a new account makes no locks.
pub proof fn lemma_initial_pass_no_locks(inv: Inventory, s: Strategy, thr: u64, h: u64)
    ensures
        consolidated(inv, s, thr, true, h).1.len() == 0,
{
    if s is ThresholdBounded {
        let start = collapsed_down(inv);
        let s1 = drained(start, Tier::D10, thr, true);
        let s2 = drained(s1.0, Tier::D100, thr, true);
        lemma_initial_drain_no_locks(start, Tier::D10, thr);
        lemma_initial_drain_no_locks(s1.0, Tier::D100, thr);
        lemma_initial_drain_no_locks(s2.0, Tier::D1000, thr);
    }
}

impl Inventory {
    fn promote(&mut self, lower: Tier)
        requires
            old(self).wf(),
            lower != Tier::D10000,
            old(self).get(lower) >= 10,
        ensures
            *final(self) == promoted(*old(self), lower),
            final(self).worth() == old(self).worth(),
    {
        match lower {
            Tier::D10 => {
                self.d10 = self.d10 - 10;
                self.d100 = self.d100 + 1;
            },
            Tier::D100 => {
                self.d100 = self.d100 - 10;
                self.d1000 = self.d1000 + 1;
            },
            _ => {
                self.d1000 = self.d1000 - 10;
                self.d10000 = self.d10000 + 1;
            },
        }
    }

    fn take_batch(&mut self, lower: Tier)
        requires
            old(self).wf(),
            lower != Tier::D10000,
            old(self).get(lower) >= 10,
        ensures
            *final(self) == taken(*old(self), lower),
            final(self).worth() + lower.next().face_value() == old(self).worth(),
    {
        match lower {
            Tier::D10 => {
                self.d10 = self.d10 - 10;
            },
            Tier::D100 => {
                self.d100 = self.d100 - 10;
            },
            _ => {
                self.d1000 = self.d1000 - 10;
            },
        }
    }

    /// Promotes out of `lower` while its count is above the next tier's and
    /// above ten.
    pub fn flatten(&mut self, lower: Tier)
        requires
            old(self).wf(),
        ensures
            *final(self) == flattened(*old(self), lower),
            final(self).worth() == old(self).worth(),
    {
        if lower == Tier::D10000 {
            return;
        }
        let up = lower.next();
        let ghost start = *self;
        while self.get(lower) > self.get(up) && self.get(lower) > 10
            invariant
                self.wf(),
                self.worth() == start.worth(),
                lower != Tier::D10000,
                up == lower.next(),
                flattened(*self, lower) == flattened(start, lower),
            decreases self.get(lower),
        {
            self.promote(lower);
        }
    }

    /// One promotion out of `lower`, if it holds ten units.
    pub fn bump(&mut self, lower: Tier)
        requires
            old(self).wf(),
        ensures
            *final(self) == bumped(*old(self), lower),
            final(self).worth() == old(self).worth(),
    {
        if lower != Tier::D10000 && self.get(lower) >= 10 {
            self.promote(lower);
        }
    }

    /// Breaks every unit down into units of the lowest tier.
    pub fn collapse_down(&mut self)
        requires
            old(self).wf(),
        ensures
            *final(self) == collapsed_down(*old(self)),
            final(self).worth() == old(self).worth(),
    {
        self.d10 = self.d10 + 10 * self.d100 + 100 * self.d1000 + 1_000 * self.d10000;
        self.d100 = 0;
        self.d1000 = 0;
        self.d10000 = 0;
    }

    fn drain(&mut self, lower: Tier, thr: u64, initial: bool, h: u64, locks: &mut Vec<PendingReward>)
        requires
            old(self).wf(),
            lower != Tier::D10000,
            h <= MAX_HEIGHT,
        ensures
            *final(self) == drained(*old(self), lower, thr, initial).0,
            final(locks)@ == old(locks)@ + lock_run(
                lower.next().face_value(),
                drained(*old(self), lower, thr, initial).1,
                h,
            ),
            final(self).wf(),
            final(self).worth() + drained(*old(self), lower, thr, initial).1
                * lower.next().face_value() == old(self).worth(),
            initial ==> drained(*old(self), lower, thr, initial).1 == 0,
    {
        if self.count() <= thr {
            assert(locks@ + lock_run(lower.next().face_value(), 0, h) =~= locks@);
            return;
        }
        let amount = lower.next().face_value();
        let ghost start = *self;
        let ghost start_locks = locks@;
        let ghost mut e: nat = 0;
        assert(locks@ =~= start_locks + lock_run(amount, e, h));
        while self.get(lower) > 10
            invariant_except_break
                drain_steps(*self, lower, thr, initial).0 == drain_steps(start, lower, thr, initial).0,
                drain_steps(*self, lower, thr, initial).1 + e == drain_steps(
                    start,
                    lower,
                    thr,
                    initial,
                ).1,
            invariant
                self.wf(),
                lower != Tier::D10000,
                h <= MAX_HEIGHT,
                amount == lower.next().face_value(),
                locks@ == start_locks + lock_run(amount, e, h),
                self.worth() + e * amount == start.worth(),
                initial ==> e == 0,
            ensures
                *self == drain_steps(start, lower, thr, initial).0,
                e == drain_steps(start, lower, thr, initial).1,
            decreases self.get(lower),
        {
            if initial {
                self.promote(lower);
            } else {
                let ghost before = locks@;
                self.take_batch(lower);
                locks.push(PendingReward::lock(amount, h));
                proof {
                    assert(lock_run(amount, e + 1, h) =~= lock_run(amount, e, h).push(
                        PendingReward::spec_lock(amount, h),
                    ));
                    assert(locks@ =~= start_locks + lock_run(amount, e + 1, h));
                    assert((e + 1) * amount == e * amount + amount) by (nonlinear_arith);
                    e = e + 1;
                }
            }
            if self.count() < thr {
                break;
            }
        }
    }

    /// Restructures the units by strategy `s` with unit threshold `thr`;
    /// `initial` marks the first pass over a new account. Returns the locks
    /// made at height `h`, which hold exactly the value that left the units.
    pub fn consolidate(&mut self, s: Strategy, thr: u64, initial: bool, h: u64) -> (locks: Vec<
        PendingReward,
    >)
        requires
            old(self).wf(),
            h <= MAX_HEIGHT,
        ensures
            (*final(self), locks@) == consolidated(*old(self), s, thr, initial, h),
            final(self).wf(),
            final(self).worth() + total_amount(locks@) == old(self).worth(),
    {
        let mut locks: Vec<PendingReward> = Vec::new();
        match s {
            Strategy::Hold => {},
            Strategy::SingleTierBias(target) => {
                match target {
                    Tier::D10 => {},
                    Tier::D100 => {
                        self.flatten(Tier::D10);
                    },
                    Tier::D1000 => {
                        self.bump(Tier::D10);
                        self.flatten(Tier::D100);
                    },
                    Tier::D10000 => {
                        self.bump(Tier::D10);
                        self.bump(Tier::D100);
                        self.flatten(Tier::D1000);
                    },
                }
            },
            Strategy::FlattenToRatio => {
                self.flatten(Tier::D10);
                self.flatten(Tier::D100);
                self.flatten(Tier::D1000);
            },
            Strategy::CollapseUp => {
                self.bump(Tier::D10);
                self.bump(Tier::D100);
                self.bump(Tier::D1000);
            },
            Strategy::CollapseDown => {
                self.collapse_down();
            },
            Strategy::ThresholdBounded => {
                if initial {
                    self.collapse_down();
                }
                let ghost s0 = *self;
                self.drain(Tier::D10, thr, initial, h, &mut locks);
                let ghost s1 = *self;
                let ghost l1 = locks@;
                self.drain(Tier::D100, thr, initial, h, &mut locks);
                let ghost s2 = *self;
                let ghost l2 = locks@;
                self.drain(Tier::D1000, thr, initial, h, &mut locks);
                proof {
                    let k1 = drained(s0, Tier::D10, thr, initial).1;
                    let k2 = drained(s1, Tier::D100, thr, initial).1;
                    let k3 = drained(s2, Tier::D1000, thr, initial).1;
                    let r1 = lock_run(100, k1, h);
                    let r2 = lock_run(1_000, k2, h);
                    let r3 = lock_run(10_000, k3, h);
                    assert(locks@ =~= r1 + r2 + r3);
                    lemma_total_amount_concat(r1, r2);
                    lemma_total_amount_concat(r1 + r2, r3);
                    lemma_total_amount_lock_run(100, k1, h);
                    lemma_total_amount_lock_run(1_000, k2, h);
                    lemma_total_amount_lock_run(10_000, k3, h);
                }
            },
        }
        proof {
            if !(s is ThresholdBounded) {
                assert(locks@ =~= Seq::<PendingReward>::empty());
            }
        }
        locks
    }
}

} // verus!

verus! {

/// Tier `lower` would not flatten: its count is at most the next tier's or
/// at most ten.
pub open spec fn is_flat(inv: Inventory, lower: Tier) -> bool {
    !(inv.get(lower) > inv.get(lower.next()) && inv.get(lower) > 10)
}

/// `inv` is a fixed point of strategy `s` with threshold `thr`, past the
/// first pass.
pub open spec fn is_settled(inv: Inventory, s: Strategy, thr: u64) -> bool {
    match s {
        Strategy::Hold => true,
        Strategy::SingleTierBias(target) => match target {
            Tier::D10 => true,
            Tier::D100 => is_flat(inv, Tier::D10),
            Tier::D1000 => inv.d10 < 10 && is_flat(inv, Tier::D100),
            Tier::D10000 => inv.d10 < 10 && inv.d100 < 10 && is_flat(inv, Tier::D1000),
        },
        Strategy::FlattenToRatio => is_flat(inv, Tier::D10) && is_flat(inv, Tier::D100) && is_flat(
            inv,
            Tier::D1000,
        ),
        Strategy::CollapseUp => inv.d10 < 10 && inv.d100 < 10 && inv.d1000 < 10,
        Strategy::CollapseDown => inv.d100 == 0 && inv.d1000 == 0 && inv.d10000 == 0,
        Strategy::ThresholdBounded => inv.units() <= thr || (inv.d10 <= 10 && inv.d100 <= 10
            && inv.d1000 <= 10),
    }
}

/// Restructuring an inventory that is already at its strategy's fixed point
/// leaves it unchanged and makes no locks.
pub proof fn lemma_settled_is_fixed(inv: Inventory, s: Strategy, thr: u64, h: u64)
    requires
        is_settled(inv, s, thr),
    ensures
        consolidated(inv, s, thr, false, h).0 == inv,
        consolidated(inv, s, thr, false, h).1.len() == 0,
{
    if s is ThresholdBounded {
        assert(lock_run(100, 0, h) + lock_run(1_000, 0, h) + lock_run(10_000, 0, h)
            =~= Seq::<PendingReward>::empty());
    }
}

} // verus!
