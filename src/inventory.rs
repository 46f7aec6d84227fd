use vstd::prelude::*;
use crate::tier::{Tier, TicketWeights, MAX_BALANCE, MAX_TICKET_MULTIPLIER};

verus! {

/// How many units of each tier an account holds.
#[derive(Clone, Copy, Debug, PartialEq, Eq, Structural)]
pub struct Inventory {
    pub d10: u64,
    pub d100: u64,
    pub d1000: u64,
    pub d10000: u64,
}

/// The inventory that the greedy, largest-tier-first split of `balance`
/// gives; what is left below the smallest face value is dropped.
pub open spec fn decomposed(balance: u64) -> Inventory {
    Inventory {
        d10: (balance % 100 / 10) as u64,
        d100: (balance % 1_000 / 100) as u64,
        d1000: (balance % 10_000 / 1_000) as u64,
        d10000: (balance / 10_000) as u64,
    }
}

impl Inventory {
    /// The money that the units represent.
    pub open spec fn worth(self) -> int {
        self.d10 * 10 + self.d100 * 100 + self.d1000 * 1_000 + self.d10000 * 10_000
    }

    /// The number of units, over all tiers.
    pub open spec fn units(self) -> int {
        self.d10 + self.d100 + self.d1000 + self.d10000
    }

    /// The lottery tickets that the units carry under multipliers `tw`.
    pub open spec fn tickets(self, tw: TicketWeights) -> int {
        self.d10 * tw.d10 + self.d100 * tw.d100 + self.d1000 * tw.d1000 + self.d10000
            * tw.d10000
    }

    /// A valid inventory holds no more than the largest amount of money.
    pub open spec fn wf(self) -> bool {
        self.worth() <= MAX_BALANCE
    }

    pub open spec fn is_empty(self) -> bool {
        self.d10 == 0 && self.d100 == 0 && self.d1000 == 0 && self.d10000 == 0
    }

    pub open spec fn spec_get(&self, t: Tier) -> u64 {
        match t {
            Tier::D10 => self.d10,
            Tier::D100 => self.d100,
            Tier::D1000 => self.d1000,
            Tier::D10000 => self.d10000,
        }
    }

    /// This inventory with the count of tier `t` replaced by `v`.
    pub open spec fn with(self, t: Tier, v: u64) -> Inventory {
        match t {
            Tier::D10 => Inventory { d10: v, ..self },
            Tier::D100 => Inventory { d100: v, ..self },
            Tier::D1000 => Inventory { d1000: v, ..self },
            Tier::D10000 => Inventory { d10000: v, ..self },
        }
    }

    /// The units of both inventories together.
    pub open spec fn plus(self, other: Inventory) -> Inventory {
        Inventory {
            d10: (self.d10 + other.d10) as u64,
            d100: (self.d100 + other.d100) as u64,
            d1000: (self.d1000 + other.d1000) as u64,
            d10000: (self.d10000 + other.d10000) as u64,
        }
    }

    /// Adds the units of `other`.
    pub fn add(&mut self, other: &Inventory)
        requires
            old(self).worth() + other.worth() <= MAX_BALANCE,
        ensures
            *final(self) == old(self).plus(*other),
            final(self).worth() == old(self).worth() + other.worth(),
            final(self).wf(),
    {
        self.d10 = self.d10 + other.d10;
        self.d100 = self.d100 + other.d100;
        self.d1000 = self.d1000 + other.d1000;
        self.d10000 = self.d10000 + other.d10000;
    }

    /// One unit of tier `t` removed.
    pub open spec fn minus_one(self, t: Tier) -> Inventory {
        self.with(t, (self.get(t) - 1) as u64)
    }

    /// Removes one unit of tier `t`.
    pub fn remove_unit(&mut self, t: Tier)
        requires
            old(self).get(t) > 0,
        ensures
            *final(self) == old(self).minus_one(t),
            final(self).worth() == old(self).worth() - t.face_value(),
    {
        match t {
            Tier::D10 => self.d10 = self.d10 - 1,
            Tier::D100 => self.d100 = self.d100 - 1,
            Tier::D1000 => self.d1000 = self.d1000 - 1,
            Tier::D10000 => self.d10000 = self.d10000 - 1,
        }
    }

    /// Splits `balance` into units, largest tier first; the remainder below
    /// the smallest face value is dropped.
    pub fn decompose(balance: u64) -> (r: Inventory)
        ensures
            r == decomposed(balance),
            r.worth() <= balance < r.worth() + 10,
    {
        proof {
            lemma_decompose_truncation(balance);
        }
        Inventory {
            d10: balance % 100 / 10,
            d100: balance % 1_000 / 100,
            d1000: balance % 10_000 / 1_000,
            d10000: balance / 10_000,
        }
    }

    /// The count of tier `t`.
    #[verifier::when_used_as_spec(spec_get)]
    pub fn get(&self, t: Tier) -> (r: u64)
        ensures
            r == self.spec_get(t),
    {
        match t {
            Tier::D10 => self.d10,
            Tier::D100 => self.d100,
            Tier::D1000 => self.d1000,
            Tier::D10000 => self.d10000,
        }
    }

    /// The number of units held.
    pub fn count(&self) -> (r: u64)
        requires
            self.wf(),
        ensures
            r == self.units(),
    {
        self.d10 + self.d100 + self.d1000 + self.d10000
    }

    /// The money that the units represent.
    pub fn value(&self) -> (r: u64)
        requires
            self.wf(),
        ensures
            r == self.worth(),
    {
        self.d10 * 10 + self.d100 * 100 + self.d1000 * 1_000 + self.d10000 * 10_000
    }

    /// The tickets that the units of tier `t` carry.
    pub fn weight(&self, t: Tier, tw: &TicketWeights) -> (r: u64)
        requires
            self.wf(),
            tw.wf(),
        ensures
            r == self.get(t) * tw.multiplier(t),
            r <= (MAX_BALANCE / 10) * MAX_TICKET_MULTIPLIER,
    {
        let c = self.get(t);
        let m = tw.multiplier(t);
        proof {
            lemma_count_bound(*self, t);
            lemma_mul_bound(c as int, m as int);
        }
        c * m
    }

    /// The tickets of the whole inventory.
    pub fn total_weight(&self, tw: &TicketWeights) -> (r: u64)
        requires
            self.wf(),
            tw.wf(),
        ensures
            r == self.tickets(*tw),
    {
        let a = self.weight(Tier::D10, tw);
        let b = self.weight(Tier::D100, tw);
        let c = self.weight(Tier::D1000, tw);
        let d = self.weight(Tier::D10000, tw);
        a + b + c + d
    }
}

/// No tier of a valid inventory holds more than a tenth of the largest amount.
pub proof fn lemma_count_bound(inv: Inventory, t: Tier)
    requires
        inv.wf(),
    ensures
        inv.get(t) <= MAX_BALANCE / 10,
{
}

proof fn lemma_mul_bound(c: int, m: int)
    requires
        0 <= c <= MAX_BALANCE / 10,
        0 <= m <= MAX_TICKET_MULTIPLIER,
    ensures
        c * m <= (MAX_BALANCE / 10) * MAX_TICKET_MULTIPLIER,
{
    assert(c * m <= (MAX_BALANCE / 10) * MAX_TICKET_MULTIPLIER) by (nonlinear_arith)
        requires
            0 <= c <= MAX_BALANCE / 10,
            0 <= m <= MAX_TICKET_MULTIPLIER,
    ;
}

/// The greedy split never makes money, and loses less than the smallest
/// face value.
pub proof fn lemma_decompose_truncation(balance: u64)
    ensures
        decomposed(balance).worth() <= balance,
        balance < decomposed(balance).worth() + 10,
{
    let b = balance as int;
    assert(decomposed(balance).worth() == b - b % 10) by (nonlinear_arith)
        requires
            decomposed(balance).d10 == b % 100 / 10,
            decomposed(balance).d100 == b % 1_000 / 100,
            decomposed(balance).d1000 == b % 10_000 / 1_000,
            decomposed(balance).d10000 == b / 10_000,
            decomposed(balance).worth() == decomposed(balance).d10 * 10 + decomposed(balance).d100
                * 100 + decomposed(balance).d1000 * 1_000 + decomposed(balance).d10000 * 10_000,
            b >= 0,
    ;
}

/// An inventory carries no tickets exactly when it holds no units.
pub proof fn lemma_tickets_zero_iff_empty(inv: Inventory, tw: TicketWeights)
    requires
        tw.wf(),
    ensures
        inv.tickets(tw) >= 0,
        inv.tickets(tw) == 0 <==> inv.is_empty(),
{
    assert(inv.tickets(tw) >= 0 && (inv.tickets(tw) == 0 <==> inv.is_empty())) by (nonlinear_arith)
        requires
            tw.wf(),
            inv.tickets(tw) == inv.d10 * tw.d10 + inv.d100 * tw.d100 + inv.d1000 * tw.d1000
                + inv.d10000 * tw.d10000,
            inv.is_empty() == (inv.d10 == 0 && inv.d100 == 0 && inv.d1000 == 0 && inv.d10000
                == 0),
            inv.d10 >= 0, inv.d100 >= 0, inv.d1000 >= 0, inv.d10000 >= 0,
    ;
}

} // verus!
