use vstd::prelude::*;

verus! {

/// The largest amount of money, in whole units, that one account may hold.
pub const MAX_BALANCE: u64 = 300_000_000;

/// The largest ticket multiplier a tier may carry; it keeps every
/// ticket count of a valid inventory well inside `u64`.
pub const MAX_TICKET_MULTIPLIER: u64 = 1_000_000;

/// One of the four denomination tiers, lowest first.
#[derive(Clone, Copy, Debug, PartialEq, Eq, Structural)]
pub enum Tier {
    D10,
    D100,
    D1000,
    D10000,
}

impl Tier {
    pub open spec fn spec_face_value(self) -> u64 {
        match self {
            Tier::D10 => 10,
            Tier::D100 => 100,
            Tier::D1000 => 1_000,
            Tier::D10000 => 10_000,
        }
    }

    pub open spec fn spec_next(self) -> Tier {
        match self {
            Tier::D10 => Tier::D100,
            Tier::D100 => Tier::D1000,
            Tier::D1000 => Tier::D10000,
            Tier::D10000 => Tier::D10000,
        }
    }

    /// The tier above this one; the top tier is its own successor.
    #[verifier::when_used_as_spec(spec_next)]
    pub fn next(self) -> (r: Tier)
        ensures
            r == self.spec_next(),
    {
        match self {
            Tier::D10 => Tier::D100,
            Tier::D100 => Tier::D1000,
            Tier::D1000 => Tier::D10000,
            Tier::D10000 => Tier::D10000,
        }
    }

    /// The value of one unit of this tier.
    #[verifier::when_used_as_spec(spec_face_value)]
    pub fn face_value(self) -> (r: u64)
        ensures
            r == self.spec_face_value(),
    {
        match self {
            Tier::D10 => 10,
            Tier::D100 => 100,
            Tier::D1000 => 1_000,
            Tier::D10000 => 10_000,
        }
    }
}

/// The ticket multiplier of each tier: a unit of a tier counts for this many
/// lottery tickets, whatever its face value.
#[derive(Clone, Copy, Debug, PartialEq, Eq, Structural)]
pub struct TicketWeights {
    pub d10: u64,
    pub d100: u64,
    pub d1000: u64,
    pub d10000: u64,
}

impl TicketWeights {
    /// Every multiplier is positive and at most `MAX_TICKET_MULTIPLIER`.
    pub open spec fn wf(self) -> bool {
        &&& 1 <= self.d10 <= MAX_TICKET_MULTIPLIER
        &&& 1 <= self.d100 <= MAX_TICKET_MULTIPLIER
        &&& 1 <= self.d1000 <= MAX_TICKET_MULTIPLIER
        &&& 1 <= self.d10000 <= MAX_TICKET_MULTIPLIER
    }

    /// The standard multipliers 1 : 9.5 : 90 : 850, written in half tickets.
    pub fn standard() -> (r: TicketWeights)
        ensures
            r.wf(),
            r == (TicketWeights { d10: 2, d100: 19, d1000: 180, d10000: 1_700 }),
    {
        TicketWeights { d10: 2, d100: 19, d1000: 180, d10000: 1_700 }
    }

    pub open spec fn spec_multiplier(&self, t: Tier) -> u64 {
        match t {
            Tier::D10 => self.d10,
            Tier::D100 => self.d100,
            Tier::D1000 => self.d1000,
            Tier::D10000 => self.d10000,
        }
    }

    /// The multiplier of tier `t`.
    #[verifier::when_used_as_spec(spec_multiplier)]
    pub fn multiplier(&self, t: Tier) -> (r: u64)
        ensures
            r == self.spec_multiplier(t),
    {
        match t {
            Tier::D10 => self.d10,
            Tier::D100 => self.d100,
            Tier::D1000 => self.d1000,
            Tier::D10000 => self.d10000,
        }
    }
}

} // verus!
