use vstd::prelude::*;
use crate::amount::money_range;

verus! {

/// The smallest coin value, in base units, that may be staked.
pub const DENOM_MIN: u64 = 0x1_0000_0000;

/// The lower bound of the last weight bracket.
pub const DENOM_MAX: u64 = 0x10_0000_0000_0000;

/// Each weight bracket is this many bits wider than the one below.
pub const DENOM_SHIFT: u64 = 2;

/// The lower and upper bounds of a wallet's denomination threshold.
pub const DENOM_THRESHOLD_MIN: u64 = 0;
pub const DENOM_THRESHOLD_MAX: u64 = 20_000;

/// The weight of a coin of value `v` found among the brackets from `bracket`
/// up: the first bracket `[bracket, 4 * bracket)` whose inside holds `v` gives
/// its lower bound plus one; a value on a bracket bound, or above the last
/// bracket, weighs nothing.
pub open spec fn bracket_weight(v: u64, bracket: int) -> int
    decreases 4 * DENOM_MAX - bracket,
{
    if bracket <= 0 || bracket > DENOM_MAX {
        0
    } else if v > bracket && v < 4 * bracket {
        bracket + 1
    } else {
        bracket_weight(v, 4 * bracket)
    }
}

/// The staking weight of a coin of value `v`.
pub open spec fn denom_weight(v: u64) -> int {
    if v > DENOM_MIN {
        bracket_weight(v, DENOM_MIN as int)
    } else {
        0
    }
}

/// Builds a `Denom` field by field.
#[derive(Clone, Copy, Debug, PartialEq, Eq, Structural)]
pub struct DenomBuilder {
    value: u64,
    is_stake: bool,
    is_mature: bool,
    created_height: u64,
    mature_height: u64,
}

/// A coin: its value in base units, whether it came from a stake, whether it
/// has matured, and the heights at which it was made and matures.
#[derive(Clone, Copy, Debug, PartialEq, Eq, Structural)]
pub struct Denom {
    value: u64,
    is_stake: bool,
    is_mature: bool,
    created_height: u64,
    mature_height: u64,
}

impl DenomBuilder {
    pub closed spec fn spec_value(&self) -> u64 {
        self.value
    }

    pub closed spec fn spec_is_stake(&self) -> bool {
        self.is_stake
    }

    pub closed spec fn spec_is_mature(&self) -> bool {
        self.is_mature
    }

    pub closed spec fn spec_created_height(&self) -> u64 {
        self.created_height
    }

    pub closed spec fn spec_mature_height(&self) -> u64 {
        self.mature_height
    }

    /// A builder for an immature, non-stake coin of value zero made at
    /// height zero.
    pub fn new() -> (r: DenomBuilder)
        ensures
            r.spec_value() == 0,
            !r.spec_is_stake(),
            !r.spec_is_mature(),
            r.spec_created_height() == 0,
            r.spec_mature_height() == 0,
    {
        DenomBuilder { value: 0, is_stake: false, is_mature: false, created_height: 0, mature_height: 0 }
    }

    /// Sets the value, which must be a valid amount of money.
    pub fn value(self, v: u64) -> (r: DenomBuilder)
        requires
            money_range(v),
        ensures
            r.spec_value() == v,
            r.spec_is_stake() == self.spec_is_stake(),
            r.spec_is_mature() == self.spec_is_mature(),
            r.spec_created_height() == self.spec_created_height(),
            r.spec_mature_height() == self.spec_mature_height(),
    {
        DenomBuilder { value: v, ..self }
    }

    pub fn stake(self, v: bool) -> (r: DenomBuilder)
        ensures
            r.spec_is_stake() == v,
            r.spec_value() == self.spec_value(),
            r.spec_is_mature() == self.spec_is_mature(),
            r.spec_created_height() == self.spec_created_height(),
            r.spec_mature_height() == self.spec_mature_height(),
    {
        DenomBuilder { is_stake: v, ..self }
    }

    pub fn mature(self, v: bool) -> (r: DenomBuilder)
        ensures
            r.spec_is_mature() == v,
            r.spec_value() == self.spec_value(),
            r.spec_is_stake() == self.spec_is_stake(),
            r.spec_created_height() == self.spec_created_height(),
            r.spec_mature_height() == self.spec_mature_height(),
    {
        DenomBuilder { is_mature: v, ..self }
    }

    pub fn created_height(self, v: u64) -> (r: DenomBuilder)
        ensures
            r.spec_created_height() == v,
            r.spec_value() == self.spec_value(),
            r.spec_is_stake() == self.spec_is_stake(),
            r.spec_is_mature() == self.spec_is_mature(),
            r.spec_mature_height() == self.spec_mature_height(),
    {
        DenomBuilder { created_height: v, ..self }
    }

    pub fn mature_height(self, v: u64) -> (r: DenomBuilder)
        ensures
            r.spec_mature_height() == v,
            r.spec_value() == self.spec_value(),
            r.spec_is_stake() == self.spec_is_stake(),
            r.spec_is_mature() == self.spec_is_mature(),
            r.spec_created_height() == self.spec_created_height(),
    {
        DenomBuilder { mature_height: v, ..self }
    }

    /// The coin with the fields set so far.
    pub fn build(self) -> (r: Denom)
        ensures
            r.spec_value() == self.spec_value(),
            r.spec_is_stake() == self.spec_is_stake(),
            r.spec_is_mature() == self.spec_is_mature(),
            r.spec_created_height() == self.spec_created_height(),
            r.spec_mature_height() == self.spec_mature_height(),
    {
        Denom {
            value: self.value,
            is_stake: self.is_stake,
            is_mature: self.is_mature,
            created_height: self.created_height,
            mature_height: self.mature_height,
        }
    }
}

impl Denom {
    pub closed spec fn spec_value(&self) -> u64 {
        self.value
    }

    pub closed spec fn spec_is_stake(&self) -> bool {
        self.is_stake
    }

    pub closed spec fn spec_is_mature(&self) -> bool {
        self.is_mature
    }

    pub closed spec fn spec_created_height(&self) -> u64 {
        self.created_height
    }

    pub closed spec fn spec_mature_height(&self) -> u64 {
        self.mature_height
    }

    /// A coin of `sat_value` base units, which must be a valid amount.
    pub fn new(
        sat_value: u64,
        is_stake: bool,
        is_mature: bool,
        created_height: u64,
        mature_height: u64,
    ) -> (r: Denom)
        requires
            money_range(sat_value),
        ensures
            r.spec_value() == sat_value,
            r.spec_is_stake() == is_stake,
            r.spec_is_mature() == is_mature,
            r.spec_created_height() == created_height,
            r.spec_mature_height() == mature_height,
    {
        Denom { value: sat_value, is_stake, is_mature, created_height, mature_height }
    }

    /// A builder with the defaults of `DenomBuilder::new`.
    pub fn builder() -> (r: DenomBuilder)
        ensures
            r.spec_value() == 0,
            !r.spec_is_stake(),
            !r.spec_is_mature(),
            r.spec_created_height() == 0,
            r.spec_mature_height() == 0,
    {
        DenomBuilder::new()
    }

    pub fn set_mature(&mut self, is_mature: bool)
        ensures
            final(self).spec_is_mature() == is_mature,
            final(self).spec_value() == old(self).spec_value(),
            final(self).spec_is_stake() == old(self).spec_is_stake(),
            final(self).spec_created_height() == old(self).spec_created_height(),
            final(self).spec_mature_height() == old(self).spec_mature_height(),
    {
        self.is_mature = is_mature;
    }

    pub fn value(&self) -> (r: u64)
        ensures
            r == self.spec_value(),
    {
        self.value
    }

    pub fn is_stake(&self) -> (r: bool)
        ensures
            r == self.spec_is_stake(),
    {
        self.is_stake
    }

    pub fn is_mature(&self) -> (r: bool)
        ensures
            r == self.spec_is_mature(),
    {
        self.is_mature
    }

    pub fn created_height(&self) -> (r: u64)
        ensures
            r == self.spec_created_height(),
    {
        self.created_height
    }

    pub fn mature_height(&self) -> (r: u64)
        ensures
            r == self.spec_mature_height(),
    {
        self.mature_height
    }

    /// The staking weight: the lower bound plus one of the bracket
    /// `(DENOM_MIN * 4^k, DENOM_MIN * 4^(k+1))` whose inside holds the value,
    /// for the brackets up to `DENOM_MAX`; zero otherwise.
    pub fn weight(&self) -> (r: u64)
        ensures
            r == denom_weight(self.spec_value()),
    {
        let mut bracket: u64 = DENOM_MIN;
        let mut weight: u64 = 0;
        if self.value > DENOM_MIN {
            while bracket <= DENOM_MAX
                invariant_except_break
                    weight == 0,
                    bracket_weight(self.value, bracket as int) == denom_weight(self.value),
                invariant
                    self.value > DENOM_MIN,
                    DENOM_MIN <= bracket <= 4 * DENOM_MAX,
                ensures
                    weight == denom_weight(self.value),
                decreases 4 * DENOM_MAX - bracket,
            {
                let upper = bracket << DENOM_SHIFT;
                assert(upper == 4 * bracket) by (bit_vector)
                    requires
                        upper == bracket << 2u64,
                        bracket <= 0x10_0000_0000_0000u64,
                ;
                if self.value > bracket && self.value < upper {
                    weight = bracket + 1;
                    break;
                }
                bracket = upper;
            }
        }
        weight
    }

    /// Whether the coin is large enough to stake.
    pub fn can_stake(&self) -> (r: bool)
        ensures
            r == (self.spec_value() >= DENOM_MIN),
    {
        self.value >= DENOM_MIN
    }
}

} // verus!
