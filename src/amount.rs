use vstd::prelude::*;

verus! {

/// The number of base units in one coin.
pub const COIN: u64 = 100_000_000;

/// The largest amount of base units that may exist.
pub const MAX_MONEY: u64 = 21_000_000 * COIN;

pub open spec fn spec_money_range(v: u64) -> bool {
    v <= MAX_MONEY
}

/// Whether `v` base units is a valid amount of money.
#[verifier::when_used_as_spec(spec_money_range)]
pub fn money_range(v: u64) -> (r: bool)
    ensures
        r == spec_money_range(v),
{
    v <= MAX_MONEY
}

} // verus!
