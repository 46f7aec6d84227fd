use vstd::prelude::*;
use crate::amount::money_range;
use crate::denom::Denom;

verus! {

/// A wallet of coins, split into matured and maturing ones, with the
/// denomination strategy and threshold it was made with.
#[derive(Debug)]
pub struct Wallet {
    initial_state: bool,
    denom_strat: u64,
    denom_threshold: u64,
    total_stake_count: u64,
    conf_stake_count: u64,
    transaction_count: u64,
    mature: Vec<Denom>,
    immature: Vec<Denom>,
}

impl Wallet {
    pub closed spec fn spec_denom_strat(&self) -> u64 {
        self.denom_strat
    }

    pub closed spec fn spec_denom_threshold(&self) -> u64 {
        self.denom_threshold
    }

    /// Whether the wallet is still in its first pass.
    pub closed spec fn spec_initial_state(&self) -> bool {
        self.initial_state
    }

    /// The number of stakes, confirmed stakes and transactions.
    pub closed spec fn spec_counts(&self) -> (u64, u64, u64) {
        (self.total_stake_count, self.conf_stake_count, self.transaction_count)
    }

    pub closed spec fn spec_mature(&self) -> Seq<Denom> {
        self.mature@
    }

    pub closed spec fn spec_immature(&self) -> Seq<Denom> {
        self.immature@
    }

    /// A wallet for `balance` base units, which must be a valid amount, with
    /// no coins yet and its first pass done.
    pub fn init(balance: u64, denom_strat: u64, denom_threshold: u64) -> (r: Wallet)
        requires
            money_range(balance),
        ensures
            r.spec_denom_strat() == denom_strat,
            r.spec_denom_threshold() == denom_threshold,
            !r.spec_initial_state(),
            r.spec_counts() == (0u64, 0u64, 0u64),
            r.spec_mature().len() == 0,
            r.spec_immature().len() == 0,
    {
        let mut wallet = Wallet {
            initial_state: true,
            denom_strat,
            denom_threshold,
            total_stake_count: 0,
            conf_stake_count: 0,
            transaction_count: 0,
            mature: Vec::new(),
            immature: Vec::new(),
        };
        wallet.initial_state = false;
        wallet
    }

    /// The matured coins.
    pub fn mature(&self) -> (r: &Vec<Denom>)
        ensures
            r@ == self.spec_mature(),
    {
        &self.mature
    }

    /// The coins still maturing.
    pub fn immature(&self) -> (r: &Vec<Denom>)
        ensures
            r@ == self.spec_immature(),
    {
        &self.immature
    }
}

} // verus!
