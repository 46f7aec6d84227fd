//! A verified model of a proof-of-stake lottery: balances broken into
//! denomination units, a two-stage weighted draw of the block winner, and the
//! maturity queue that holds rewards and locked units until they may be
//! staked again.
pub mod amount;
pub mod denom;
pub mod inventory;
pub mod lottery;
pub mod network;
pub mod reward;
pub mod staker;
pub mod strategy;
pub mod tier;
pub mod wallet;
