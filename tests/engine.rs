use rand::rngs::StdRng;
use rand::SeedableRng;
use stakesim::inventory::Inventory;
use stakesim::lottery::select;
use stakesim::network::{allot, Network, Win, GENESIS_HEIGHT, GENESIS_SUPPLY};
use stakesim::reward::{
    block_reward, supply_increment, PendingReward, REWARD_REDUCTION_BLOCK, SUPPLY_GROWTH_START,
};
use stakesim::staker::{ConfigError, StakeOutcome, Staker};
use stakesim::strategy::Strategy;
use stakesim::tier::{TicketWeights, Tier, MAX_BALANCE};

fn inv(d10: u64, d100: u64, d1000: u64, d10000: u64) -> Inventory {
    Inventory { d10, d100, d1000, d10000 }
}

#[test]
fn decompose_fills_largest_tier_first() {
    assert_eq!(Inventory::decompose(12_345), inv(4, 3, 2, 1));
    assert_eq!(Inventory::decompose(1_000), inv(0, 0, 1, 0));
    assert_eq!(Inventory::decompose(0), inv(0, 0, 0, 0));
}

#[test]
fn decompose_truncates_below_smallest_face_value() {
    for b in [0u64, 9, 10, 19, 999, 12_345, 99_999, MAX_BALANCE] {
        let i = Inventory::decompose(b);
        assert!(i.value() <= b);
        assert!(b - i.value() < 10);
    }
    assert_eq!(Inventory::decompose(9).count(), 0);
}

#[test]
fn total_weight_is_zero_only_when_empty() {
    let tw = TicketWeights::standard();
    assert_eq!(inv(0, 0, 0, 0).total_weight(&tw), 0);
    assert_eq!(inv(1, 0, 0, 0).total_weight(&tw), 2);
    assert_eq!(inv(4, 3, 2, 1).total_weight(&tw), 8 + 57 + 360 + 1_700);
    assert_eq!(inv(4, 3, 2, 1).weight(Tier::D100, &tw), 57);
}

#[test]
fn select_picks_the_interval_holding_the_draw() {
    let w: Vec<u64> = vec![3, 0, 5];
    assert_eq!(select(&w, 0), Some(0));
    assert_eq!(select(&w, 2), Some(0));
    assert_eq!(select(&w, 3), Some(2));
    assert_eq!(select(&w, 7), Some(2));
    assert_eq!(select(&w, 8), None);
    assert_eq!(select(&Vec::new(), 0), None);
}

#[test]
fn select_edge_draws_hit_first_and_last_candidate() {
    let w: Vec<u64> = vec![u64::MAX, u64::MAX, 1];
    let total: u128 = 2 * (u64::MAX as u128) + 1;
    assert_eq!(select(&w, 0), Some(0));
    assert_eq!(select(&w, total - 1), Some(2));
    assert_eq!(select(&w, total), None);
}

#[test]
fn flatten_to_ratio_cascades() {
    let mut i = inv(25, 1, 0, 0);
    let locks = i.consolidate(Strategy::FlattenToRatio, 0, false, 10);
    assert_eq!(i, inv(5, 3, 0, 0));
    assert!(locks.is_empty());
}

#[test]
fn collapse_up_promotes_once_per_pair() {
    let mut i = inv(25, 10, 10, 0);
    let locks = i.consolidate(Strategy::CollapseUp, 0, false, 10);
    assert_eq!(i, inv(15, 1, 1, 1));
    assert!(locks.is_empty());
}

#[test]
fn collapse_down_breaks_everything_to_tens() {
    let mut i = inv(1, 1, 1, 1);
    i.consolidate(Strategy::CollapseDown, 0, false, 10);
    assert_eq!(i, inv(1_111, 0, 0, 0));
}

#[test]
fn single_tier_bias_toward_thousands() {
    let mut i = inv(12, 30, 2, 0);
    let locks = i.consolidate(Strategy::SingleTierBias(Tier::D1000), 0, false, 10);
    assert_eq!(i, inv(2, 1, 5, 0));
    assert!(locks.is_empty());
}

#[test]
fn threshold_bounded_locks_batches() {
    let mut i = inv(35, 0, 0, 0);
    let locks = i.consolidate(Strategy::ThresholdBounded, 5, false, 10);
    assert_eq!(i, inv(5, 0, 0, 0));
    assert_eq!(locks.len(), 3);
    for l in locks.iter() {
        assert_eq!(*l, PendingReward::lock(100, 10));
        assert_eq!(l.maturity_height, 1_010);
        assert!(!l.is_stake);
    }
}

#[test]
fn threshold_bounded_first_pass_promotes_in_place() {
    let s = Staker::new(1_000, 3, Strategy::ThresholdBounded, 50, GENESIS_SUPPLY).unwrap();
    assert_eq!(s.inventory, inv(40, 6, 0, 0));
    assert!(s.queue.is_empty());
    assert_eq!(s.id, 3);
    assert_eq!(s.balance_spendable, 1_000);
}

#[test]
fn consolidating_a_settled_inventory_changes_nothing() {
    let mut i = inv(5, 3, 0, 0);
    assert!(i.consolidate(Strategy::FlattenToRatio, 0, false, 10).is_empty());
    assert_eq!(i, inv(5, 3, 0, 0));
    let mut j = inv(10, 10, 10, 10);
    assert!(j.consolidate(Strategy::ThresholdBounded, 0, false, 10).is_empty());
    assert_eq!(j, inv(10, 10, 10, 10));
    let mut k = inv(9, 9, 9, 3);
    assert!(k.consolidate(Strategy::CollapseUp, 0, false, 10).is_empty());
    assert_eq!(k, inv(9, 9, 9, 3));
}

#[test]
fn maturation_releases_one_entry_per_call() {
    let mut s = Staker::new(1_000, 0, Strategy::Hold, 10_000, GENESIS_SUPPLY).unwrap();
    assert_eq!(s.issue_reward(100), Ok(50));
    assert_eq!(s.issue_reward(101), Ok(50));
    assert!(s.are_stakes_maturing());
    let first = s.mature_balances(200).unwrap();
    assert_eq!(first.created_height, 100);
    assert_eq!(s.queue.len(), 1);
    assert_eq!(s.conf_stake_count, 1);
    assert_eq!(s.immature_stake_count, 1);
    let second = s.mature_balances(200).unwrap();
    assert_eq!(second.created_height, 101);
    assert!(s.queue.is_empty());
    assert_eq!(s.mature_balances(200), None);
    assert_eq!(s.conf_stake_count, 2);
    assert_eq!(s.immature_stake_count, 0);
    assert_eq!(s.inventory, inv(10, 0, 1, 0));
    assert_eq!(s.balance_immature, 0);
}

#[test]
fn maturation_waits_for_maturity_height() {
    let mut s = Staker::new(1_000, 0, Strategy::Hold, 10_000, GENESIS_SUPPLY).unwrap();
    s.issue_reward(100).unwrap();
    assert_eq!(s.mature_balances(129), None);
    assert_eq!(s.queue.len(), 1);
    assert!(s.mature_balances(130).is_some());
}

#[test]
fn sole_staker_scenario() {
    for seed in 0..20u64 {
        let mut rng = StdRng::seed_from_u64(seed);
        let mut net = Network::new();
        assert_eq!(net.add_staker(1_000, Strategy::FlattenToRatio, 10_000), Ok(0));
        assert_eq!(net.stakers[0].inventory, inv(0, 0, 1, 0));
        let r = net.stake(&mut rng);
        assert_eq!(
            r,
            Ok(Some(Win {
                staker: 0,
                outcome: StakeOutcome::Rewarded { reward: 50, locked: Some(Tier::D1000) },
            }))
        );
        assert_eq!(net.stakers[0].immature_stake_count, 1);
        assert_eq!(net.stakers[0].conf_stake_count, 0);
        for _ in 0..30 {
            net.advance();
        }
        assert_eq!(net.block_height, GENESIS_HEIGHT + 30);
        let released = net.stakers[0].mature_balances(net.block_height).unwrap();
        assert!(released.is_stake);
        assert_eq!(net.stakers[0].conf_stake_count, 1);
        assert_eq!(net.stakers[0].immature_stake_count, 0);
        assert_eq!(net.stakers[0].inventory, inv(5, 0, 0, 0));
    }
}

#[test]
fn network_without_tickets_has_no_winner() {
    let mut rng = StdRng::seed_from_u64(1);
    let mut net = Network::new();
    net.add_staker(5, Strategy::Hold, 0).unwrap();
    assert_eq!(net.stake(&mut rng), Ok(None));
    let empty = Network::new();
    assert!(empty.stakers.is_empty());
}

#[test]
fn network_step_moves_height_and_supply() {
    let mut rng = StdRng::seed_from_u64(2);
    let mut net = Network::new();
    net.add_staker(5_000, Strategy::FlattenToRatio, 10_000).unwrap();
    net.add_staker(20_000, Strategy::CollapseUp, 10_000).unwrap();
    let r = net.step(&mut rng).unwrap();
    assert!(r.is_some());
    assert_eq!(net.block_height, GENESIS_HEIGHT + 1);
    assert_eq!(net.total_supply, GENESIS_SUPPLY + 50);
    net.update_stakers();
    assert_eq!(net.stakers[1].current_supply, GENESIS_SUPPLY + 50);
}

#[test]
fn supply_increment_steps_down_at_each_reduction() {
    let r = REWARD_REDUCTION_BLOCK;
    assert_eq!(supply_increment(SUPPLY_GROWTH_START - 1), 0);
    assert_eq!(supply_increment(SUPPLY_GROWTH_START), 50);
    assert_eq!(supply_increment(r - 1), 50);
    assert_eq!(supply_increment(r), 40);
    assert_eq!(supply_increment(2 * r), 30);
    assert_eq!(supply_increment(3 * r), 20);
    assert_eq!(supply_increment(4 * r), 10);
    assert_eq!(supply_increment(10 * r), 10);
    assert_eq!(block_reward(0), 50);
    assert_eq!(block_reward(4 * r - 1), 20);
}

#[test]
fn supply_growth_scenario() {
    let s: u64 = 1_000_000;
    let mut prev = 51;
    for k in 0..5u64 {
        let mut net = Network::new();
        net.total_supply = s;
        net.block_height = k * REWARD_REDUCTION_BLOCK + SUPPLY_GROWTH_START;
        net.update_total_supply();
        let inc = net.total_supply - s;
        assert!(inc < prev);
        assert!(inc > 0);
        prev = inc;
    }
    assert_eq!(prev, 10);
}

#[test]
fn out_of_range_balance_is_refused() {
    assert_eq!(
        Staker::new(MAX_BALANCE + 1, 0, Strategy::Hold, 0, GENESIS_SUPPLY).unwrap_err(),
        ConfigError::BalanceOutOfRange
    );
    let mut net = Network::new();
    assert_eq!(
        net.add_staker(MAX_BALANCE + 1, Strategy::Hold, 0),
        Err(ConfigError::BalanceOutOfRange)
    );
    assert!(net.stakers.is_empty());
}

#[test]
fn out_of_range_reward_is_refused() {
    let mut s = Staker::new(MAX_BALANCE, 0, Strategy::Hold, u64::MAX, GENESIS_SUPPLY).unwrap();
    assert_eq!(s.issue_reward(0), Err(ConfigError::RewardOutOfRange));
    assert!(s.queue.is_empty());
    let mut rng = StdRng::seed_from_u64(3);
    let tw = TicketWeights::standard();
    assert_eq!(s.hit_stake(0, &tw, &mut rng), Err(ConfigError::RewardOutOfRange));
    assert_eq!(s.balance_spendable, MAX_BALANCE);
}

#[test]
fn orphan_check_only_above_threshold() {
    let s = Staker::new(1_000, 0, Strategy::CollapseDown, 0, GENESIS_SUPPLY).unwrap();
    assert_eq!(s.inventory, inv(100, 0, 0, 0));
    assert!(!s.is_orphaned(0));
    assert!(s.is_orphaned(1));
    let t = Staker::new(1_000, 0, Strategy::CollapseDown, 100, GENESIS_SUPPLY).unwrap();
    assert!(!t.is_orphaned(99));
    let mut u = Staker::new(1_000, 0, Strategy::Hold, 0, GENESIS_SUPPLY).unwrap();
    u.record_orphan();
    assert_eq!(u.orphaned_count, 1);
}

#[test]
fn lock_denom_draws_by_tier_tickets() {
    let tw = TicketWeights::standard();
    let cases: [(u128, Tier); 6] = [
        (0, Tier::D10),
        (8, Tier::D100),
        (64, Tier::D100),
        (65, Tier::D1000),
        (425, Tier::D10000),
        (2_124, Tier::D10000),
    ];
    for (draw, tier) in cases {
        let mut s = Staker::new(12_340, 0, Strategy::Hold, 10_000, GENESIS_SUPPLY).unwrap();
        assert_eq!(s.inventory, inv(4, 3, 2, 1));
        assert_eq!(s.lock_denom(500, &tw, draw), tier);
        assert_eq!(s.inventory.get(tier) + 1, inv(4, 3, 2, 1).get(tier));
        assert_eq!(s.queue[0], PendingReward::lock(tier.face_value(), 500));
        assert_eq!(s.balance_immature, tier.face_value());
    }
}

#[test]
fn hit_stake_locks_the_only_tier_held() {
    let tw = TicketWeights::standard();
    for seed in 0..10u64 {
        let mut rng = StdRng::seed_from_u64(seed);
        let mut s = Staker::new(1_000, 0, Strategy::Hold, 10_000, GENESIS_SUPPLY).unwrap();
        let r = s.hit_stake(700_000, &tw, &mut rng);
        assert_eq!(r, Ok(StakeOutcome::Rewarded { reward: 40, locked: Some(Tier::D1000) }));
        assert_eq!(s.queue[0], PendingReward::stake(40, 700_000));
        assert_eq!(s.queue[1], PendingReward::lock(1_000, 700_000));
        assert_eq!(s.balance_spendable, 1_040);
        assert_eq!(s.total_stake_count, 1);
    }
}

#[test]
fn strategy_indices() {
    assert_eq!(Strategy::from_index(0), Strategy::Hold);
    assert_eq!(Strategy::from_index(1), Strategy::SingleTierBias(Tier::D10000));
    assert_eq!(Strategy::from_index(2), Strategy::FlattenToRatio);
    assert_eq!(Strategy::from_index(3), Strategy::CollapseUp);
    assert_eq!(Strategy::from_index(4), Strategy::SingleTierBias(Tier::D100));
    assert_eq!(Strategy::from_index(5), Strategy::SingleTierBias(Tier::D1000));
    assert_eq!(Strategy::from_index(6), Strategy::ThresholdBounded);
    assert_eq!(Strategy::from_index(7), Strategy::Hold);
    let mut rng = StdRng::seed_from_u64(4);
    for _ in 0..20 {
        let _ = Strategy::draw(&mut rng);
    }
}

#[test]
fn allot_caps_at_what_remains() {
    assert_eq!(allot(100, 30), (30, 70));
    assert_eq!(allot(100, 130), (100, 0));
    assert_eq!(allot(0, 5), (0, 0));
}

#[test]
fn stake_probability_is_tickets_over_a_tenth_of_supply() {
    let tw = TicketWeights::standard();
    let s = Staker::new(1_000, 0, Strategy::Hold, 0, GENESIS_SUPPLY).unwrap();
    assert_eq!(s.stake_probability(&tw, 12_960_000), (180, 1_296_000));
}

#[test]
fn every_draw_below_the_total_selects_exactly_one() {
    let vectors: Vec<Vec<u64>> = vec![
        vec![1],
        vec![0, 4],
        vec![2, 0, 0, 3, 1],
        vec![5, 5, 5],
        vec![0, 0, 7, 0],
    ];
    for w in vectors.iter() {
        let total: u64 = w.iter().sum();
        for d in 0..total {
            let mut holders = 0;
            let mut start = 0u64;
            for (i, x) in w.iter().enumerate() {
                if start <= d && d < start + x {
                    holders += 1;
                    assert_eq!(select(w, d as u128), Some(i));
                }
                start += x;
            }
            assert_eq!(holders, 1);
        }
        assert_eq!(select(w, total as u128), None);
    }
}

#[test]
fn network_refuses_a_reward_only_past_the_money_range() {
    let mut rng = StdRng::seed_from_u64(5);
    let mut net = Network::new();
    net.add_staker(MAX_BALANCE, Strategy::Hold, u64::MAX).unwrap();
    assert_eq!(net.stake(&mut rng), Err(ConfigError::RewardOutOfRange));
    assert_eq!(net.stakers[0].balance_spendable, MAX_BALANCE);
    assert!(net.stakers[0].queue.is_empty());
}

#[test]
fn one_unit_account_is_never_orphaned() {
    let tw = TicketWeights::standard();
    for seed in 0..20u64 {
        let mut rng = StdRng::seed_from_u64(seed);
        let mut s = Staker::new(1_000, 0, Strategy::Hold, 0, GENESIS_SUPPLY).unwrap();
        let r = s.hit_stake(100, &tw, &mut rng);
        assert_eq!(r, Ok(StakeOutcome::Rewarded { reward: 50, locked: Some(Tier::D1000) }));
        assert_eq!(s.orphaned_count, 0);
    }
}

#[test]
fn added_staker_starts_fresh() {
    let mut net = Network::new();
    assert_eq!(net.add_staker(12_345, Strategy::CollapseUp, 7), Ok(0));
    assert_eq!(net.add_staker(40, Strategy::Hold, 7), Ok(1));
    let s = &net.stakers[0];
    assert_eq!(s.inventory, inv(4, 3, 2, 1));
    assert!(s.queue.is_empty());
    assert_eq!(s.start_balance, 12_345);
    assert_eq!(s.start_supply, GENESIS_SUPPLY);
    assert_eq!(s.current_supply, GENESIS_SUPPLY);
    assert_eq!(s.orphaned_count, 0);
    assert_eq!(s.total_stake_count, 0);
    assert_eq!(s.balance_immature, 0);
    assert_eq!(net.stakers[1].id, 1);
}
