use stakesim::amount;
use stakesim::denom::{Denom, DENOM_MIN};

#[test]
fn test_denom_no_weight() {
    let denom = Denom::builder().value(DENOM_MIN).build();
    assert_eq!(denom.weight(), 0);
}

#[test]
fn test_denom_min_weight() {
    let denom = Denom::builder().value(DENOM_MIN + 1).build();
    assert_eq!(denom.weight(), 4_294_967_297);
}

#[test]
fn test_denom_next_weight() {
    let shift: u64 = 1u64 << 34;
    let denom = Denom::builder().value(shift + 1).build();
    assert_eq!(denom.weight(), 17_179_869_185);
}

#[test]
fn printy() {
    let mut max = 2u64 << 34;
    println!("max: {}", max);
    max <<= 2;
    println!("max: {}", max);
}

#[test]
fn denom_weight_on_bracket_bound_is_zero() {
    let denom = Denom::new(1u64 << 34, false, false, 0, 0);
    assert_eq!(denom.weight(), 0);
    let denom = Denom::new((1u64 << 34) - 1, false, false, 0, 0);
    assert_eq!(denom.weight(), (1u64 << 32) + 1);
}

#[test]
fn denom_weight_of_largest_bracket() {
    let denom = Denom::new((1u64 << 52) + 5, true, true, 1, 2);
    assert_eq!(denom.weight(), (1u64 << 52) + 1);
    assert!(denom.can_stake());
    assert!(denom.is_stake());
    assert!(denom.is_mature());
    assert_eq!(denom.created_height(), 1);
    assert_eq!(denom.mature_height(), 2);
}

#[test]
fn denom_builder_sets_fields() {
    let mut d = Denom::builder()
        .value(amount::COIN)
        .stake(true)
        .mature(false)
        .created_height(7)
        .mature_height(37)
        .build();
    assert_eq!(d.value(), 100_000_000);
    assert!(d.is_stake());
    assert!(!d.is_mature());
    assert_eq!(d.created_height(), 7);
    assert_eq!(d.mature_height(), 37);
    assert!(!d.can_stake());
    d.set_mature(true);
    assert!(d.is_mature());
}

#[test]
fn money_range_bounds() {
    assert!(amount::money_range(amount::MAX_MONEY));
    assert!(!amount::money_range(amount::MAX_MONEY + 1));
}
