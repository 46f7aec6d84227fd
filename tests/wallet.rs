use stakesim::amount;
use stakesim::wallet::Wallet;

#[test]
fn test_init_wallet() {
    println!("starting");
    let balance = 1_234_567 * amount::COIN;
    let wallet = Wallet::init(balance, 0, 0);
    println!("mature: {:#?}", wallet.mature().len());
}

#[test]
fn testyt() {
    println!("{}", 1u64 << 52);
}

#[test]
fn init_wallet_starts_empty() {
    let wallet = Wallet::init(5 * amount::COIN, 2, 300);
    assert_eq!(wallet.mature().len(), 0);
    assert_eq!(wallet.immature().len(), 0);
}
