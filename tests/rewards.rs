use cryptonode::bandwidth::{BandwidthManager, MIB};
use cryptonode::types::{CurrencyType, UNITS_PER_COIN};
use cryptonode::wallet::WalletManager;
use cryptonode::CryptoNodeError;

fn setup() -> (BandwidthManager, WalletManager, u128) {
    let mut ledger = WalletManager::new();
    let w = ledger.create_wallet(CurrencyType::Bitcoin).unwrap();
    (BandwidthManager::new(), ledger, w.id)
}

#[test]
fn defaults() {
    let e = BandwidthManager::new();
    assert_eq!(e.reward_rate(), 100_000);
    assert_eq!(e.min_bandwidth(), 1_048_576);
    assert_eq!(e.measurement_interval(), 60);
    let m = e.get_metrics().unwrap();
    assert_eq!(m.total_bytes_shared, 0);
    assert_eq!(m.last_reward, None);
}

#[test]
fn two_mebibyte_tick() {
    let (mut e, mut ledger, id) = setup();
    assert!(e.process_tick(&mut ledger, id, 2_097_152));
    let balance = ledger.get_wallet(id).unwrap().balance;
    assert_eq!(balance, 200_000);
    assert!((balance as f64 / UNITS_PER_COIN as f64 - 0.0002).abs() < 1e-12);
    let m = e.get_metrics().unwrap();
    assert_eq!(m.total_bytes_shared, 2_097_152);
    assert_eq!(m.current_speed, 34_952);
    assert!((m.current_speed as f64 - 34_952.5).abs() < 1.0);
    assert_eq!(m.uptime, 60);
    assert!(m.last_reward.is_some());
}

#[test]
fn hourly_estimate_after_two_mebibyte_tick() {
    let (mut e, mut ledger, id) = setup();
    e.process_tick(&mut ledger, id, 2_097_152);
    let hourly = e.get_estimated_hourly_rewards().unwrap();
    assert_eq!(hourly, 12_000_000);
    assert!((hourly as f64 / UNITS_PER_COIN as f64 - 0.012).abs() < 1e-9);
}

#[test]
fn hourly_estimate_uses_unrounded_speed() {
    let mut e = BandwidthManager::with_settings(100_000, 1, 7).unwrap();
    let mut ledger = WalletManager::new();
    e.process_tick(&mut ledger, 1, 1_000_000);
    assert_eq!(e.get_metrics().unwrap().last_sample, 1_000_000);
    assert_eq!(e.get_metrics().unwrap().current_speed, 142_857);
    assert_eq!(e.get_estimated_hourly_rewards().unwrap(), 1_000_000u128 * 100_000 * 3600 / (7 * 1_048_576));
}

#[test]
fn steady_ticks_accumulate() {
    let (mut e, mut ledger, id) = setup();
    let min = e.min_bandwidth();
    for _ in 0..5 {
        assert!(e.process_tick(&mut ledger, id, min));
    }
    assert_eq!(e.get_metrics().unwrap().total_bytes_shared, 5 * min);
    assert_eq!(ledger.get_wallet(id).unwrap().balance, 5 * 100_000);
    assert_eq!(e.get_metrics().unwrap().uptime, 300);
}

#[test]
fn small_tick_earns_nothing() {
    let (mut e, mut ledger, id) = setup();
    assert!(!e.process_tick(&mut ledger, id, 1_048_575));
    let m = e.get_metrics().unwrap();
    assert_eq!(m.total_bytes_shared, 1_048_575);
    assert_eq!(m.uptime, 60);
    assert_eq!(m.last_reward, None);
    assert_eq!(ledger.get_wallet(id).unwrap().balance, 0);
}

#[test]
fn missing_wallet_skips_reward() {
    let (mut e, mut ledger, id) = setup();
    ledger.delete_wallet(id).unwrap();
    assert!(!e.process_tick(&mut ledger, id, 3 * MIB));
    let m = e.get_metrics().unwrap();
    assert_eq!(m.total_bytes_shared, 3 * MIB);
    assert_eq!(m.last_reward, None);
}

#[test]
fn reward_past_balance_range_is_skipped() {
    let (mut e, mut ledger, id) = setup();
    ledger.update_wallet_balance(id, i64::MAX - 10).unwrap();
    assert!(!e.process_tick(&mut ledger, id, 2 * MIB));
    assert_eq!(ledger.get_wallet(id).unwrap().balance, i64::MAX - 10);
}

#[test]
fn totals_saturate() {
    let (mut e, mut ledger, id) = setup();
    e.process_tick(&mut ledger, id, u64::MAX);
    e.process_tick(&mut ledger, id, 5);
    assert_eq!(e.get_metrics().unwrap().total_bytes_shared, u64::MAX);
}

#[test]
fn reward_rate_must_not_be_negative() {
    let mut e = BandwidthManager::new();
    assert!(matches!(e.update_reward_rate(-1), Err(CryptoNodeError::InvalidInput(_))));
    assert_eq!(e.reward_rate(), 100_000);
    assert!(e.update_reward_rate(0).is_ok());
    assert_eq!(e.reward_rate(), 0);
}

#[test]
fn min_bandwidth_must_not_be_zero() {
    let mut e = BandwidthManager::new();
    assert!(matches!(e.update_min_bandwidth(0), Err(CryptoNodeError::InvalidInput(_))));
    assert!(e.update_min_bandwidth(512).is_ok());
    assert_eq!(e.min_bandwidth(), 512);
}

#[test]
fn settings_are_checked() {
    assert!(matches!(BandwidthManager::with_settings(1, 0, 60), Err(CryptoNodeError::InvalidInput(_))));
    assert!(matches!(BandwidthManager::with_settings(1, 1, 0), Err(CryptoNodeError::InvalidInput(_))));
    let e = BandwidthManager::with_settings(7, 10, 30).unwrap();
    assert_eq!(e.reward_rate(), 7);
    assert_eq!(e.measurement_interval(), 30);
}

#[test]
fn total_rewards_use_current_rate() {
    let (mut e, mut ledger, id) = setup();
    e.process_tick(&mut ledger, id, 2 * MIB);
    assert_eq!(e.calculate_total_rewards().unwrap(), 200_000);
    e.update_reward_rate(300_000).unwrap();
    assert_eq!(e.calculate_total_rewards().unwrap(), 600_000);
    assert_eq!(ledger.get_wallet(id).unwrap().balance, 200_000);
}
