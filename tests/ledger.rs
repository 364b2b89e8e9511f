use cryptonode::types::{CurrencyType, TransactionStatus, Wallet, UNITS_PER_COIN};
use cryptonode::wallet::{WalletManager, TRANSACTION_FEE};
use cryptonode::CryptoNodeError;

fn funded(m: &mut WalletManager, balance: i64) -> Wallet {
    let w = m.create_wallet(CurrencyType::Bitcoin).unwrap();
    m.update_wallet_balance(w.id, balance).unwrap()
}

#[test]
fn new_wallet_starts_empty_with_hex_address() {
    let mut m = WalletManager::new();
    let w = m.create_wallet(CurrencyType::Ethereum).unwrap();
    assert_eq!(w.balance, 0);
    assert_eq!(w.currency_type, CurrencyType::Ethereum);
    assert_eq!(w.public_key.len(), 32);
    assert_eq!(w.private_key.len(), 32);
    assert_eq!(w.address, hex::encode(&w.public_key));
    assert_eq!(w.created_at, w.last_updated);
    let stored = m.get_wallet(w.id).unwrap();
    assert_eq!(stored.address, w.address);
    assert_eq!(stored.balance, 0);
}

#[test]
fn wallets_get_distinct_addresses() {
    let mut m = WalletManager::new();
    let a = m.create_wallet(CurrencyType::Bitcoin).unwrap();
    let b = m.create_wallet(CurrencyType::Bitcoin).unwrap();
    assert_ne!(a.id, b.id);
    assert_ne!(a.address, b.address);
    assert_eq!(m.list_wallets().unwrap().len(), 2);
}

#[test]
fn unknown_wallet_is_not_found() {
    let m = WalletManager::new();
    assert!(matches!(m.get_wallet(42), Err(CryptoNodeError::NotFound(_))));
}

#[test]
fn transaction_rejects_non_positive_amount() {
    let mut m = WalletManager::new();
    let w = funded(&mut m, 5 * UNITS_PER_COIN);
    assert!(matches!(m.create_transaction(&w, "dest".to_string(), 0), Err(CryptoNodeError::InvalidInput(_))));
    assert!(matches!(m.create_transaction(&w, "dest".to_string(), -3), Err(CryptoNodeError::InvalidInput(_))));
    assert_eq!(m.get_transaction_history(&w.address).unwrap().len(), 0);
}

#[test]
fn transaction_rejects_amount_above_balance() {
    let mut m = WalletManager::new();
    let w = funded(&mut m, 5 * UNITS_PER_COIN);
    let r = m.create_transaction(&w, "dest".to_string(), 5 * UNITS_PER_COIN + 1);
    assert!(matches!(r, Err(CryptoNodeError::InvalidInput(_))));
    assert_eq!(m.get_wallet(w.id).unwrap().balance, 5 * UNITS_PER_COIN);
}

#[test]
fn transaction_is_pending_and_reserves_nothing() {
    let mut m = WalletManager::new();
    let w = funded(&mut m, 5 * UNITS_PER_COIN);
    let t = m.create_transaction(&w, "dest".to_string(), 5 * UNITS_PER_COIN).unwrap();
    assert_eq!(t.status, TransactionStatus::Pending);
    assert_eq!(t.fee, Some(TRANSACTION_FEE));
    assert_eq!(t.from_wallet, w.address);
    assert_eq!(t.to_wallet, "dest");
    assert_eq!(t.amount, 5 * UNITS_PER_COIN);
    assert_eq!(m.get_wallet(w.id).unwrap().balance, 5 * UNITS_PER_COIN);
}

#[test]
fn confirming_debits_amount_and_fee() {
    let mut m = WalletManager::new();
    let w = funded(&mut m, 10 * UNITS_PER_COIN);
    let other = funded(&mut m, 7);
    let t = m.create_transaction(&w, other.address.clone(), UNITS_PER_COIN).unwrap();
    let c = m.update_transaction_status(t.id, TransactionStatus::Confirmed).unwrap();
    assert_eq!(c.status, TransactionStatus::Confirmed);
    assert_eq!(m.get_wallet(w.id).unwrap().balance, 9 * UNITS_PER_COIN - 1_000_000);
    assert_eq!(m.get_wallet(other.id).unwrap().balance, 7);
}

#[test]
fn confirming_twice_debits_twice() {
    let mut m = WalletManager::new();
    let w = funded(&mut m, 10 * UNITS_PER_COIN);
    let t = m.create_transaction(&w, "dest".to_string(), UNITS_PER_COIN).unwrap();
    m.update_transaction_status(t.id, TransactionStatus::Confirmed).unwrap();
    m.update_transaction_status(t.id, TransactionStatus::Confirmed).unwrap();
    assert_eq!(m.get_wallet(w.id).unwrap().balance, 8 * UNITS_PER_COIN - 2 * TRANSACTION_FEE);
}

#[test]
fn failing_leaves_balances() {
    let mut m = WalletManager::new();
    let w = funded(&mut m, 10 * UNITS_PER_COIN);
    let t = m.create_transaction(&w, "dest".to_string(), UNITS_PER_COIN).unwrap();
    let f = m.update_transaction_status(t.id, TransactionStatus::Failed).unwrap();
    assert_eq!(f.status, TransactionStatus::Failed);
    assert_eq!(m.get_wallet(w.id).unwrap().balance, 10 * UNITS_PER_COIN);
    assert_eq!(m.get_transaction_history(&w.address).unwrap()[0].status, TransactionStatus::Failed);
}

#[test]
fn unknown_transaction_is_not_found() {
    let mut m = WalletManager::new();
    let r = m.update_transaction_status(7, TransactionStatus::Confirmed);
    assert!(matches!(r, Err(CryptoNodeError::NotFound(_))));
}

#[test]
fn confirming_past_the_balance_range_changes_nothing() {
    let mut m = WalletManager::new();
    let w = funded(&mut m, 10 * UNITS_PER_COIN);
    let t = m.create_transaction(&w, "dest".to_string(), 10 * UNITS_PER_COIN).unwrap();
    m.update_wallet_balance(w.id, i64::MIN + 5).unwrap();
    let r = m.update_transaction_status(t.id, TransactionStatus::Confirmed);
    assert!(matches!(r, Err(CryptoNodeError::Unknown(_))));
    assert_eq!(m.get_wallet(w.id).unwrap().balance, i64::MIN + 5);
    assert_eq!(m.get_transaction_history("dest").unwrap()[0].status, TransactionStatus::Pending);
}

#[test]
fn history_lists_sent_and_received_in_order() {
    let mut m = WalletManager::new();
    let a = funded(&mut m, 10 * UNITS_PER_COIN);
    let b = funded(&mut m, 10 * UNITS_PER_COIN);
    let t1 = m.create_transaction(&a, b.address.clone(), 1).unwrap();
    let _t2 = m.create_transaction(&b, "elsewhere".to_string(), 2).unwrap();
    let t3 = m.create_transaction(&b, a.address.clone(), 3).unwrap();
    let h = m.get_transaction_history(&a.address).unwrap();
    assert_eq!(h.len(), 2);
    assert_eq!(h[0].id, t1.id);
    assert_eq!(h[1].id, t3.id);
    assert_eq!(m.get_transaction_history(&b.address).unwrap().len(), 3);
    assert_eq!(m.get_transaction_history("nobody").unwrap().len(), 0);
}

#[test]
fn balance_update_accepts_any_value() {
    let mut m = WalletManager::new();
    let w = m.create_wallet(CurrencyType::Bitcoin).unwrap();
    let u = m.update_wallet_balance(w.id, -25).unwrap();
    assert_eq!(u.balance, -25);
    assert_eq!(u.address, w.address);
    assert!(matches!(m.update_wallet_balance(w.id + 1, 3), Err(CryptoNodeError::NotFound(_))));
}

#[test]
fn deleting_keeps_history() {
    let mut m = WalletManager::new();
    let w = funded(&mut m, 10);
    m.create_transaction(&w, "dest".to_string(), 4).unwrap();
    m.delete_wallet(w.id).unwrap();
    assert!(matches!(m.get_wallet(w.id), Err(CryptoNodeError::NotFound(_))));
    assert!(matches!(m.delete_wallet(w.id), Err(CryptoNodeError::NotFound(_))));
    assert_eq!(m.get_transaction_history(&w.address).unwrap().len(), 1);
    assert_eq!(m.list_wallets().unwrap().len(), 0);
}

#[test]
fn wallet_from_known_secret() {
    let mut m = WalletManager::new();
    let secret = hex::decode("9d61b19deffd5a60ba844af492ec2cc44449c5697b326919703bac031cae7f60").unwrap();
    let w = m.create_wallet_from_secret(secret.clone(), 77, CurrencyType::Bitcoin).unwrap();
    assert_eq!(w.id, 77);
    assert_eq!(w.balance, 0);
    assert_eq!(w.private_key, secret);
    assert_eq!(w.address, "d75a980182b10ab7d54bfed3c964073a0ee172f3daa62325af021a68f707511a");
    assert_eq!(m.get_wallet(77).unwrap().address, w.address);
}

#[test]
fn wallet_id_must_be_unused() {
    let mut m = WalletManager::new();
    m.create_wallet_from_secret(vec![7u8; 32], 5, CurrencyType::Bitcoin).unwrap();
    let r = m.create_wallet_from_secret(vec![8u8; 32], 5, CurrencyType::Ethereum);
    assert!(matches!(r, Err(CryptoNodeError::InvalidInput(_))));
    assert_eq!(m.list_wallets().unwrap().len(), 1);
    assert_eq!(m.get_wallet(5).unwrap().currency_type, CurrencyType::Bitcoin);
}

#[test]
fn wallet_secret_must_be_thirty_two_bytes() {
    let mut m = WalletManager::new();
    let r = m.create_wallet_from_secret(vec![7u8; 31], 5, CurrencyType::Bitcoin);
    assert!(matches!(r, Err(CryptoNodeError::CryptoOperation(_))));
    assert_eq!(m.list_wallets().unwrap().len(), 0);
}

#[test]
fn transaction_id_must_be_unused() {
    let mut m = WalletManager::new();
    let w = funded(&mut m, 100);
    let t = m.record_transaction(&w, "dest".to_string(), 10, 9).unwrap();
    assert_eq!(t.id, 9);
    assert_eq!(t.status, TransactionStatus::Pending);
    let r = m.record_transaction(&w, "other".to_string(), 20, 9);
    assert!(matches!(r, Err(CryptoNodeError::InvalidInput(_))));
    assert!(matches!(m.record_transaction(&w, "dest".to_string(), 0, 10), Err(CryptoNodeError::InvalidInput(_))));
    assert!(matches!(m.record_transaction(&w, "dest".to_string(), 101, 10), Err(CryptoNodeError::InvalidInput(_))));
    assert_eq!(m.get_transaction_history(&w.address).unwrap().len(), 1);
}

#[test]
fn transaction_ids_are_distinct() {
    let mut m = WalletManager::new();
    let w = funded(&mut m, 100);
    let a = m.create_transaction(&w, "dest".to_string(), 1).unwrap();
    let b = m.create_transaction(&w, "dest".to_string(), 1).unwrap();
    assert_ne!(a.id, b.id);
}
