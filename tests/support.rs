use cryptonode::bluetooth::{node_characteristics, COMMAND_UUID, NOTIFICATION_UUID};
use cryptonode::config::{validate_config, DeviceConfig};
use cryptonode::crypto::{address_of, derive_public_key, generate_secret};
use cryptonode::CryptoNodeError;

#[test]
fn address_is_lowercase_hex() {
    assert_eq!(address_of(&vec![1, 2, 3, 15, 16, 171]), "0102030f10ab");
    assert_eq!(address_of(&vec![]), "");
}

#[test]
fn public_key_matches_known_vector() {
    let secret = hex::decode("9d61b19deffd5a60ba844af492ec2cc44449c5697b326919703bac031cae7f60").unwrap();
    let public = derive_public_key(&secret).unwrap();
    assert_eq!(hex::encode(&public), "d75a980182b10ab7d54bfed3c964073a0ee172f3daa62325af021a68f707511a");
}

#[test]
fn public_key_needs_thirty_two_bytes() {
    assert!(matches!(derive_public_key(&vec![0u8; 31]), Err(CryptoNodeError::CryptoOperation(_))));
}

#[test]
fn secrets_are_thirty_two_bytes() {
    let rng = ring::rand::SystemRandom::new();
    let a = generate_secret(&rng).unwrap();
    let b = generate_secret(&rng).unwrap();
    assert_eq!(a.len(), 32);
    assert_ne!(a, b);
}

#[test]
fn default_config_is_valid() {
    let c = DeviceConfig::default();
    assert!(validate_config(&c).is_ok());
}

#[test]
fn config_rules() {
    let mut c = DeviceConfig::default();
    c.device_name = String::new();
    assert!(matches!(validate_config(&c), Err(CryptoNodeError::Config(_))));
    let mut c = DeviceConfig::default();
    c.bluetooth_name = String::new();
    assert!(validate_config(&c).is_err());
    c.bluetooth_enabled = false;
    assert!(validate_config(&c).is_ok());
    let mut c = DeviceConfig::default();
    c.min_bandwidth = 0;
    assert!(validate_config(&c).is_err());
    let mut c = DeviceConfig::default();
    c.reward_rate = -1;
    assert!(validate_config(&c).is_err());
    let mut c = DeviceConfig::default();
    c.update_check_interval = 0;
    assert!(validate_config(&c).is_err());
    c.auto_update_enabled = false;
    assert!(validate_config(&c).is_ok());
}

#[test]
fn characteristics_are_filtered_in_order() {
    let found = node_characteristics(&vec![1, NOTIFICATION_UUID, 2, COMMAND_UUID]);
    assert_eq!(found, vec![NOTIFICATION_UUID, COMMAND_UUID]);
}

#[test]
fn error_messages() {
    assert_eq!(CryptoNodeError::Timeout.message(), "Operation timeout");
    assert_eq!(CryptoNodeError::NotFound("wallet".to_string()).message(), "wallet");
}
