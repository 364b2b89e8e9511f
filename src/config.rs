use vstd::prelude::*;

use crate::crypto::random_id;
use crate::error::CryptoNodeError;
use crate::types::CurrencyType;

verus! {

/// Settings of a node: identity, pairing name, bandwidth and reward tunables,
/// and update policy. `reward_rate` is in units per mebibyte.
#[derive(Debug, Clone)]
pub struct DeviceConfig {
    pub device_id: u128,
    pub device_name: String,
    pub bluetooth_enabled: bool,
    pub bluetooth_name: String,
    pub max_bandwidth: u64,
    pub min_bandwidth: u64,
    pub reward_rate: i64,
    pub supported_currencies: Vec<CurrencyType>,
    pub auto_update_enabled: bool,
    pub update_check_interval: u64,
}

/// A configuration is usable: it names the device, names the Bluetooth
/// service when that is on, asks for a positive minimum bandwidth and a
/// non-negative reward rate, and checks for updates at a positive interval
/// when automatic updates are on.
pub open spec fn config_valid(c: DeviceConfig) -> bool {
    &&& c.device_name@.len() > 0
    &&& (c.bluetooth_enabled ==> c.bluetooth_name@.len() > 0)
    &&& c.min_bandwidth > 0
    &&& c.reward_rate >= 0
    &&& (c.auto_update_enabled ==> c.update_check_interval > 0)
}

/// Checks a configuration; a `Config` error names the first rule it breaks.
pub fn validate_config(config: &DeviceConfig) -> (r: Result<(), CryptoNodeError>)
    ensures
        r is Ok <==> config_valid(*config),
        r is Err ==> r->Err_0 is Config,
{
    if config.device_name.as_str().unicode_len() == 0 {
        return Err(CryptoNodeError::Config("device name cannot be empty".to_string()));
    }
    if config.bluetooth_enabled && config.bluetooth_name.as_str().unicode_len() == 0 {
        return Err(CryptoNodeError::Config("Bluetooth name cannot be empty when enabled".to_string()));
    }
    if config.min_bandwidth == 0 {
        return Err(CryptoNodeError::Config("minimum bandwidth cannot be zero".to_string()));
    }
    if config.reward_rate < 0 {
        return Err(CryptoNodeError::Config("reward rate cannot be negative".to_string()));
    }
    if config.auto_update_enabled && config.update_check_interval == 0 {
        return Err(CryptoNodeError::Config(
            "update check interval cannot be zero when auto-update is enabled".to_string(),
        ));
    }
    Ok(())
}

impl Default for DeviceConfig {
    /// A valid configuration with a fresh device id and the engine's default
    /// bandwidth and reward settings.
    fn default() -> (r: DeviceConfig)
        ensures
            config_valid(r),
            r.min_bandwidth == 1_048_576,
            r.reward_rate == 100_000,
    {
        let r = DeviceConfig {
            device_id: random_id(),
            device_name: "cryptonode".to_string(),
            bluetooth_enabled: true,
            bluetooth_name: "CryptoNode".to_string(),
            max_bandwidth: 10_485_760,
            min_bandwidth: 1_048_576,
            reward_rate: 100_000,
            supported_currencies: vec![CurrencyType::Bitcoin, CurrencyType::Ethereum],
            auto_update_enabled: true,
            update_check_interval: 86_400,
        };
        proof {
            reveal_strlit("cryptonode");
            reveal_strlit("CryptoNode");
        }
        r
    }
}

} // verus!
