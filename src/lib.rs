//! Bandwidth-sharing rewards over a wallet and transaction ledger.
//!
//! Amounts are fixed-point integers: one coin is `UNITS_PER_COIN` units.
//! Timestamps are seconds since the Unix epoch; identifiers are 128-bit values.
pub mod bandwidth;
pub mod bluetooth;
pub mod clock;
pub mod config;
pub mod crypto;
pub mod error;
pub mod types;
pub mod wallet;

pub use error::CryptoNodeError;
pub use types::{
    BandwidthMetrics, ConnectionStatus, CurrencyType, Transaction, TransactionStatus, Wallet,
};
