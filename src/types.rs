use vstd::prelude::*;

verus! {

/// Fixed-point units in one coin.
pub const UNITS_PER_COIN: i64 = 1_000_000_000;

/// Supported cryptocurrencies.
#[derive(Debug, Clone, Copy, PartialEq, Eq, Hash, Structural)]
pub enum CurrencyType {
    Bitcoin,
    Ethereum,
}

/// Lifecycle of a transaction: `Pending` on creation, then `Confirmed` or `Failed`.
#[derive(Debug, Clone, Copy, PartialEq, Eq, Structural)]
pub enum TransactionStatus {
    Pending,
    Confirmed,
    Failed,
}

/// State of the link to a paired device.
#[derive(Debug, Clone, Copy, PartialEq, Eq, Structural)]
pub enum ConnectionStatus {
    Connected,
    Disconnected,
    Pairing,
    Error,
}

/// A balance-holding identity with its key pair.
///
/// `balance` is in fixed-point units; it may go negative through a confirmed
/// debit, since a transaction does not reserve funds.
#[derive(Debug, Clone)]
pub struct Wallet {
    pub id: u128,
    pub address: String,
    pub public_key: Vec<u8>,
    pub private_key: Vec<u8>,
    pub currency_type: CurrencyType,
    pub balance: i64,
    pub created_at: i64,
    pub last_updated: i64,
}

/// The mathematical content of a `Wallet`.
pub ghost struct WalletView {
    pub id: u128,
    pub address: Seq<char>,
    pub public_key: Seq<u8>,
    pub private_key: Seq<u8>,
    pub currency_type: CurrencyType,
    pub balance: i64,
    pub created_at: i64,
    pub last_updated: i64,
}

impl View for Wallet {
    type V = WalletView;

    open spec fn view(&self) -> WalletView {
        WalletView {
            id: self.id,
            address: self.address@,
            public_key: self.public_key@,
            private_key: self.private_key@,
            currency_type: self.currency_type,
            balance: self.balance,
            created_at: self.created_at,
            last_updated: self.last_updated,
        }
    }
}

impl Wallet {
    /// A copy of this wallet with the same contents.
    pub fn snapshot(&self) -> (r: Wallet)
        ensures
            r@ == self@,
    {
        Wallet {
            id: self.id,
            address: self.address.clone(),
            public_key: copy_bytes(&self.public_key),
            private_key: copy_bytes(&self.private_key),
            currency_type: self.currency_type,
            balance: self.balance,
            created_at: self.created_at,
            last_updated: self.last_updated,
        }
    }
}

/// A copy of a byte vector.
pub fn copy_bytes(b: &Vec<u8>) -> (r: Vec<u8>)
    ensures
        r@ == b@,
{
    let mut r: Vec<u8> = Vec::new();
    let mut i: usize = 0;
    while i < b.len()
        invariant
            i <= b@.len(),
            r@ == b@.subrange(0, i as int),
        decreases b@.len() - i,
    {
        r.push(b[i]);
        i = i + 1;
    }
    assert(r@ == b@);
    r
}

/// A transfer of `amount` units from one address to another.
#[derive(Debug, Clone)]
pub struct Transaction {
    pub id: u128,
    pub from_wallet: String,
    pub to_wallet: String,
    pub amount: i64,
    pub currency_type: CurrencyType,
    pub timestamp: i64,
    pub status: TransactionStatus,
    pub fee: Option<i64>,
}

/// The mathematical content of a `Transaction`.
pub ghost struct TransactionView {
    pub id: u128,
    pub from_wallet: Seq<char>,
    pub to_wallet: Seq<char>,
    pub amount: i64,
    pub currency_type: CurrencyType,
    pub timestamp: i64,
    pub status: TransactionStatus,
    pub fee: Option<i64>,
}

impl View for Transaction {
    type V = TransactionView;

    open spec fn view(&self) -> TransactionView {
        TransactionView {
            id: self.id,
            from_wallet: self.from_wallet@,
            to_wallet: self.to_wallet@,
            amount: self.amount,
            currency_type: self.currency_type,
            timestamp: self.timestamp,
            status: self.status,
            fee: self.fee,
        }
    }
}

impl Transaction {
    /// A copy of this transaction with the same contents.
    pub fn snapshot(&self) -> (r: Transaction)
        ensures
            r@ == self@,
    {
        Transaction {
            id: self.id,
            from_wallet: self.from_wallet.clone(),
            to_wallet: self.to_wallet.clone(),
            amount: self.amount,
            currency_type: self.currency_type,
            timestamp: self.timestamp,
            status: self.status,
            fee: self.fee,
        }
    }
}

/// What confirming a transaction takes from its sender: the amount and the
/// fee, a missing fee counting as zero.
pub open spec fn debit_of(t: TransactionView) -> int {
    t.amount + t.fee.unwrap_or(0)
}

/// Aggregate figures of bandwidth sharing.
///
/// `current_speed` is in whole bytes per second, `last_sample` the bytes of
/// the latest interval, `uptime` in seconds.
#[derive(Debug, Clone, Copy, PartialEq, Eq, Structural)]
pub struct BandwidthMetrics {
    pub total_bytes_shared: u64,
    pub current_speed: u64,
    pub last_sample: u64,
    pub uptime: u64,
    pub last_reward: Option<i64>,
    pub start_time: i64,
}

} // verus!
