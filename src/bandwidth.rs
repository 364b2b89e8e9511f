use vstd::prelude::*;

use crate::clock::now_seconds;
use crate::error::CryptoNodeError;
use crate::types::BandwidthMetrics;
use crate::wallet::{has_wallet, ids_unique, wallet_index, LedgerView, WalletManager};
use crate::types::WalletView;

verus! {

/// Bytes in one mebibyte, the unit that rewards are priced in.
pub const MIB: u64 = 1_048_576;

/// Default reward: units per mebibyte shared (0.0001 coin).
pub const DEFAULT_REWARD_RATE: u64 = 100_000;

/// Default least sample, in bytes, that earns a reward.
pub const DEFAULT_MIN_BANDWIDTH: u64 = 1_048_576;

/// Default length of a measurement interval, in seconds.
pub const DEFAULT_INTERVAL_SECS: u64 = 60;

/// Seconds in an hour.
pub const SECONDS_PER_HOUR: u64 = 3600;

/// The reward for sharing `bytes` at `rate` units per mebibyte, rounded down.
pub open spec fn reward_for(bytes: int, rate: int) -> int {
    (bytes * rate) / (MIB as int)
}

/// The reward that an hour at the speed of a `sample` of bytes shared over
/// `interval` seconds would earn at `rate` units per mebibyte, rounded down:
/// `(sample / interval) * 3600 / MIB * rate`, divided once at the end.
pub open spec fn hourly_reward_for(sample: int, interval: int, rate: int) -> int {
    (sample * rate * (SECONDS_PER_HOUR as int)) / (interval * (MIB as int))
}

/// `x` capped at the largest `u64`.
pub open spec fn saturate(x: int) -> u64 {
    if x > u64::MAX {
        u64::MAX
    } else {
        x as u64
    }
}

/// The settings and figures of the reward engine.
pub ghost struct EngineView {
    pub metrics: BandwidthMetrics,
    pub reward_rate: u64,
    pub min_bandwidth: u64,
    pub measurement_interval: u64,
}

/// The balance of the wallet with this id.
pub open spec fn balance_of(ws: Seq<WalletView>, id: u128) -> int {
    ws[wallet_index(ws, id)].balance as int
}

/// Crediting `reward` to the wallet with this id keeps its balance in range.
pub open spec fn reward_applies(ws: Seq<WalletView>, id: u128, reward: int) -> bool {
    has_wallet(ws, id) && balance_of(ws, id) + reward <= i64::MAX
}

/// `new` is `old` with `reward` added to the wallet with this id, which is
/// stamped; the other wallets are unchanged.
pub open spec fn credited(old: Seq<WalletView>, new: Seq<WalletView>, id: u128, reward: int) -> bool {
    let i = wallet_index(old, id);
    new == old.update(
        i,
        WalletView { balance: (old[i].balance + reward) as i64, last_updated: new[i].last_updated, ..old[i] },
    )
}

/// One tick of the engine on a sample of `bytes`, for the wallet `id`, took
/// `(e, l)` to `(e2, l2)`; `rewarded` tells whether a reward was credited.
///
/// The totals grow by the sample and the interval (capped at the largest
/// `u64`), the speed is the sample over the interval, and a reward is credited
/// exactly when the sample reaches the minimum and the wallet can take it.
pub open spec fn tick_step(
    e: EngineView,
    l: LedgerView,
    e2: EngineView,
    l2: LedgerView,
    id: u128,
    bytes: u64,
    rewarded: bool,
) -> bool {
    let reward = reward_for(bytes as int, e.reward_rate as int);
    &&& e2.reward_rate == e.reward_rate
    &&& e2.min_bandwidth == e.min_bandwidth
    &&& e2.measurement_interval == e.measurement_interval
    &&& e2.metrics.total_bytes_shared == saturate(e.metrics.total_bytes_shared + bytes)
    &&& e2.metrics.current_speed == bytes / e.measurement_interval
    &&& e2.metrics.last_sample == bytes
    &&& e2.metrics.uptime == saturate(e.metrics.uptime + e.measurement_interval)
    &&& e2.metrics.start_time == e.metrics.start_time
    &&& l2.transactions == l.transactions
    &&& ids_unique(l2.wallets)
    &&& rewarded == (bytes >= e.min_bandwidth && reward_applies(l.wallets, id, reward))
    &&& if rewarded {
        &&& credited(l.wallets, l2.wallets, id, reward)
        &&& e2.metrics.last_reward is Some
    } else {
        &&& l2.wallets == l.wallets
        &&& e2.metrics.last_reward == e.metrics.last_reward
    }
}

/// Samples bandwidth, accrues metrics and credits rewards to a wallet.
pub struct BandwidthManager {
    metrics: BandwidthMetrics,
    reward_rate: u64,
    min_bandwidth: u64,
    measurement_interval: u64,
}

impl View for BandwidthManager {
    type V = EngineView;

    closed spec fn view(&self) -> EngineView {
        EngineView {
            metrics: self.metrics,
            reward_rate: self.reward_rate,
            min_bandwidth: self.min_bandwidth,
            measurement_interval: self.measurement_interval,
        }
    }
}

impl BandwidthManager {
    /// Well-formed: the minimum and the interval are positive.
    pub open spec fn wf(&self) -> bool {
        self@.min_bandwidth > 0 && self@.measurement_interval > 0
    }

    /// An engine with the default settings and zeroed metrics.
    pub fn new() -> (r: BandwidthManager)
        ensures
            r.wf(),
            r@.reward_rate == DEFAULT_REWARD_RATE,
            r@.min_bandwidth == DEFAULT_MIN_BANDWIDTH,
            r@.measurement_interval == DEFAULT_INTERVAL_SECS,
            r@.metrics.total_bytes_shared == 0,
            r@.metrics.current_speed == 0,
            r@.metrics.last_sample == 0,
            r@.metrics.uptime == 0,
            r@.metrics.last_reward is None,
    {
        BandwidthManager {
            metrics: BandwidthMetrics {
                total_bytes_shared: 0,
                current_speed: 0,
                last_sample: 0,
                uptime: 0,
                last_reward: None,
                start_time: now_seconds(),
            },
            reward_rate: DEFAULT_REWARD_RATE,
            min_bandwidth: DEFAULT_MIN_BANDWIDTH,
            measurement_interval: DEFAULT_INTERVAL_SECS,
        }
    }

    /// An engine with the given settings and zeroed metrics; `InvalidInput`
    /// when the minimum or the interval is zero.
    pub fn with_settings(reward_rate: u64, min_bandwidth: u64, measurement_interval: u64) -> (r: Result<
        BandwidthManager,
        CryptoNodeError,
    >)
        ensures
            r is Ok <==> min_bandwidth > 0 && measurement_interval > 0,
            r is Err ==> r->Err_0 is InvalidInput,
            r is Ok ==> {
                let e = r->Ok_0;
                &&& e.wf()
                &&& e@.reward_rate == reward_rate
                &&& e@.min_bandwidth == min_bandwidth
                &&& e@.measurement_interval == measurement_interval
                &&& e@.metrics.total_bytes_shared == 0
                &&& e@.metrics.current_speed == 0
                &&& e@.metrics.last_sample == 0
                &&& e@.metrics.uptime == 0
                &&& e@.metrics.last_reward is None
            },
    {
        if min_bandwidth == 0 {
            return Err(CryptoNodeError::InvalidInput("minimum bandwidth cannot be zero".to_string()));
        }
        if measurement_interval == 0 {
            return Err(CryptoNodeError::InvalidInput("measurement interval cannot be zero".to_string()));
        }
        let mut e = BandwidthManager::new();
        e.reward_rate = reward_rate;
        e.min_bandwidth = min_bandwidth;
        e.measurement_interval = measurement_interval;
        Ok(e)
    }

    /// Runs one tick on a sample of `bytes` shared during the interval.
    ///
    /// Adds the sample and the interval to the totals and sets the speed.
    /// When the sample reaches the minimum, credits `bytes * rate / MIB` units
    /// to the wallet and records the time; a missing wallet or a balance that
    /// would leave its range skips the reward for this tick. Returns whether a
    /// reward was credited.
    pub fn process_tick(&mut self, ledger: &mut WalletManager, wallet_id: u128, bytes: u64) -> (r: bool)
        requires
            old(self).wf(),
            old(ledger).wf(),
        ensures
            final(self).wf(),
            final(ledger).wf(),
            tick_step(old(self)@, old(ledger)@, final(self)@, final(ledger)@, wallet_id, bytes, r),
    {
        let interval = self.measurement_interval;
        self.metrics.total_bytes_shared = self.metrics.total_bytes_shared.saturating_add(bytes);
        self.metrics.current_speed = bytes / interval;
        self.metrics.last_sample = bytes;
        self.metrics.uptime = self.metrics.uptime.saturating_add(interval);
        if bytes < self.min_bandwidth {
            return false;
        }
        proof {
            lemma_product_fits(bytes as int, self.reward_rate as int);
        }
        let reward: u128 = (bytes as u128 * self.reward_rate as u128) / (MIB as u128);
        let wallet = match ledger.get_wallet(wallet_id) {
            Ok(w) => w,
            Err(_) => {
                return false;
            },
        };
        if reward > (i64::MAX as i128 - wallet.balance as i128) as u128 {
            return false;
        }
        let new_balance = (wallet.balance as i128 + reward as i128) as i64;
        match ledger.update_wallet_balance(wallet_id, new_balance) {
            Ok(_) => {
                self.metrics.last_reward = Some(now_seconds());
                true
            },
            Err(_) => false,
        }
    }

    /// A copy of the current metrics.
    pub fn get_metrics(&self) -> (r: Result<BandwidthMetrics, CryptoNodeError>)
        ensures
            r == Ok::<BandwidthMetrics, CryptoNodeError>(self@.metrics),
    {
        Ok(self.metrics)
    }

    /// Sets the reward per mebibyte; `InvalidInput` when it is negative.
    pub fn update_reward_rate(&mut self, new_rate: i64) -> (r: Result<(), CryptoNodeError>)
        requires
            old(self).wf(),
        ensures
            final(self).wf(),
            r is Ok <==> new_rate >= 0,
            r is Err ==> r->Err_0 is InvalidInput && final(self)@ == old(self)@,
            r is Ok ==> final(self)@ == (EngineView { reward_rate: new_rate as u64, ..old(self)@ }),
    {
        if new_rate < 0 {
            return Err(CryptoNodeError::InvalidInput("reward rate cannot be negative".to_string()));
        }
        self.reward_rate = new_rate as u64;
        Ok(())
    }

    /// Sets the least rewarded sample; `InvalidInput` when it is zero.
    pub fn update_min_bandwidth(&mut self, new_min: u64) -> (r: Result<(), CryptoNodeError>)
        requires
            old(self).wf(),
        ensures
            final(self).wf(),
            r is Ok <==> new_min > 0,
            r is Err ==> r->Err_0 is InvalidInput && final(self)@ == old(self)@,
            r is Ok ==> final(self)@ == (EngineView { min_bandwidth: new_min, ..old(self)@ }),
    {
        if new_min == 0 {
            return Err(CryptoNodeError::InvalidInput("minimum bandwidth cannot be zero".to_string()));
        }
        self.min_bandwidth = new_min;
        Ok(())
    }

    /// The reward for all bytes shared so far at the current rate, in units:
    /// recomputed from the total, not the sum of the rewards paid.
    pub fn calculate_total_rewards(&self) -> (r: Result<u128, CryptoNodeError>)
        ensures
            r is Ok,
            r is Ok ==> r->Ok_0 == reward_for(
                self@.metrics.total_bytes_shared as int,
                self@.reward_rate as int,
            ),
    {
        proof {
            lemma_product_fits(self.metrics.total_bytes_shared as int, self.reward_rate as int);
        }
        let product: u128 = self.metrics.total_bytes_shared as u128 * self.reward_rate as u128;
        Ok(product / (MIB as u128))
    }

    /// The reward that an hour at the current speed would earn, in units:
    /// projected from the latest sample over the interval, without rounding
    /// the speed first.
    pub fn get_estimated_hourly_rewards(&self) -> (r: Result<u128, CryptoNodeError>)
        requires
            self.wf(),
        ensures
            r is Ok,
            r is Ok ==> r->Ok_0 == hourly_reward_for(
                self@.metrics.last_sample as int,
                self@.measurement_interval as int,
                self@.reward_rate as int,
            ),
    {
        proof {
            lemma_product_fits(self.metrics.last_sample as int, self.reward_rate as int);
        }
        let product: u128 = self.metrics.last_sample as u128 * self.reward_rate as u128;
        let divisor: u128 = self.measurement_interval as u128 * MIB as u128;
        proof {
            assert(MIB <= divisor < 0x1_0000_0000_0000_0000_0000_0) by (nonlinear_arith)
                requires divisor == self.measurement_interval as int * 1_048_576,
                    1 <= self.measurement_interval <= u64::MAX;
            lemma_split_scaled(product as int, SECONDS_PER_HOUR as int, divisor as int);
        }
        let whole: u128 = product / divisor;
        let part: u128 = product % divisor;
        Ok(whole * SECONDS_PER_HOUR as u128 + (part * SECONDS_PER_HOUR as u128) / divisor)
    }

    /// The reward per mebibyte, in units.
    pub fn reward_rate(&self) -> (r: u64)
        ensures
            r == self@.reward_rate,
    {
        self.reward_rate
    }

    /// The least sample, in bytes, that earns a reward.
    pub fn min_bandwidth(&self) -> (r: u64)
        ensures
            r == self@.min_bandwidth,
    {
        self.min_bandwidth
    }

    /// The length of a measurement interval, in seconds.
    pub fn measurement_interval(&self) -> (r: u64)
        ensures
            r == self@.measurement_interval,
    {
        self.measurement_interval
    }
}

/// A reward is never negative.
proof fn lemma_reward_nonnegative(bytes: int, rate: int)
    requires
        0 <= bytes,
        0 <= rate,
    ensures
        0 <= reward_for(bytes, rate),
{
    assert(0 <= bytes * rate) by (nonlinear_arith)
        requires 0 <= bytes, 0 <= rate;
}

/// After `n` ticks that each share exactly the minimum, the total has grown by
/// `n` times the minimum and the wallet's balance by `n` times the reward for
/// the minimum, provided neither would leave its range.
pub proof fn lemma_steady_ticks(
    es: Seq<EngineView>,
    ls: Seq<LedgerView>,
    rewarded: Seq<bool>,
    id: u128,
    n: nat,
)
    requires
        es.len() == n + 1,
        ls.len() == n + 1,
        rewarded.len() == n,
        forall|i: int|
            0 <= i < n ==> #[trigger] tick_step(
                es[i],
                ls[i],
                es[i + 1],
                ls[i + 1],
                id,
                es[0].min_bandwidth,
                rewarded[i],
            ),
        ids_unique(ls[0].wallets),
        has_wallet(ls[0].wallets, id),
        es[0].metrics.total_bytes_shared + n * es[0].min_bandwidth <= u64::MAX,
        balance_of(ls[0].wallets, id) + n * reward_for(
            es[0].min_bandwidth as int,
            es[0].reward_rate as int,
        ) <= i64::MAX,
    ensures
        es[n as int].metrics.total_bytes_shared == es[0].metrics.total_bytes_shared + n
            * es[0].min_bandwidth,
        has_wallet(ls[n as int].wallets, id),
        balance_of(ls[n as int].wallets, id) == balance_of(ls[0].wallets, id) + n * reward_for(
            es[0].min_bandwidth as int,
            es[0].reward_rate as int,
        ),
        es[n as int].reward_rate == es[0].reward_rate,
        es[n as int].min_bandwidth == es[0].min_bandwidth,
        ids_unique(ls[n as int].wallets),
    decreases n,
{
    let min = es[0].min_bandwidth as int;
    let reward = reward_for(min, es[0].reward_rate as int);
    lemma_reward_nonnegative(min, es[0].reward_rate as int);
    if n > 0 {
        let m = (n - 1) as nat;
        assert(0 <= m * min <= n * min && 0 <= m * reward <= n * reward) by (nonlinear_arith)
            requires m + 1 == n, min >= 0, reward >= 0;
        lemma_steady_ticks(es.subrange(0, n as int), ls.subrange(0, n as int), rewarded.subrange(0, m as int), id, m);
        let e = es[m as int];
        let l = ls[m as int];
        assert(tick_step(e, l, es[n as int], ls[n as int], id, es[0].min_bandwidth, rewarded[m as int]));
        assert(m * min + min == n * min && m * reward + reward == n * reward) by (nonlinear_arith)
            requires m + 1 == n;
        let i = wallet_index(l.wallets, id);
        assert(rewarded[m as int]);
        let l2 = ls[n as int].wallets;
        assert(l2[i].id == id);
        let k = wallet_index(l2, id);
        assert(k == i) by {
            assert(ids_unique(l2));
        }
    }
}

/// The product of two `u64` values fits a `u128`.
proof fn lemma_product_fits(a: int, b: int)
    requires
        0 <= a <= u64::MAX,
        0 <= b <= u64::MAX,
    ensures
        0 <= a * b <= u128::MAX,
{
    assert(0 <= a * b <= u64::MAX * u64::MAX) by (nonlinear_arith)
        requires 0 <= a <= u64::MAX, 0 <= b <= u64::MAX;
}

/// Scaling by `c` and dividing by `d` can divide first and scale the
/// remainder apart, with every intermediate value inside a `u128`.
proof fn lemma_split_scaled(p: int, c: int, d: int)
    requires
        0 <= p <= u128::MAX,
        0 <= c <= 3600,
        MIB <= d < 0x1_0000_0000_0000_0000_0000_0,
    ensures
        (p / d) * c + ((p % d) * c) / d == (p * c) / d,
        (p / d) * c + ((p % d) * c) / d <= u128::MAX,
        (p % d) * c <= u128::MAX,
        (p / d) * c <= u128::MAX,
{
    let q = p / d;
    let s = p % d;
    vstd::arithmetic::div_mod::lemma_fundamental_div_mod(p, d);
    assert(0 <= s < d);
    assert(0 <= q);
    assert(p * c == (q * c) * d + s * c) by (nonlinear_arith)
        requires p == d * q + s;
    vstd::arithmetic::div_mod::lemma_hoist_over_denominator(s * c, q * c, d as nat);
    assert(q * 1_048_576 <= p) by (nonlinear_arith)
        requires p == d * q + s, d >= 1_048_576, q >= 0, s >= 0;
    assert(q * c <= 0x1_0000_0000_0000_0000_0000_0000_0000 * 3600) by (nonlinear_arith)
        requires q * 1_048_576 <= p, p <= u128::MAX, 0 <= c <= 3600, q >= 0;
    assert(0 <= s * c <= d * 3600) by (nonlinear_arith)
        requires 0 <= s < d, 0 <= c <= 3600;
    assert((s * c) / d <= 3600) by (nonlinear_arith)
        requires 0 <= s * c <= d * 3600, d > 0;
    assert(p * c == (q * c) * d + s * c);
}

} // verus!
