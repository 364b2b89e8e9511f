use vstd::prelude::*;

use crate::clock::now_seconds;
use crate::crypto::{address_of, derive_public_key, generate_secret, hex_of, public_key_of, random_id};
use crate::error::CryptoNodeError;
use crate::types::{
    debit_of, CurrencyType, Transaction, TransactionStatus, TransactionView, Wallet, WalletView,
};

verus! {

/// The fee that a new transaction carries, in fixed-point units.
pub const TRANSACTION_FEE: i64 = 1_000_000;

/// How many random ids are drawn, at most, before giving up on a fresh one.
pub const ID_ATTEMPTS: usize = 16;

/// The contents of a ledger: its wallets and its transaction log.
pub ghost struct LedgerView {
    pub wallets: Seq<WalletView>,
    pub transactions: Seq<TransactionView>,
}

/// No two wallets share an id.
pub open spec fn ids_unique(ws: Seq<WalletView>) -> bool {
    forall|i: int, j: int|
        0 <= i < ws.len() && 0 <= j < ws.len() && i != j ==> ws[i].id != ws[j].id
}

/// Some wallet has this id.
pub open spec fn has_wallet(ws: Seq<WalletView>, id: u128) -> bool {
    exists|i: int| 0 <= i < ws.len() && ws[i].id == id
}

/// The position of the wallet with this id (meaningful where `has_wallet`).
pub open spec fn wallet_index(ws: Seq<WalletView>, id: u128) -> int {
    choose|i: int| 0 <= i < ws.len() && ws[i].id == id
}

/// `i` is the first position of the log that holds a transaction with this id.
pub open spec fn first_tx_at(txs: Seq<TransactionView>, id: u128, i: int) -> bool {
    &&& 0 <= i < txs.len()
    &&& txs[i].id == id
    &&& forall|j: int| 0 <= j < i ==> txs[j].id != id
}

/// Some transaction of the log has this id.
pub open spec fn has_transaction(txs: Seq<TransactionView>, id: u128) -> bool {
    exists|i: int| 0 <= i < txs.len() && txs[i].id == id
}

/// The first position of a transaction with this id (meaningful where
/// `has_transaction`).
pub open spec fn tx_index(txs: Seq<TransactionView>, id: u128) -> int {
    choose|i: int| first_tx_at(txs, id, i)
}

/// Debiting `t` keeps every wallet of its sender within the balance range.
pub open spec fn debit_fits(ws: Seq<WalletView>, t: TransactionView) -> bool {
    forall|k: int|
        0 <= k < ws.len() && ws[k].address == t.from_wallet ==> i64::MIN <= ws[k].balance
            - debit_of(t) <= i64::MAX
}

/// `new` is `old` with every wallet of `t`'s sender debited by `debit_of(t)`
/// and stamped; the other wallets are unchanged.
pub open spec fn debited(old: Seq<WalletView>, new: Seq<WalletView>, t: TransactionView) -> bool {
    &&& new.len() == old.len()
    &&& forall|k: int|
        0 <= k < old.len() ==> if old[k].address == t.from_wallet {
            new[k] == (WalletView {
                balance: (old[k].balance - debit_of(t)) as i64,
                last_updated: new[k].last_updated,
                ..old[k]
            })
        } else {
            new[k] == old[k]
        }
}

/// The ledger `new` follows from `old` by setting the status of the first
/// transaction with id `id`, and, for `Confirmed`, debiting its sender.
pub open spec fn status_applied(
    old: LedgerView,
    new: LedgerView,
    id: u128,
    status: TransactionStatus,
) -> bool {
    let i = tx_index(old.transactions, id);
    let t = old.transactions[i];
    &&& first_tx_at(old.transactions, id, i)
    &&& new.transactions == old.transactions.update(i, TransactionView { status, ..t })
    &&& if status == TransactionStatus::Confirmed {
        debit_fits(old.wallets, t) && debited(old.wallets, new.wallets, t)
    } else {
        new.wallets == old.wallets
    }
}

/// The transactions of the log that `address` sends or receives, in log order.
pub open spec fn history_of(txs: Seq<TransactionView>, address: Seq<char>) -> Seq<TransactionView> {
    txs.filter(|t: TransactionView| t.from_wallet == address || t.to_wallet == address)
}

/// A status update keeps the first position of the transaction it names.
proof fn lemma_status_keeps_index(
    old: LedgerView,
    new: LedgerView,
    id: u128,
    status: TransactionStatus,
)
    requires
        status_applied(old, new, id, status),
    ensures
        tx_index(new.transactions, id) == tx_index(old.transactions, id),
        first_tx_at(new.transactions, id, tx_index(old.transactions, id)),
{
    let i = tx_index(old.transactions, id);
    assert(forall|j: int| 0 <= j < new.transactions.len() ==> new.transactions[j].id == old.transactions[j].id);
    assert(first_tx_at(new.transactions, id, i));
    let k = tx_index(new.transactions, id);
    assert(first_tx_at(new.transactions, id, k));
    assert(k == i) by {
        if k < i {
            assert(new.transactions[k].id != id);
        } else if k > i {
            assert(new.transactions[i].id != id);
        }
    }
}

/// Confirming a transaction twice debits its sender twice: every wallet with
/// the sender's address loses twice the amount plus the fee, and the other
/// wallets keep their balances.
pub proof fn lemma_confirm_twice(l0: LedgerView, l1: LedgerView, l2: LedgerView, id: u128)
    requires
        status_applied(l0, l1, id, TransactionStatus::Confirmed),
        status_applied(l1, l2, id, TransactionStatus::Confirmed),
    ensures
        ({
            let t = l0.transactions[tx_index(l0.transactions, id)];
            &&& l2.wallets.len() == l0.wallets.len()
            &&& forall|k: int|
                0 <= k < l0.wallets.len() ==> #[trigger] l2.wallets[k].balance == if l0.wallets[k].address
                    == t.from_wallet {
                    l0.wallets[k].balance - 2 * debit_of(t)
                } else {
                    l0.wallets[k].balance as int
                }
        }),
{
    lemma_status_keeps_index(l0, l1, id, TransactionStatus::Confirmed);
    let i = tx_index(l0.transactions, id);
    let t = l0.transactions[i];
    let t1 = l1.transactions[i];
    assert(debit_of(t1) == debit_of(t));
    assert forall|k: int| 0 <= k < l0.wallets.len() implies #[trigger] l2.wallets[k].balance == if l0.wallets[k].address
        == t.from_wallet {
        l0.wallets[k].balance - 2 * debit_of(t)
    } else {
        l0.wallets[k].balance as int
    } by {
        assert(l1.wallets[k].address == l0.wallets[k].address);
    }
}

/// The wallets and the transaction log.
pub struct WalletManager {
    wallets: Vec<Wallet>,
    transactions: Vec<Transaction>,
    rng: ring::rand::SystemRandom,
}

impl View for WalletManager {
    type V = LedgerView;

    closed spec fn view(&self) -> LedgerView {
        LedgerView {
            wallets: self.wallets@.map_values(|w: Wallet| w@),
            transactions: self.transactions@.map_values(|t: Transaction| t@),
        }
    }
}

impl WalletManager {
    /// Well-formed: wallet ids are unique.
    pub open spec fn wf(&self) -> bool {
        ids_unique(self@.wallets)
    }

    /// An empty ledger.
    pub fn new() -> (r: WalletManager)
        ensures
            r.wf(),
            r@.wallets.len() == 0,
            r@.transactions.len() == 0,
    {
        let r = WalletManager {
            wallets: Vec::new(),
            transactions: Vec::new(),
            rng: ring::rand::SystemRandom::new(),
        };
        assert(r@.wallets =~= Seq::<WalletView>::empty());
        assert(r@.transactions =~= Seq::<TransactionView>::empty());
        r
    }

    /// Position of the wallet with this id, if any.
    fn find_wallet(&self, id: u128) -> (r: Option<usize>)
        requires
            self.wf(),
        ensures
            r is None <==> !has_wallet(self@.wallets, id),
            r is Some ==> r->Some_0 == wallet_index(self@.wallets, id),
            r is Some ==> r->Some_0 < self@.wallets.len() && self@.wallets[r->Some_0 as int].id == id,
    {
        let ghost ws = self@.wallets;
        let mut i: usize = 0;
        while i < self.wallets.len()
            invariant
                i <= self.wallets@.len(),
                ws == self@.wallets,
                ws.len() == self.wallets@.len(),
                ids_unique(ws),
                forall|j: int| 0 <= j < i ==> ws[j].id != id,
            decreases self.wallets@.len() - i,
        {
            assert(ws[i as int] == self.wallets@[i as int]@);
            if self.wallets[i].id == id {
                assert(0 <= i < ws.len() && ws[i as int].id == id);
                let ghost k = wallet_index(ws, id);
                assert(ids_unique(ws));
                assert(k == i);
                return Some(i);
            }
            i = i + 1;
        }
        None
    }

    /// A random id that no wallet has, if one turns up within `ID_ATTEMPTS` draws.
    fn fresh_wallet_id(&self) -> (r: Option<u128>)
        requires
            self.wf(),
        ensures
            r is Some ==> !has_wallet(self@.wallets, r->Some_0),
    {
        let mut attempt: usize = 0;
        while attempt < ID_ATTEMPTS
            invariant
                self.wf(),
            decreases ID_ATTEMPTS - attempt,
        {
            let id = random_id();
            if self.find_wallet(id).is_none() {
                return Some(id);
            }
            attempt = attempt + 1;
        }
        None
    }

    /// Stores a new wallet with id `id` for the key pair of a 32-byte
    /// `secret`: its address is the hex text of the public key and its
    /// balance is zero.
    ///
    /// Fails with `CryptoOperation` when `secret` is not 32 bytes, and with
    /// `InvalidInput` when a wallet already has the id; nothing changes then.
    pub fn create_wallet_from_secret(
        &mut self,
        secret: Vec<u8>,
        id: u128,
        currency_type: CurrencyType,
    ) -> (r: Result<Wallet, CryptoNodeError>)
        requires
            old(self).wf(),
        ensures
            final(self).wf(),
            final(self)@.transactions == old(self)@.transactions,
            r is Ok <==> secret@.len() == 32 && !has_wallet(old(self)@.wallets, id),
            r is Err ==> final(self)@ == old(self)@,
            r is Err && secret@.len() != 32 ==> r->Err_0 is CryptoOperation,
            r is Err && secret@.len() == 32 ==> r->Err_0 is InvalidInput,
            r is Ok ==> {
                let w = r->Ok_0@;
                &&& w.id == id
                &&& w.balance == 0
                &&& w.currency_type == currency_type
                &&& w.private_key == secret@
                &&& w.public_key == public_key_of(secret@)
                &&& w.public_key.len() == 32
                &&& w.address == hex_of(w.public_key)
                &&& w.created_at == w.last_updated
                &&& final(self)@.wallets == old(self)@.wallets.push(w)
            },
    {
        let public_key = derive_public_key(&secret)?;
        if self.find_wallet(id).is_some() {
            return Err(CryptoNodeError::InvalidInput("wallet id already in use".to_string()));
        }
        let address = address_of(&public_key);
        let now = now_seconds();
        let wallet = Wallet {
            id,
            address,
            public_key,
            private_key: secret,
            currency_type,
            balance: 0,
            created_at: now,
            last_updated: now,
        };
        let ghost ws = self@.wallets;
        self.wallets.push(wallet.snapshot());
        assert(self@.wallets =~= ws.push(wallet@));
        Ok(wallet)
    }

    /// Creates a wallet with a fresh key pair, a fresh id and a zero balance,
    /// and stores it.
    ///
    /// Fails with `CryptoOperation` when the secure random source fails, and
    /// with `Unknown` when no unused id turns up; nothing changes then.
    pub fn create_wallet(&mut self, currency_type: CurrencyType) -> (r: Result<Wallet, CryptoNodeError>)
        requires
            old(self).wf(),
        ensures
            final(self).wf(),
            final(self)@.transactions == old(self)@.transactions,
            r is Ok ==> {
                let w = r->Ok_0@;
                &&& w.balance == 0
                &&& w.currency_type == currency_type
                &&& w.private_key.len() == 32
                &&& w.public_key == public_key_of(w.private_key)
                &&& w.public_key.len() == 32
                &&& w.address == hex_of(w.public_key)
                &&& w.created_at == w.last_updated
                &&& !has_wallet(old(self)@.wallets, w.id)
                &&& final(self)@.wallets == old(self)@.wallets.push(w)
            },
            r is Err ==> (r->Err_0 is CryptoOperation || r->Err_0 is Unknown) && final(self)@ == old(self)@,
    {
        let secret = generate_secret(&self.rng)?;
        let id = match self.fresh_wallet_id() {
            Some(id) => id,
            None => {
                return Err(CryptoNodeError::Unknown("no unused wallet id".to_string()));
            },
        };
        self.create_wallet_from_secret(secret, id, currency_type)
    }

    /// The wallet with this id; `NotFound` when there is none.
    pub fn get_wallet(&self, id: u128) -> (r: Result<Wallet, CryptoNodeError>)
        requires
            self.wf(),
        ensures
            r is Ok <==> has_wallet(self@.wallets, id),
            r is Ok ==> r->Ok_0@ == self@.wallets[wallet_index(self@.wallets, id)],
            r is Err ==> r->Err_0 is NotFound,
    {
        match self.find_wallet(id) {
            Some(i) => Ok(self.wallets[i].snapshot()),
            None => Err(CryptoNodeError::NotFound("wallet not found".to_string())),
        }
    }

    /// A copy of every wallet.
    pub fn list_wallets(&self) -> (r: Result<Vec<Wallet>, CryptoNodeError>)
        ensures
            r is Ok,
            r is Ok ==> r->Ok_0@.map_values(|w: Wallet| w@) == self@.wallets,
    {
        let mut out: Vec<Wallet> = Vec::new();
        let mut i: usize = 0;
        while i < self.wallets.len()
            invariant
                i <= self.wallets@.len(),
                out@.map_values(|w: Wallet| w@) == self@.wallets.subrange(0, i as int),
            decreases self.wallets@.len() - i,
        {
            let w = self.wallets[i].snapshot();
            let ghost before = out@;
            assert(self@.wallets[i as int] == self.wallets@[i as int]@);
            out.push(w);
            assert(out@ == before.push(w));
            assert(out@.map_values(|w: Wallet| w@) =~= before.map_values(|w: Wallet| w@).push(w@));
            assert(out@.map_values(|w: Wallet| w@) =~= self@.wallets.subrange(0, i as int + 1));
            i = i + 1;
        }
        assert(self@.wallets.subrange(0, i as int) =~= self@.wallets);
        Ok(out)
    }

    /// A random id that no logged transaction has, if one turns up within
    /// `ID_ATTEMPTS` draws.
    fn fresh_transaction_id(&self) -> (r: Option<u128>)
        ensures
            r is Some ==> !has_transaction(self@.transactions, r->Some_0),
    {
        let mut attempt: usize = 0;
        while attempt < ID_ATTEMPTS
            decreases ID_ATTEMPTS - attempt,
        {
            let id = random_id();
            if self.find_transaction(id).is_none() {
                return Some(id);
            }
            attempt = attempt + 1;
        }
        None
    }

    /// Logs a `Pending` transfer with id `id` of `amount` units from
    /// `from_wallet`'s address to `to_address`, with the fixed fee.
    ///
    /// Fails with `InvalidInput` when `amount` is not positive, exceeds the
    /// sender's balance, or `id` is already logged. No wallet changes.
    pub fn record_transaction(
        &mut self,
        from_wallet: &Wallet,
        to_address: String,
        amount: i64,
        id: u128,
    ) -> (r: Result<Transaction, CryptoNodeError>)
        requires
            old(self).wf(),
        ensures
            final(self).wf(),
            final(self)@.wallets == old(self)@.wallets,
            r is Ok <==> 0 < amount && amount <= from_wallet.balance && !has_transaction(
                old(self)@.transactions,
                id,
            ),
            r is Err ==> r->Err_0 is InvalidInput && final(self)@ == old(self)@,
            r is Ok ==> {
                let t = r->Ok_0@;
                &&& t.id == id
                &&& t.from_wallet == from_wallet.address@
                &&& t.to_wallet == to_address@
                &&& t.amount == amount
                &&& t.currency_type == from_wallet.currency_type
                &&& t.status == TransactionStatus::Pending
                &&& t.fee == Some(TRANSACTION_FEE)
                &&& final(self)@.transactions == old(self)@.transactions.push(t)
            },
    {
        if amount <= 0 {
            return Err(CryptoNodeError::InvalidInput("amount must be positive".to_string()));
        }
        if from_wallet.balance < amount {
            return Err(CryptoNodeError::InvalidInput("insufficient balance".to_string()));
        }
        if self.find_transaction(id).is_some() {
            return Err(CryptoNodeError::InvalidInput("transaction id already in use".to_string()));
        }
        let transaction = Transaction {
            id,
            from_wallet: from_wallet.address.clone(),
            to_wallet: to_address,
            amount,
            currency_type: from_wallet.currency_type,
            timestamp: now_seconds(),
            status: TransactionStatus::Pending,
            fee: Some(TRANSACTION_FEE),
        };
        let ghost txs = self@.transactions;
        self.transactions.push(transaction.snapshot());
        assert(self@.transactions =~= txs.push(transaction@));
        Ok(transaction)
    }

    /// Records a `Pending` transfer of `amount` units from `from_wallet`'s
    /// address to `to_address`, with the fixed fee and a fresh id.
    ///
    /// Fails with `InvalidInput` when `amount` is not positive or exceeds the
    /// sender's balance, and with `Unknown` when no unused id turns up. The
    /// balance check reserves nothing: no wallet changes.
    pub fn create_transaction(
        &mut self,
        from_wallet: &Wallet,
        to_address: String,
        amount: i64,
    ) -> (r: Result<Transaction, CryptoNodeError>)
        requires
            old(self).wf(),
        ensures
            final(self).wf(),
            final(self)@.wallets == old(self)@.wallets,
            amount <= 0 || from_wallet.balance < amount ==> r is Err && r->Err_0 is InvalidInput,
            r is Err ==> final(self)@ == old(self)@,
            r is Err ==> r->Err_0 is InvalidInput || r->Err_0 is Unknown,
            r is Err && 0 < amount && amount <= from_wallet.balance ==> r->Err_0 is Unknown,
            r is Ok ==> {
                let t = r->Ok_0@;
                &&& 0 < amount && amount <= from_wallet.balance
                &&& !has_transaction(old(self)@.transactions, t.id)
                &&& t.from_wallet == from_wallet.address@
                &&& t.to_wallet == to_address@
                &&& t.amount == amount
                &&& t.currency_type == from_wallet.currency_type
                &&& t.status == TransactionStatus::Pending
                &&& t.fee == Some(TRANSACTION_FEE)
                &&& final(self)@.transactions == old(self)@.transactions.push(t)
            },
    {
        if amount <= 0 {
            return Err(CryptoNodeError::InvalidInput("amount must be positive".to_string()));
        }
        if from_wallet.balance < amount {
            return Err(CryptoNodeError::InvalidInput("insufficient balance".to_string()));
        }
        let id = match self.fresh_transaction_id() {
            Some(id) => id,
            None => {
                return Err(CryptoNodeError::Unknown("no unused transaction id".to_string()));
            },
        };
        self.record_transaction(from_wallet, to_address, amount, id)
    }

    /// Position of the first transaction with this id, if any.
    fn find_transaction(&self, id: u128) -> (r: Option<usize>)
        ensures
            r is None <==> !has_transaction(self@.transactions, id),
            r is Some ==> r->Some_0 == tx_index(self@.transactions, id),
            r is Some ==> first_tx_at(self@.transactions, id, r->Some_0 as int),
    {
        let ghost txs = self@.transactions;
        let mut i: usize = 0;
        while i < self.transactions.len()
            invariant
                i <= self.transactions@.len(),
                txs == self@.transactions,
                txs.len() == self.transactions@.len(),
                forall|j: int| 0 <= j < i ==> txs[j].id != id,
            decreases self.transactions@.len() - i,
        {
            assert(txs[i as int] == self.transactions@[i as int]@);
            if self.transactions[i].id == id {
                assert(first_tx_at(txs, id, i as int));
                let ghost k = tx_index(txs, id);
                assert(first_tx_at(txs, id, k));
                assert(k == i) by {
                    if k < i {
                        assert(txs[k].id != id);
                    } else if k > i {
                        assert(txs[i as int].id != id);
                    }
                }
                return Some(i);
            }
            i = i + 1;
        }
        None
    }

    /// Whether debiting `t` keeps every wallet of its sender in range.
    fn check_debit(&self, t: &Transaction) -> (r: bool)
        ensures
            r == debit_fits(self@.wallets, t@),
    {
        let ghost ws = self@.wallets;
        let debit: i128 = t.amount as i128 + match t.fee {
            Some(f) => f as i128,
            None => 0i128,
        };
        assert(debit == debit_of(t@));
        let mut k: usize = 0;
        while k < self.wallets.len()
            invariant
                k <= self.wallets@.len(),
                ws == self@.wallets,
                ws.len() == self.wallets@.len(),
                debit == debit_of(t@),
                forall|j: int|
                    0 <= j < k && ws[j].address == t@.from_wallet ==> i64::MIN <= ws[j].balance
                        - debit_of(t@) <= i64::MAX,
            decreases self.wallets@.len() - k,
        {
            assert(ws[k as int] == self.wallets@[k as int]@);
            if self.wallets[k].address == t.from_wallet {
                let b: i128 = self.wallets[k].balance as i128 - debit;
                if b < i64::MIN as i128 || b > i64::MAX as i128 {
                    return false;
                }
            }
            k = k + 1;
        }
        true
    }

    /// Debits every wallet of `t`'s sender by `debit_of(t)`, stamping it with `now`.
    fn apply_debit(&mut self, t: &Transaction, now: i64)
        requires
            old(self).wf(),
            debit_fits(old(self)@.wallets, t@),
        ensures
            final(self).wf(),
            debited(old(self)@.wallets, final(self)@.wallets, t@),
            final(self)@.transactions == old(self)@.transactions,
    {
        let ghost ws = self@.wallets;
        let debit: i128 = t.amount as i128 + match t.fee {
            Some(f) => f as i128,
            None => 0i128,
        };
        let mut k: usize = 0;
        while k < self.wallets.len()
            invariant
                k <= self.wallets@.len(),
                ws.len() == self.wallets@.len(),
                ws.len() == self@.wallets.len(),
                debit == debit_of(t@),
                debit_fits(ws, t@),
                ids_unique(ws),
                self@.transactions == old(self)@.transactions,
                forall|j: int| 0 <= j < self@.wallets.len() ==> self@.wallets[j].id == ws[j].id,
                forall|j: int| k <= j < ws.len() ==> self@.wallets[j] == ws[j],
                forall|j: int|
                    0 <= j < k ==> if ws[j].address == t@.from_wallet {
                        self@.wallets[j] == (WalletView {
                            balance: (ws[j].balance - debit_of(t@)) as i64,
                            last_updated: self@.wallets[j].last_updated,
                            ..ws[j]
                        })
                    } else {
                        self@.wallets[j] == ws[j]
                    },
            decreases self.wallets@.len() - k,
        {
            assert(self@.wallets[k as int] == self.wallets@[k as int]@);
            if self.wallets[k].address == t.from_wallet {
                assert(ws[k as int].address == t@.from_wallet);
                assert(i64::MIN <= ws[k as int].balance - debit_of(t@) <= i64::MAX);
                let mut w = self.wallets[k].snapshot();
                w.balance = (w.balance as i128 - debit) as i64;
                w.last_updated = now;
                let ghost before = self@.wallets;
                self.wallets.set(k, w);
                assert(self@.wallets =~= before.update(k as int, w@));
            }
            k = k + 1;
        }
        assert forall|i: int, j: int|
            0 <= i < self@.wallets.len() && 0 <= j < self@.wallets.len() && i != j implies self@.wallets[i].id
                != self@.wallets[j].id by {
            assert(self@.wallets[i].id == ws[i].id);
            assert(self@.wallets[j].id == ws[j].id);
        }
    }

    /// Sets the status of the first transaction with id `transaction_id`.
    ///
    /// `Confirmed` debits every wallet whose address is the sender's by the
    /// amount plus the fee, each time it is applied. Fails with `NotFound`
    /// when no transaction has the id, and with `Unknown`, changing nothing,
    /// when a debit would leave the balance range.
    pub fn update_transaction_status(
        &mut self,
        transaction_id: u128,
        status: TransactionStatus,
    ) -> (r: Result<Transaction, CryptoNodeError>)
        requires
            old(self).wf(),
        ensures
            final(self).wf(),
            !has_transaction(old(self)@.transactions, transaction_id) ==> r is Err
                && r->Err_0 is NotFound,
            r is Ok <==> has_transaction(old(self)@.transactions, transaction_id) && (status
                != TransactionStatus::Confirmed || debit_fits(
                old(self)@.wallets,
                old(self)@.transactions[tx_index(old(self)@.transactions, transaction_id)],
            )),
            r is Ok ==> status_applied(old(self)@, final(self)@, transaction_id, status)
                && r->Ok_0@ == final(self)@.transactions[tx_index(
                old(self)@.transactions,
                transaction_id,
            )],
            r is Err ==> final(self)@ == old(self)@,
            r is Err ==> r->Err_0 is NotFound || r->Err_0 is Unknown,
    {
        let i = match self.find_transaction(transaction_id) {
            Some(i) => i,
            None => {
                return Err(CryptoNodeError::NotFound("transaction not found".to_string()));
            },
        };
        let ghost txs = self@.transactions;
        assert(txs[i as int] == self.transactions@[i as int]@);
        if status == TransactionStatus::Confirmed {
            if !self.check_debit(&self.transactions[i]) {
                return Err(CryptoNodeError::Unknown("balance out of range".to_string()));
            }
            let t = self.transactions[i].snapshot();
            let now = now_seconds();
            self.apply_debit(&t, now);
        }
        let mut t = self.transactions[i].snapshot();
        t.status = status;
        self.transactions.set(i, t.snapshot());
        assert(self@.transactions =~= txs.update(i as int, TransactionView { status, ..txs[i as int] }));
        Ok(t)
    }

    /// Every transaction that `wallet_address` sends or receives, in log order.
    pub fn get_transaction_history(&self, wallet_address: &str) -> (r: Result<Vec<Transaction>, CryptoNodeError>)
        ensures
            r is Ok,
            r is Ok ==> r->Ok_0@.map_values(|t: Transaction| t@) == history_of(
                self@.transactions,
                wallet_address@,
            ),
    {
        let ghost txs = self@.transactions;
        let ghost pred = |t: TransactionView| t.from_wallet == wallet_address@ || t.to_wallet == wallet_address@;
        let address = wallet_address.to_string();
        let mut out: Vec<Transaction> = Vec::new();
        let mut i: usize = 0;
        while i < self.transactions.len()
            invariant
                i <= self.transactions@.len(),
                address@ == wallet_address@,
                txs == self@.transactions,
                txs.len() == self.transactions@.len(),
                pred == (|t: TransactionView| t.from_wallet == wallet_address@ || t.to_wallet == wallet_address@),
                out@.map_values(|t: Transaction| t@) == txs.subrange(0, i as int).filter(pred),
            decreases self.transactions@.len() - i,
        {
            assert(txs[i as int] == self.transactions@[i as int]@);
            let ghost before = out@;
            let ghost pre = txs.subrange(0, i as int + 1);
            assert(pre.drop_last() =~= txs.subrange(0, i as int));
            assert(pre.last() == txs[i as int]);
            reveal_with_fuel(Seq::filter, 1);
            let from_matches = self.transactions[i].from_wallet == address;
            let to_matches = self.transactions[i].to_wallet == address;
            if from_matches || to_matches {
                let t = self.transactions[i].snapshot();
                out.push(t);
                assert(out@.map_values(|t: Transaction| t@) =~= before.map_values(|t: Transaction| t@).push(t@));
            }
            i = i + 1;
        }
        assert(txs.subrange(0, i as int) =~= txs);
        Ok(out)
    }

    /// Sets the balance of the wallet with this id, stamping it; `NotFound`
    /// when there is none. Any value is accepted.
    pub fn update_wallet_balance(&mut self, wallet_id: u128, new_balance: i64) -> (r: Result<Wallet, CryptoNodeError>)
        requires
            old(self).wf(),
        ensures
            final(self).wf(),
            final(self)@.transactions == old(self)@.transactions,
            r is Ok <==> has_wallet(old(self)@.wallets, wallet_id),
            r is Err ==> r->Err_0 is NotFound && final(self)@ == old(self)@,
            r is Ok ==> {
                let i = wallet_index(old(self)@.wallets, wallet_id);
                &&& r->Ok_0@ == (WalletView {
                    balance: new_balance,
                    last_updated: r->Ok_0@.last_updated,
                    ..old(self)@.wallets[i]
                })
                &&& final(self)@.wallets == old(self)@.wallets.update(i, r->Ok_0@)
            },
    {
        match self.find_wallet(wallet_id) {
            Some(i) => {
                let ghost ws = self@.wallets;
                assert(ws[i as int] == self.wallets@[i as int]@);
                let mut w = self.wallets[i].snapshot();
                w.balance = new_balance;
                w.last_updated = now_seconds();
                self.wallets.set(i, w.snapshot());
                assert(self@.wallets =~= ws.update(i as int, w@));
                Ok(w)
            },
            None => Err(CryptoNodeError::NotFound("wallet not found".to_string())),
        }
    }

    /// Removes the wallet with this id; `NotFound` when there is none. Its
    /// transactions stay in the log.
    pub fn delete_wallet(&mut self, wallet_id: u128) -> (r: Result<(), CryptoNodeError>)
        requires
            old(self).wf(),
        ensures
            final(self).wf(),
            final(self)@.transactions == old(self)@.transactions,
            r is Ok <==> has_wallet(old(self)@.wallets, wallet_id),
            r is Err ==> r->Err_0 is NotFound && final(self)@ == old(self)@,
            r is Ok ==> final(self)@.wallets == old(self)@.wallets.remove(
                wallet_index(old(self)@.wallets, wallet_id),
            ),
    {
        match self.find_wallet(wallet_id) {
            Some(i) => {
                let ghost ws = self@.wallets;
                self.wallets.remove(i);
                assert(self@.wallets =~= ws.remove(i as int));
                Ok(())
            },
            None => Err(CryptoNodeError::NotFound("wallet not found".to_string())),
        }
    }
}

} // verus!
