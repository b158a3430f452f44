use crate::amount::Amount;
use crate::transaction::{
    Account, AccountOutput, ClientId, Transaction, TransactionError, TransactionType,
};
use std::collections::HashMap;
use vstd::prelude::*;

verus! {

broadcast use vstd::std_specs::hash::group_hash_axioms;

/// An accepted deposit or withdrawal, kept so that it can be disputed later
/// and so that its identifier is never accepted twice.
#[derive(Clone, Copy, Debug, PartialEq, Eq, Structural)]
pub struct StoredTransaction {
    pub amount: Amount,
    pub client: u16,
    pub disputed: bool,
}

/// The state of the ledger: the accounts by client number and the accepted
/// deposits and withdrawals by transaction identifier.
pub struct Ledger {
    pub accounts: Map<u16, Account>,
    pub transactions: Map<u32, StoredTransaction>,
}

/// An account that has seen no transaction yet.
pub open spec fn fresh_account(client: ClientId) -> Account {
    Account {
        client,
        available: Amount { units: 0 },
        held: Amount { units: 0 },
        total: Amount { units: 0 },
        locked: false,
    }
}

impl Ledger {
    /// The ledger before any transaction.
    pub open spec fn empty() -> Ledger {
        Ledger { accounts: Map::empty(), transactions: Map::empty() }
    }

    /// Every account well formed and filed under its own client, and every
    /// stored transaction owned by a client that has an account.
    pub open spec fn wf(self) -> bool {
        &&& forall|c: u16| #[trigger]
            self.accounts.contains_key(c) ==> self.accounts[c].wf() && self.accounts[c].client.0
                == c
        &&& forall|id: u32| #[trigger]
            self.transactions.contains_key(id) ==> self.accounts.contains_key(
                self.transactions[id].client,
            )
    }

    /// The account of `client`, or a fresh one where it has none yet.
    pub open spec fn account_of(self, client: ClientId) -> Account {
        if self.accounts.contains_key(client.0) {
            self.accounts[client.0]
        } else {
            fresh_account(client)
        }
    }

    /// A deposit or withdrawal of `amount`, whose effect on the account is
    /// `moved`, once the account and the identifier have been checked. An
    /// identifier already taken by an accepted deposit or withdrawal is
    /// always refused, never overwritten.
    pub open spec fn store(
        self,
        t: Transaction,
        amount: Amount,
        moved: Result<Account, TransactionError>,
    ) -> Result<Ledger, TransactionError> {
        if self.account_of(t.client).locked {
            Err(TransactionError::AccountLocked)
        } else if self.transactions.contains_key(t.tx.0) {
            Err(TransactionError::DuplicateTransactionId)
        } else {
            match moved {
                Ok(acc) => Ok(
                    Ledger {
                        accounts: self.accounts.insert(t.client.0, acc),
                        transactions: self.transactions.insert(
                            t.tx.0,
                            StoredTransaction { amount, client: t.client.0, disputed: false },
                        ),
                    },
                ),
                Err(e) => Err(e),
            }
        }
    }

    /// The stored transaction that a dispute, resolve or chargeback names,
    /// checked to exist and to belong to the named client.
    pub open spec fn referenced(self, t: Transaction) -> Result<StoredTransaction, TransactionError> {
        if !self.transactions.contains_key(t.tx.0) {
            Err(TransactionError::TransactionNotFound)
        } else if self.transactions[t.tx.0].client != t.client.0 {
            Err(TransactionError::ClientMismatch)
        } else {
            Ok(self.transactions[t.tx.0])
        }
    }

    /// A dispute, resolve or chargeback whose effect on the account is
    /// `moved`, and which leaves the stored transaction with `disputed`.
    pub open spec fn settle(
        self,
        t: Transaction,
        stored: StoredTransaction,
        moved: Result<Account, TransactionError>,
        disputed: bool,
    ) -> Result<Ledger, TransactionError> {
        match moved {
            Ok(acc) => Ok(
                Ledger {
                    accounts: self.accounts.insert(t.client.0, acc),
                    transactions: self.transactions.insert(
                        t.tx.0,
                        StoredTransaction { disputed, ..stored },
                    ),
                },
            ),
            Err(e) => Err(e),
        }
    }

    /// The ledger after `t`, or the reason `t` is rejected. A chargeback
    /// clears the dispute mark of its transaction, so that the transaction
    /// cannot be resolved or charged back a second time.
    pub open spec fn step(self, t: Transaction) -> Result<Ledger, TransactionError> {
        match t.tx_type {
            TransactionType::Deposit => match t.amount {
                None => Err(TransactionError::MissingAmount),
                Some(a) => self.store(t, a, self.account_of(t.client).spec_deposit(a.units as int)),
            },
            TransactionType::Withdrawal => match t.amount {
                None => Err(TransactionError::MissingAmount),
                Some(a) => self.store(t, a, self.account_of(t.client).spec_withdraw(a.units as int)),
            },
            TransactionType::Dispute => match self.referenced(t) {
                Err(e) => Err(e),
                Ok(s) => if s.disputed {
                    Err(TransactionError::AlreadyDisputed)
                } else {
                    self.settle(t, s, self.accounts[t.client.0].spec_dispute(s.amount.units as int), true)
                },
            },
            TransactionType::Resolve => match self.referenced(t) {
                Err(e) => Err(e),
                Ok(s) => if !s.disputed {
                    Err(TransactionError::NotDisputed)
                } else {
                    self.settle(t, s, self.accounts[t.client.0].spec_resolve(s.amount.units as int), false)
                },
            },
            TransactionType::Chargeback => match self.referenced(t) {
                Err(e) => Err(e),
                Ok(s) => if !s.disputed {
                    Err(TransactionError::NotDisputed)
                } else {
                    self.settle(
                        t,
                        s,
                        self.accounts[t.client.0].spec_chargeback(s.amount.units as int),
                        false,
                    )
                },
            },
        }
    }

    /// The ledger after each transaction of `ts` in turn; a rejected one
    /// leaves it as it was.
    pub open spec fn replay(self, ts: Seq<Transaction>) -> Ledger
        decreases ts.len(),
    {
        if ts.len() == 0 {
            self
        } else {
            let next = match self.step(ts[0]) {
                Ok(l) => l,
                Err(_) => self,
            };
            next.replay(ts.drop_first())
        }
    }
}

/// What applying `t` to `before` must do: reach `step`'s ledger and report
/// success, or report `step`'s reason and change nothing.
pub open spec fn applied(
    before: Ledger,
    t: Transaction,
    after: Ledger,
    r: Result<(), TransactionError>,
) -> bool {
    match before.step(t) {
        Ok(l) => r is Ok && after == l,
        Err(e) => r == Err::<(), TransactionError>(e) && after == before,
    }
}

/// Whether `accounts` lists each account of `ledger` exactly once.
pub open spec fn lists_accounts(accounts: Seq<Account>, ledger: Ledger) -> bool {
    &&& forall|i: int|
        0 <= i < accounts.len() ==> ledger.accounts.contains_key(#[trigger] accounts[i].client.0)
            && ledger.accounts[accounts[i].client.0] == accounts[i]
    &&& forall|c: u16|
        ledger.accounts.contains_key(c) ==> exists|i: int|
            0 <= i < accounts.len() && #[trigger] accounts[i].client.0 == c
    &&& forall|i: int, j: int|
        0 <= i < accounts.len() && 0 <= j < accounts.len() && i != j ==> accounts[i].client
            != accounts[j].client
}

/// The ledger engine: owns every account and every accepted deposit and
/// withdrawal, and applies one transaction at a time.
pub struct TransactionEngine {
    accounts: HashMap<u16, Account>,
    transactions: HashMap<u32, StoredTransaction>,
    clients: Vec<u16>,
}

impl View for TransactionEngine {
    type V = Ledger;

    closed spec fn view(&self) -> Ledger {
        Ledger { accounts: self.accounts@, transactions: self.transactions@ }
    }
}

impl TransactionEngine {
    /// The ledger is well formed, and `clients` lists each client that has
    /// an account once, in the order they were first accepted.
    pub closed spec fn wf(&self) -> bool {
        &&& self@.wf()
        &&& self.clients@.no_duplicates()
        &&& forall|c: u16| self.accounts@.contains_key(c) <==> #[trigger] self.clients@.contains(c)
    }

    /// An engine with no accounts and no transactions.
    pub fn new() -> (r: TransactionEngine)
        ensures
            r.wf(),
            r@ == Ledger::empty(),
    {
        let r = TransactionEngine {
            accounts: HashMap::new(),
            transactions: HashMap::new(),
            clients: Vec::new(),
        };
        assert(r@.accounts =~= Map::empty());
        assert(r@.transactions =~= Map::empty());
        r
    }

    /// Applies one transaction: changes the ledger as `step` says, or
    /// rejects the transaction and changes nothing.
    pub fn process(&mut self, transaction: Transaction) -> (r: Result<(), TransactionError>)
        requires
            old(self).wf(),
        ensures
            final(self).wf(),
            applied(old(self)@, transaction, final(self)@, r),
    {
        match transaction.tx_type {
            TransactionType::Deposit => self.process_deposit(transaction),
            TransactionType::Withdrawal => self.process_withdrawal(transaction),
            TransactionType::Dispute => self.process_dispute(transaction),
            TransactionType::Resolve => self.process_resolve(transaction),
            TransactionType::Chargeback => self.process_chargeback(transaction),
        }
    }

    /// Every account, each once, in the order their clients first appeared.
    pub fn get_accounts(&self) -> (r: Vec<Account>)
        requires
            self.wf(),
        ensures
            lists_accounts(r@, self@),
    {
        let mut r: Vec<Account> = Vec::new();
        let mut i: usize = 0;
        while i < self.clients.len()
            invariant
                self.wf(),
                i <= self.clients@.len(),
                r@.len() == i,
                forall|j: int|
                    0 <= j < i ==> r@[j].client.0 == self.clients@[j] && self@.accounts.contains_key(
                        self.clients@[j],
                    ) && #[trigger] r@[j] == self@.accounts[self.clients@[j]],
            decreases self.clients@.len() - i,
        {
            let c = self.clients[i];
            assert(self.clients@.contains(c));
            assert(self@.accounts.contains_key(c));
            assert(self@.accounts[c].client.0 == c);
            match self.accounts.get(&c) {
                Some(a) => r.push(*a),
                None => {},
            }
            assert(r@[i as int] == self@.accounts[c]);
            i = i + 1;
        }
        assert forall|c: u16| self@.accounts.contains_key(c) implies exists|k: int|
            0 <= k < r@.len() && #[trigger] r@[k].client.0 == c by {
            assert(self.clients@.contains(c));
            let k = choose|k: int| 0 <= k < self.clients@.len() && self.clients@[k] == c;
            assert(r@[k].client.0 == c);
        }
        r
    }

    /// The account of `client`, or a fresh one where it has none yet.
    fn account_of(&self, client: ClientId) -> (r: Account)
        requires
            self.wf(),
        ensures
            r == self@.account_of(client),
            r.wf(),
            r.client == client,
    {
        match self.accounts.get(&client.0) {
            Some(a) => *a,
            None => Account::new(client),
        }
    }

    /// Files `account` under its client, listing the client if it is new.
    fn put_account(&mut self, account: Account)
        requires
            old(self).wf(),
            account.wf(),
        ensures
            final(self)@.accounts == old(self)@.accounts.insert(account.client.0, account),
            final(self)@.transactions == old(self)@.transactions,
            final(self).clients@.no_duplicates(),
            forall|c: u16|
                final(self).accounts@.contains_key(c) <==> #[trigger] final(self).clients@.contains(
                    c,
                ),
    {
        let c = account.client.0;
        if !self.accounts.contains_key(&c) {
            assert(!self.clients@.contains(c));
            self.clients.push(c);
            assert(self.clients@.no_duplicates()) by {
                assert forall|i: int, j: int|
                    0 <= i < self.clients@.len() && 0 <= j < self.clients@.len() && i != j
                        implies self.clients@[i] != self.clients@[j] by {
                    if i == self.clients@.len() - 1 {
                        assert(old(self).clients@.contains(self.clients@[j]));
                    } else if j == self.clients@.len() - 1 {
                        assert(old(self).clients@.contains(self.clients@[i]));
                    }
                }
            }
            assert(forall|c2: u16| #[trigger] self.clients@.contains(c2) <==> (old(self).clients@.contains(c2) || c2 == c)) by {
                assert(forall|i: int| 0 <= i < old(self).clients@.len() ==> self.clients@[i] == old(self).clients@[i]);
                assert(self.clients@[self.clients@.len() - 1] == c);
            }
        }
        self.accounts.insert(c, account);
    }

    /// Records an accepted deposit or withdrawal under its identifier.
    fn put_transaction(&mut self, id: u32, stored: StoredTransaction)
        requires
            old(self).wf(),
            old(self)@.accounts.contains_key(stored.client),
        ensures
            final(self)@.accounts == old(self)@.accounts,
            final(self)@.transactions == old(self)@.transactions.insert(id, stored),
            final(self).wf(),
    {
        self.transactions.insert(id, stored);
        assert forall|k: u32| #[trigger] self@.transactions.contains_key(k) implies self@.accounts.contains_key(
            self@.transactions[k].client,
        ) by {
            if k != id {
                assert(old(self)@.transactions.contains_key(k));
            }
        }
    }

    fn process_deposit(&mut self, tx: Transaction) -> (r: Result<(), TransactionError>)
        requires
            old(self).wf(),
            tx.tx_type == TransactionType::Deposit,
        ensures
            final(self).wf(),
            applied(old(self)@, tx, final(self)@, r),
    {
        let amount = match tx.amount {
            Some(a) => a,
            None => return Err(TransactionError::MissingAmount),
        };
        let mut account = self.account_of(tx.client);
        if account.locked {
            return Err(TransactionError::AccountLocked);
        }
        if self.transactions.contains_key(&tx.tx.0) {
            return Err(TransactionError::DuplicateTransactionId);
        }
        match account.deposit(amount) {
            Ok(()) => {},
            Err(e) => return Err(e),
        }
        self.put_account(account);
        self.put_transaction(
            tx.tx.0,
            StoredTransaction { client: tx.client.0, amount, disputed: false },
        );
        Ok(())
    }

    fn process_withdrawal(&mut self, tx: Transaction) -> (r: Result<(), TransactionError>)
        requires
            old(self).wf(),
            tx.tx_type == TransactionType::Withdrawal,
        ensures
            final(self).wf(),
            applied(old(self)@, tx, final(self)@, r),
    {
        let amount = match tx.amount {
            Some(a) => a,
            None => return Err(TransactionError::MissingAmount),
        };
        let mut account = self.account_of(tx.client);
        if account.locked {
            return Err(TransactionError::AccountLocked);
        }
        if self.transactions.contains_key(&tx.tx.0) {
            return Err(TransactionError::DuplicateTransactionId);
        }
        match account.withdraw(amount) {
            Ok(()) => {},
            Err(e) => return Err(e),
        }
        self.put_account(account);
        self.put_transaction(
            tx.tx.0,
            StoredTransaction { client: tx.client.0, amount, disputed: false },
        );
        Ok(())
    }

    /// The stored transaction that `tx` names, checked to exist and to belong
    /// to the client that `tx` names, with that client's account.
    fn referenced(&self, tx: Transaction) -> (r: Result<(StoredTransaction, Account), TransactionError>)
        requires
            self.wf(),
        ensures
            match self@.referenced(tx) {
                Ok(s) => self@.accounts.contains_key(tx.client.0) && r == Ok::<
                    (StoredTransaction, Account),
                    TransactionError,
                >((s, self@.accounts[tx.client.0])),
                Err(e) => r == Err::<(StoredTransaction, Account), TransactionError>(e),
            },
    {
        let stored = match self.transactions.get(&tx.tx.0) {
            Some(s) => *s,
            None => return Err(TransactionError::TransactionNotFound),
        };
        if stored.client != tx.client.0 {
            return Err(TransactionError::ClientMismatch);
        }
        match self.accounts.get(&tx.client.0) {
            Some(a) => Ok((stored, *a)),
            None => Err(TransactionError::TransactionNotFound),
        }
    }

    /// Writes back an account and a stored transaction after a dispute,
    /// resolve or chargeback.
    fn put_settled(&mut self, id: u32, stored: StoredTransaction, account: Account)
        requires
            old(self).wf(),
            account.wf(),
            old(self)@.accounts.contains_key(account.client.0),
            stored.client == account.client.0,
        ensures
            final(self)@.accounts == old(self)@.accounts.insert(account.client.0, account),
            final(self)@.transactions == old(self)@.transactions.insert(id, stored),
            final(self).wf(),
    {
        self.put_account(account);
        self.put_transaction(id, stored);
    }

    fn process_dispute(&mut self, tx: Transaction) -> (r: Result<(), TransactionError>)
        requires
            old(self).wf(),
            tx.tx_type == TransactionType::Dispute,
        ensures
            final(self).wf(),
            applied(old(self)@, tx, final(self)@, r),
    {
        let (stored, mut account) = match self.referenced(tx) {
            Ok(p) => p,
            Err(e) => return Err(e),
        };
        if stored.disputed {
            return Err(TransactionError::AlreadyDisputed);
        }
        match account.dispute(stored.amount) {
            Ok(()) => {},
            Err(e) => return Err(e),
        }
        self.put_settled(tx.tx.0, StoredTransaction { disputed: true, ..stored }, account);
        Ok(())
    }

    fn process_resolve(&mut self, tx: Transaction) -> (r: Result<(), TransactionError>)
        requires
            old(self).wf(),
            tx.tx_type == TransactionType::Resolve,
        ensures
            final(self).wf(),
            applied(old(self)@, tx, final(self)@, r),
    {
        let (stored, mut account) = match self.referenced(tx) {
            Ok(p) => p,
            Err(e) => return Err(e),
        };
        if !stored.disputed {
            return Err(TransactionError::NotDisputed);
        }
        match account.resolve(stored.amount) {
            Ok(()) => {},
            Err(e) => return Err(e),
        }
        self.put_settled(tx.tx.0, StoredTransaction { disputed: false, ..stored }, account);
        Ok(())
    }

    fn process_chargeback(&mut self, tx: Transaction) -> (r: Result<(), TransactionError>)
        requires
            old(self).wf(),
            tx.tx_type == TransactionType::Chargeback,
        ensures
            final(self).wf(),
            applied(old(self)@, tx, final(self)@, r),
    {
        let (stored, mut account) = match self.referenced(tx) {
            Ok(p) => p,
            Err(e) => return Err(e),
        };
        if !stored.disputed {
            return Err(TransactionError::NotDisputed);
        }
        match account.chargeback(stored.amount) {
            Ok(()) => {},
            Err(e) => return Err(e),
        }
        self.put_settled(tx.tx.0, StoredTransaction { disputed: false, ..stored }, account);
        Ok(())
    }
}

} // verus!
