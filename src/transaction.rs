use crate::amount::{in_range, Amount, MAX_UNITS};
use vstd::prelude::*;

verus! {

/// Identifies a client and its account.
#[derive(Clone, Copy, Debug, PartialEq, Eq, Hash, Structural)]
pub struct ClientId(pub u16);

/// Identifies a transaction across the whole run.
#[derive(Clone, Copy, Debug, PartialEq, Eq, Hash, Structural)]
pub struct TransactionId(pub u32);

/// The five kinds of transaction record.
#[derive(Clone, Copy, Debug, PartialEq, Eq, Structural)]
pub enum TransactionType {
    Deposit,
    Withdrawal,
    Dispute,
    Resolve,
    Chargeback,
}

/// One transaction record; `amount` is present on deposits and withdrawals.
#[derive(Clone, Copy, Debug, PartialEq, Eq, Structural)]
pub struct Transaction {
    pub amount: Option<Amount>,
    pub tx: TransactionId,
    pub client: ClientId,
    pub tx_type: TransactionType,
}

/// Why a transaction was rejected. A rejected transaction changes nothing.
#[derive(Clone, Copy, Debug, PartialEq, Eq, Structural)]
pub enum TransactionError {
    /// A deposit or withdrawal came without an amount.
    MissingAmount,
    /// A deposit or withdrawal was addressed to a locked account.
    AccountLocked,
    /// A deposit or withdrawal reused the identifier of an accepted one.
    DuplicateTransactionId,
    /// A withdrawal asked for more than is available.
    InsufficientFunds,
    /// A dispute, resolve or chargeback named an unknown transaction.
    TransactionNotFound,
    /// The referenced transaction belongs to another client.
    ClientMismatch,
    /// A dispute named a transaction already under dispute.
    AlreadyDisputed,
    /// A resolve or chargeback named a transaction not under dispute.
    NotDisputed,
    /// A balance would leave the range that amounts can represent.
    AmountOutOfRange,
}

/// The balances of one client's account.
#[derive(Clone, Copy, Debug, PartialEq, Eq, Structural)]
pub struct Account {
    pub client: ClientId,
    pub available: Amount,
    pub held: Amount,
    pub total: Amount,
    pub locked: bool,
}

/// The account as it is reported: the client's number and its balances.
#[derive(Clone, Copy, Debug, PartialEq, Eq, Structural)]
pub struct AccountOutput {
    pub client: u16,
    pub available: Amount,
    pub held: Amount,
    pub total: Amount,
    pub locked: bool,
}

impl AccountOutput {
    pub fn new(client: ClientId, account: &Account) -> (r: AccountOutput)
        ensures
            r.client == client.0,
            r.available == account.available,
            r.held == account.held,
            r.total == account.total,
            r.locked == account.locked,
    {
        AccountOutput {
            client: client.0,
            available: account.available,
            held: account.held,
            total: account.total,
            locked: account.locked,
        }
    }
}

impl Account {
    /// Balances in range, and the total the sum of what is available and
    /// what is held.
    pub open spec fn wf(self) -> bool {
        &&& in_range(self.available.units as int)
        &&& in_range(self.held.units as int)
        &&& in_range(self.total.units as int)
        &&& self.total.units == self.available.units + self.held.units
    }

    /// The account with its balances moved by the given differences, where
    /// each new balance stays in range.
    pub open spec fn moved(self, d_available: int, d_held: int, d_total: int) -> Result<
        Account,
        TransactionError,
    > {
        let available = self.available.units + d_available;
        let held = self.held.units + d_held;
        let total = self.total.units + d_total;
        if in_range(available) && in_range(held) && in_range(total) {
            Ok(
                Account {
                    available: Amount { units: available as i128 },
                    held: Amount { units: held as i128 },
                    total: Amount { units: total as i128 },
                    ..self
                },
            )
        } else {
            Err(TransactionError::AmountOutOfRange)
        }
    }

    pub open spec fn spec_deposit(self, amount: int) -> Result<Account, TransactionError> {
        self.moved(amount, 0, amount)
    }

    pub open spec fn spec_withdraw(self, amount: int) -> Result<Account, TransactionError> {
        if self.available.units < amount {
            Err(TransactionError::InsufficientFunds)
        } else {
            self.moved(-amount, 0, -amount)
        }
    }

    pub open spec fn spec_dispute(self, amount: int) -> Result<Account, TransactionError> {
        self.moved(-amount, amount, 0)
    }

    pub open spec fn spec_resolve(self, amount: int) -> Result<Account, TransactionError> {
        self.moved(amount, -amount, 0)
    }

    pub open spec fn spec_chargeback(self, amount: int) -> Result<Account, TransactionError> {
        match self.moved(0, -amount, -amount) {
            Ok(a) => Ok(Account { locked: true, ..a }),
            Err(e) => Err(e),
        }
    }

    /// A fresh account of `client`: all balances zero, not locked.
    pub fn new(client: ClientId) -> (r: Account)
        ensures
            r.client == client,
            r.available.units == 0,
            r.held.units == 0,
            r.total.units == 0,
            !r.locked,
            r.wf(),
    {
        Account {
            client,
            available: Amount::zero(),
            held: Amount::zero(),
            total: Amount::zero(),
            locked: false,
        }
    }

    /// Moves the balances by the given differences, where each new balance
    /// stays in range.
    fn shift(&mut self, d_available: i128, d_held: i128, d_total: i128) -> (r: Result<
        (),
        TransactionError,
    >)
        requires
            old(self).wf(),
            -2 * MAX_UNITS <= d_available <= 2 * MAX_UNITS,
            -2 * MAX_UNITS <= d_held <= 2 * MAX_UNITS,
            d_total == d_available + d_held,
        ensures
            match old(self).moved(d_available as int, d_held as int, d_total as int) {
                Ok(acc) => r is Ok && *final(self) == acc,
                Err(e) => r == Err::<(), TransactionError>(e) && *final(self) == *old(self),
            },
            final(self).wf(),
    {
        let available = self.available.units + d_available;
        let held = self.held.units + d_held;
        let total = self.total.units + d_total;
        if available < -MAX_UNITS || available > MAX_UNITS || held < -MAX_UNITS || held > MAX_UNITS
            || total < -MAX_UNITS || total > MAX_UNITS {
            return Err(TransactionError::AmountOutOfRange);
        }
        self.available = Amount::from_units(available);
        self.held = Amount::from_units(held);
        self.total = Amount::from_units(total);
        Ok(())
    }

    /// Whether `amount` is so large that adding it to or taking it from a
    /// balance in range always leaves the range.
    fn beyond_any_move(amount: Amount) -> (r: bool)
        ensures
            r == (amount.units < -2 * MAX_UNITS || amount.units > 2 * MAX_UNITS),
    {
        amount.units < -2 * MAX_UNITS || amount.units > 2 * MAX_UNITS
    }

    /// Adds `amount` to what is available and to the total.
    pub fn deposit(&mut self, amount: Amount) -> (r: Result<(), TransactionError>)
        requires
            old(self).wf(),
        ensures
            match old(self).spec_deposit(amount.units as int) {
                Ok(acc) => r is Ok && *final(self) == acc,
                Err(e) => r == Err::<(), TransactionError>(e) && *final(self) == *old(self),
            },
            final(self).wf(),
    {
        if Account::beyond_any_move(amount) {
            return Err(TransactionError::AmountOutOfRange);
        }
        self.shift(amount.units, 0, amount.units)
    }

    /// Takes `amount` from what is available and from the total, where that
    /// much is available.
    pub fn withdraw(&mut self, amount: Amount) -> (r: Result<(), TransactionError>)
        requires
            old(self).wf(),
        ensures
            match old(self).spec_withdraw(amount.units as int) {
                Ok(acc) => r is Ok && *final(self) == acc,
                Err(e) => r == Err::<(), TransactionError>(e) && *final(self) == *old(self),
            },
            final(self).wf(),
    {
        if self.available.units < amount.units {
            return Err(TransactionError::InsufficientFunds);
        }
        if Account::beyond_any_move(amount) {
            return Err(TransactionError::AmountOutOfRange);
        }
        self.shift(-amount.units, 0, -amount.units)
    }

    /// Moves `amount` from what is available to what is held.
    pub fn dispute(&mut self, amount: Amount) -> (r: Result<(), TransactionError>)
        requires
            old(self).wf(),
        ensures
            match old(self).spec_dispute(amount.units as int) {
                Ok(acc) => r is Ok && *final(self) == acc,
                Err(e) => r == Err::<(), TransactionError>(e) && *final(self) == *old(self),
            },
            final(self).wf(),
    {
        if Account::beyond_any_move(amount) {
            return Err(TransactionError::AmountOutOfRange);
        }
        self.shift(-amount.units, amount.units, 0)
    }

    /// Moves `amount` from what is held back to what is available.
    pub fn resolve(&mut self, amount: Amount) -> (r: Result<(), TransactionError>)
        requires
            old(self).wf(),
        ensures
            match old(self).spec_resolve(amount.units as int) {
                Ok(acc) => r is Ok && *final(self) == acc,
                Err(e) => r == Err::<(), TransactionError>(e) && *final(self) == *old(self),
            },
            final(self).wf(),
    {
        if Account::beyond_any_move(amount) {
            return Err(TransactionError::AmountOutOfRange);
        }
        self.shift(amount.units, -amount.units, 0)
    }

    /// Takes `amount` out of what is held and out of the total, and locks
    /// the account.
    pub fn chargeback(&mut self, amount: Amount) -> (r: Result<(), TransactionError>)
        requires
            old(self).wf(),
        ensures
            match old(self).spec_chargeback(amount.units as int) {
                Ok(acc) => r is Ok && *final(self) == acc,
                Err(e) => r == Err::<(), TransactionError>(e) && *final(self) == *old(self),
            },
            final(self).wf(),
    {
        if Account::beyond_any_move(amount) {
            return Err(TransactionError::AmountOutOfRange);
        }
        let r = self.shift(0, -amount.units, -amount.units);
        if r.is_ok() {
            self.locked = true;
        }
        r
    }
}

} // verus!
