use crate::amount::{in_range, Amount};
use crate::engine::Ledger;
use crate::transaction::{ClientId, Transaction, TransactionError, TransactionId, TransactionType};
use vstd::prelude::*;

verus! {

/// A deposit or withdrawal record.
pub open spec fn monetary(kind: TransactionType, client: ClientId, tx: TransactionId, amount: Amount) -> Transaction {
    Transaction { amount: Some(amount), tx, client, tx_type: kind }
}

/// A dispute, resolve or chargeback record.
pub open spec fn reference(kind: TransactionType, client: ClientId, tx: TransactionId) -> Transaction {
    Transaction { amount: None, tx, client, tx_type: kind }
}

/// Every account of a well-formed ledger has a total equal to what is
/// available plus what is held.
pub open spec fn balanced(l: Ledger) -> bool {
    forall|c: u16| #[trigger]
        l.accounts.contains_key(c) ==> l.accounts[c].total.units == l.accounts[c].available.units
            + l.accounts[c].held.units
}

/// An accepted transaction keeps the ledger well formed, so every account
/// keeps `total == available + held`.
pub proof fn lemma_step_keeps_wf(l: Ledger, t: Transaction)
    requires
        l.wf(),
    ensures
        l.step(t) is Ok ==> l.step(t)->Ok_0.wf() && balanced(l.step(t)->Ok_0),
{
    if let Ok(n) = l.step(t) {
        assert forall|c: u16| #[trigger] n.accounts.contains_key(c) implies n.accounts[c].wf()
            && n.accounts[c].client.0 == c by {
            if c != t.client.0 {
                assert(l.accounts.contains_key(c));
            }
        }
        assert forall|id: u32| #[trigger] n.transactions.contains_key(id) implies n.accounts.contains_key(
            n.transactions[id].client,
        ) by {
            if id != t.tx.0 {
                assert(l.transactions.contains_key(id));
            }
        }
    }
}

/// After any sequence of transactions applied to a well-formed ledger, every
/// account has `total == available + held`.
pub proof fn lemma_replay_keeps_balances(l: Ledger, ts: Seq<Transaction>)
    requires
        l.wf(),
    ensures
        l.replay(ts).wf(),
        balanced(l.replay(ts)),
    decreases ts.len(),
{
    if ts.len() > 0 {
        lemma_step_keeps_wf(l, ts[0]);
        let next = match l.step(ts[0]) {
            Ok(n) => n,
            Err(_) => l,
        };
        lemma_replay_keeps_balances(next, ts.drop_first());
    } else {
        assert forall|c: u16| #[trigger] l.accounts.contains_key(c) implies l.accounts[c].total.units
            == l.accounts[c].available.units + l.accounts[c].held.units by {
            assert(l.accounts[c].wf());
        }
    }
}

/// Depositing an amount into a fresh account and then withdrawing the same
/// amount both succeed and leave the account at zero.
pub proof fn lemma_deposit_then_withdraw(
    l: Ledger,
    client: ClientId,
    first: TransactionId,
    second: TransactionId,
    amount: Amount,
)
    requires
        l.wf(),
        !l.accounts.contains_key(client.0),
        !l.transactions.contains_key(first.0),
        !l.transactions.contains_key(second.0),
        first != second,
        in_range(amount.units as int),
    ensures
        ({
            let d = monetary(TransactionType::Deposit, client, first, amount);
            let w = monetary(TransactionType::Withdrawal, client, second, amount);
            &&& l.step(d) is Ok
            &&& l.step(d)->Ok_0.step(w) is Ok
            &&& {
                let acc = l.step(d)->Ok_0.step(w)->Ok_0.accounts[client.0];
                &&& acc.available.units == 0
                &&& acc.held.units == 0
                &&& acc.total.units == 0
            }
        }),
{
}

/// A withdrawal of more than is available is rejected, and so changes
/// nothing; where the account is not locked and the identifier is new, the
/// reason is `InsufficientFunds`.
pub proof fn lemma_overdraw_rejected(l: Ledger, client: ClientId, tx: TransactionId, amount: Amount)
    requires
        l.wf(),
        amount.units > l.account_of(client).available.units,
    ensures
        ({
            let w = monetary(TransactionType::Withdrawal, client, tx, amount);
            &&& l.step(w) is Err
            &&& !l.account_of(client).locked && !l.transactions.contains_key(tx.0) ==> l.step(w)
                == Err::<Ledger, TransactionError>(TransactionError::InsufficientFunds)
        }),
{
}

/// A dispute followed by a resolve of the same transaction brings the ledger
/// back to where it was before the dispute.
pub proof fn lemma_dispute_resolve_round_trip(l: Ledger, client: ClientId, tx: TransactionId)
    requires
        l.wf(),
        l.step(reference(TransactionType::Dispute, client, tx)) is Ok,
    ensures
        ({
            let disputed = l.step(reference(TransactionType::Dispute, client, tx))->Ok_0;
            &&& disputed.step(reference(TransactionType::Resolve, client, tx)) is Ok
            &&& disputed.step(reference(TransactionType::Resolve, client, tx))->Ok_0 == l
        }),
{
    let disputed = l.step(reference(TransactionType::Dispute, client, tx))->Ok_0;
    let back = disputed.step(reference(TransactionType::Resolve, client, tx))->Ok_0;
    assert(back.accounts =~= l.accounts);
    assert(back.transactions =~= l.transactions);
}

/// A dispute followed by a chargeback locks the account and takes the
/// disputed amount out of its total, where the lower total stays in range.
pub proof fn lemma_dispute_chargeback_locks(l: Ledger, client: ClientId, tx: TransactionId)
    requires
        l.wf(),
        l.step(reference(TransactionType::Dispute, client, tx)) is Ok,
        in_range(l.accounts[client.0].total.units - l.transactions[tx.0].amount.units),
    ensures
        ({
            let disputed = l.step(reference(TransactionType::Dispute, client, tx))->Ok_0;
            let charged = disputed.step(reference(TransactionType::Chargeback, client, tx));
            &&& charged is Ok
            &&& charged->Ok_0.accounts[client.0].locked
            &&& charged->Ok_0.accounts[client.0].total.units == l.accounts[client.0].total.units
                - l.transactions[tx.0].amount.units
        }),
{
}

/// Once locked, an account stays locked whatever transactions follow.
pub proof fn lemma_lock_is_permanent(l: Ledger, ts: Seq<Transaction>, client: ClientId)
    requires
        l.wf(),
        l.accounts.contains_key(client.0),
        l.accounts[client.0].locked,
    ensures
        l.replay(ts).accounts.contains_key(client.0),
        l.replay(ts).accounts[client.0].locked,
    decreases ts.len(),
{
    if ts.len() > 0 {
        lemma_step_keeps_wf(l, ts[0]);
        let next = match l.step(ts[0]) {
            Ok(n) => n,
            Err(_) => l,
        };
        lemma_lock_is_permanent(next, ts.drop_first(), client);
    }
}

/// A deposit or withdrawal that carries an amount is rejected with
/// `AccountLocked` when its account is locked.
pub proof fn lemma_locked_rejects(l: Ledger, kind: TransactionType, client: ClientId, tx: TransactionId, amount: Amount)
    requires
        kind == TransactionType::Deposit || kind == TransactionType::Withdrawal,
        l.accounts.contains_key(client.0),
        l.accounts[client.0].locked,
    ensures
        l.step(monetary(kind, client, tx, amount)) == Err::<Ledger, TransactionError>(
            TransactionError::AccountLocked,
        ),
{
}

/// After a dispute and a chargeback, every later deposit or withdrawal on
/// that account that carries an amount is rejected with `AccountLocked`,
/// whatever transactions came between.
pub proof fn lemma_chargeback_blocks_later_moves(
    l: Ledger,
    client: ClientId,
    tx: TransactionId,
    between: Seq<Transaction>,
    kind: TransactionType,
    later: TransactionId,
    amount: Amount,
)
    requires
        l.wf(),
        l.step(reference(TransactionType::Dispute, client, tx)) is Ok,
        l.step(reference(TransactionType::Dispute, client, tx))->Ok_0.step(
            reference(TransactionType::Chargeback, client, tx),
        ) is Ok,
        kind == TransactionType::Deposit || kind == TransactionType::Withdrawal,
    ensures
        ({
            let charged = l.step(reference(TransactionType::Dispute, client, tx))->Ok_0.step(
                reference(TransactionType::Chargeback, client, tx),
            )->Ok_0;
            charged.replay(between).step(monetary(kind, client, later, amount)) == Err::<
                Ledger,
                TransactionError,
            >(TransactionError::AccountLocked)
        }),
{
    let disputed = l.step(reference(TransactionType::Dispute, client, tx))->Ok_0;
    lemma_step_keeps_wf(l, reference(TransactionType::Dispute, client, tx));
    let charged = disputed.step(reference(TransactionType::Chargeback, client, tx))->Ok_0;
    lemma_step_keeps_wf(disputed, reference(TransactionType::Chargeback, client, tx));
    lemma_lock_is_permanent(charged, between, client);
    lemma_locked_rejects(charged.replay(between), kind, client, later, amount);
}

/// A deposit or withdrawal that reuses the identifier of an accepted one is
/// rejected, and so changes nothing; where it carries an amount and its
/// account is not locked, the reason is `DuplicateTransactionId`.
pub proof fn lemma_duplicate_id_rejected(l: Ledger, kind: TransactionType, client: ClientId, tx: TransactionId, amount: Option<Amount>)
    requires
        kind == TransactionType::Deposit || kind == TransactionType::Withdrawal,
        l.transactions.contains_key(tx.0),
    ensures
        ({
            let t = Transaction { amount, tx, client, tx_type: kind };
            &&& l.step(t) is Err
            &&& amount is Some && !l.account_of(client).locked ==> l.step(t) == Err::<
                Ledger,
                TransactionError,
            >(TransactionError::DuplicateTransactionId)
        }),
{
}

} // verus!
