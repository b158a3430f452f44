//! A ledger engine that replays deposits, withdrawals and the dispute protocol
//! (dispute, resolve, chargeback) against client accounts held in exact
//! fixed-point amounts.
pub mod amount;
pub mod transaction;
pub mod engine;
pub mod laws;

use engine::{lists_accounts, Ledger, TransactionEngine};
use transaction::{Account, Transaction};
use vstd::prelude::*;

verus! {

/// Applies each transaction in turn to a fresh engine, passing over the
/// rejected ones, and returns the final accounts.
pub fn process_batch(transactions: Vec<Transaction>) -> (r: Vec<Account>)
    ensures
        lists_accounts(r@, Ledger::empty().replay(transactions@)),
{
    let mut engine = TransactionEngine::new();
    let mut i: usize = 0;
    assert(transactions@.skip(0) =~= transactions@);
    while i < transactions.len()
        invariant
            engine.wf(),
            i <= transactions@.len(),
            Ledger::empty().replay(transactions@) == engine@.replay(transactions@.skip(i as int)),
        decreases transactions@.len() - i,
    {
        let t = transactions[i];
        let _ = engine.process(t);
        assert(transactions@.skip(i as int).drop_first() =~= transactions@.skip(i + 1));
        assert(transactions@.skip(i as int)[0] == t);
        i = i + 1;
    }
    assert(transactions@.skip(i as int) =~= Seq::<Transaction>::empty());
    engine.get_accounts()
}

} // verus!
