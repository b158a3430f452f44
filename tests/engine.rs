use transaction_processor::amount::Amount;
use transaction_processor::engine::TransactionEngine;
use transaction_processor::process_batch;
use transaction_processor::transaction::{
    Account, AccountOutput, ClientId, Transaction, TransactionError, TransactionId,
    TransactionType,
};

fn dec(num: i128, scale: u32) -> Amount {
    Amount::from_decimal_parts(num, scale).unwrap()
}

fn record(kind: TransactionType, client: u16, tx: u32, amount: Option<Amount>) -> Transaction {
    Transaction { tx_type: kind, client: ClientId(client), tx: TransactionId(tx), amount }
}

fn account_of(engine: &TransactionEngine, client: u16) -> Account {
    *engine.get_accounts().iter().find(|a| a.client == ClientId(client)).unwrap()
}

#[test]
fn test_deposit() {
    let mut engine = TransactionEngine::new();

    let tx = Transaction {
        tx_type: TransactionType::Deposit,
        client: ClientId(1),
        tx: TransactionId(1),
        amount: Some(dec(100, 1)),
    };

    engine.process(tx).unwrap();

    let accounts = engine.get_accounts();
    assert_eq!(accounts.len(), 1);
    assert_eq!(accounts[0].available, dec(100, 1));
    assert_eq!(accounts[0].total, dec(100, 1));
}

#[test]
fn test_withdrawal() {
    let mut engine = TransactionEngine::new();

    engine.process(record(TransactionType::Deposit, 1, 1, Some(dec(100, 1)))).unwrap();
    engine.process(record(TransactionType::Withdrawal, 1, 2, Some(dec(50, 1)))).unwrap();

    let accounts = engine.get_accounts();
    assert_eq!(accounts[0].available, dec(50, 1));
    assert_eq!(accounts[0].total, dec(50, 1));
}

#[test]
fn test_insufficient_funds() {
    let mut engine = TransactionEngine::new();

    engine.process(record(TransactionType::Deposit, 1, 1, Some(dec(50, 1)))).unwrap();

    let result = engine.process(record(TransactionType::Withdrawal, 1, 2, Some(dec(100, 1))));

    assert!(result.is_err());
}

#[test]
fn test_dispute_resolve() {
    let mut engine = TransactionEngine::new();

    engine.process(record(TransactionType::Deposit, 1, 1, Some(dec(100, 1)))).unwrap();
    engine.process(record(TransactionType::Dispute, 1, 1, None)).unwrap();

    let accounts = engine.get_accounts();
    assert_eq!(accounts[0].available, Amount::zero());
    assert_eq!(accounts[0].held, dec(100, 1));
    assert_eq!(accounts[0].total, dec(100, 1));

    engine.process(record(TransactionType::Resolve, 1, 1, None)).unwrap();

    let accounts = engine.get_accounts();
    assert_eq!(accounts[0].available, dec(100, 1));
    assert_eq!(accounts[0].held, Amount::zero());
}

#[test]
fn test_chargeback() {
    let mut engine = TransactionEngine::new();

    engine.process(record(TransactionType::Deposit, 1, 1, Some(dec(100, 1)))).unwrap();
    engine.process(record(TransactionType::Dispute, 1, 1, None)).unwrap();
    engine.process(record(TransactionType::Chargeback, 1, 1, None)).unwrap();

    let accounts = engine.get_accounts();
    assert_eq!(accounts[0].available, Amount::zero());
    assert_eq!(accounts[0].held, Amount::zero());
    assert_eq!(accounts[0].total, Amount::zero());
    assert!(accounts[0].locked);
}

#[test]
fn scenario_dispute_then_chargeback() {
    let mut engine = TransactionEngine::new();

    engine.process(record(TransactionType::Deposit, 1, 1, Some(dec(100, 1)))).unwrap();
    let a = account_of(&engine, 1);
    assert_eq!((a.available, a.total), (dec(100, 1), dec(100, 1)));

    engine.process(record(TransactionType::Dispute, 1, 1, None)).unwrap();
    let a = account_of(&engine, 1);
    assert_eq!((a.available, a.held, a.total), (dec(0, 1), dec(100, 1), dec(100, 1)));

    engine.process(record(TransactionType::Chargeback, 1, 1, None)).unwrap();
    let a = account_of(&engine, 1);
    assert_eq!((a.available, a.held, a.total, a.locked), (dec(0, 1), dec(0, 1), dec(0, 1), true));
}

#[test]
fn scenario_overdraw_rejected() {
    let mut engine = TransactionEngine::new();

    engine.process(record(TransactionType::Deposit, 2, 2, Some(dec(50, 1)))).unwrap();
    let r = engine.process(record(TransactionType::Withdrawal, 2, 3, Some(dec(100, 1))));
    assert_eq!(r, Err(TransactionError::InsufficientFunds));

    let a = account_of(&engine, 2);
    assert_eq!(a.available, dec(50, 1));
    assert_eq!(a.total, dec(50, 1));
    assert_eq!(a.held, Amount::zero());
}

#[test]
fn total_is_available_plus_held_along_a_run() {
    let mut engine = TransactionEngine::new();
    let records = vec![
        record(TransactionType::Deposit, 1, 1, Some(dec(12345, 4))),
        record(TransactionType::Deposit, 2, 2, Some(dec(7, 0))),
        record(TransactionType::Withdrawal, 1, 3, Some(dec(5, 1))),
        record(TransactionType::Dispute, 1, 1, None),
        record(TransactionType::Withdrawal, 2, 4, Some(dec(100, 0))),
        record(TransactionType::Resolve, 1, 1, None),
        record(TransactionType::Dispute, 2, 2, None),
        record(TransactionType::Chargeback, 2, 2, None),
    ];
    for t in records {
        let _ = engine.process(t);
        for a in engine.get_accounts() {
            assert_eq!(a.total.units, a.available.units + a.held.units);
        }
    }
}

#[test]
fn deposit_then_withdraw_returns_to_zero() {
    let mut engine = TransactionEngine::new();
    engine.process(record(TransactionType::Deposit, 9, 10, Some(dec(3333, 2)))).unwrap();
    engine.process(record(TransactionType::Withdrawal, 9, 11, Some(dec(3333, 2)))).unwrap();
    let a = account_of(&engine, 9);
    assert_eq!((a.available, a.held, a.total), (Amount::zero(), Amount::zero(), Amount::zero()));
}

#[test]
fn dispute_resolve_restores_balances() {
    let mut engine = TransactionEngine::new();
    engine.process(record(TransactionType::Deposit, 3, 1, Some(dec(40, 0)))).unwrap();
    engine.process(record(TransactionType::Withdrawal, 3, 2, Some(dec(15, 0)))).unwrap();
    let before = account_of(&engine, 3);
    engine.process(record(TransactionType::Dispute, 3, 1, None)).unwrap();
    engine.process(record(TransactionType::Resolve, 3, 1, None)).unwrap();
    assert_eq!(account_of(&engine, 3), before);
    assert_eq!(before.available, dec(25, 0));
}

#[test]
fn locked_account_rejects_deposits_and_withdrawals() {
    let mut engine = TransactionEngine::new();
    engine.process(record(TransactionType::Deposit, 4, 1, Some(dec(10, 0)))).unwrap();
    engine.process(record(TransactionType::Deposit, 4, 2, Some(dec(5, 0)))).unwrap();
    engine.process(record(TransactionType::Dispute, 4, 1, None)).unwrap();
    engine.process(record(TransactionType::Chargeback, 4, 1, None)).unwrap();
    let a = account_of(&engine, 4);
    assert_eq!(a.total, dec(5, 0));
    assert!(a.locked);
    assert_eq!(
        engine.process(record(TransactionType::Deposit, 4, 3, Some(dec(1, 0)))),
        Err(TransactionError::AccountLocked)
    );
    assert_eq!(
        engine.process(record(TransactionType::Withdrawal, 4, 4, Some(dec(1, 0)))),
        Err(TransactionError::AccountLocked)
    );
    assert_eq!(account_of(&engine, 4), a);
}

#[test]
fn duplicate_identifier_rejected() {
    let mut engine = TransactionEngine::new();
    engine.process(record(TransactionType::Deposit, 5, 7, Some(dec(10, 0)))).unwrap();
    let before = engine.get_accounts();
    assert_eq!(
        engine.process(record(TransactionType::Deposit, 5, 7, Some(dec(3, 0)))),
        Err(TransactionError::DuplicateTransactionId)
    );
    assert_eq!(
        engine.process(record(TransactionType::Withdrawal, 6, 7, Some(dec(3, 0)))),
        Err(TransactionError::DuplicateTransactionId)
    );
    assert_eq!(engine.get_accounts(), before);
}

#[test]
fn each_rejection_reason() {
    let mut engine = TransactionEngine::new();
    assert_eq!(
        engine.process(record(TransactionType::Deposit, 1, 1, None)),
        Err(TransactionError::MissingAmount)
    );
    assert_eq!(
        engine.process(record(TransactionType::Withdrawal, 1, 1, None)),
        Err(TransactionError::MissingAmount)
    );
    assert_eq!(
        engine.process(record(TransactionType::Dispute, 1, 1, None)),
        Err(TransactionError::TransactionNotFound)
    );
    engine.process(record(TransactionType::Deposit, 1, 1, Some(dec(2, 0)))).unwrap();
    assert_eq!(
        engine.process(record(TransactionType::Dispute, 2, 1, None)),
        Err(TransactionError::ClientMismatch)
    );
    assert_eq!(
        engine.process(record(TransactionType::Resolve, 1, 1, None)),
        Err(TransactionError::NotDisputed)
    );
    assert_eq!(
        engine.process(record(TransactionType::Chargeback, 1, 1, None)),
        Err(TransactionError::NotDisputed)
    );
    engine.process(record(TransactionType::Dispute, 1, 1, None)).unwrap();
    assert_eq!(
        engine.process(record(TransactionType::Dispute, 1, 1, None)),
        Err(TransactionError::AlreadyDisputed)
    );
    let big = Amount::from_units(79228162514264337593543950335);
    engine.process(record(TransactionType::Deposit, 3, 2, Some(big))).unwrap();
    assert_eq!(
        engine.process(record(TransactionType::Deposit, 3, 3, Some(dec(1, 4)))),
        Err(TransactionError::AmountOutOfRange)
    );
    assert_eq!(engine.get_accounts().len(), 2);
}

#[test]
fn rejected_transaction_creates_no_account() {
    let mut engine = TransactionEngine::new();
    assert!(engine.process(record(TransactionType::Withdrawal, 8, 1, Some(dec(1, 0)))).is_err());
    assert!(engine.get_accounts().is_empty());
}

#[test]
fn amount_conversion() {
    assert_eq!(Amount::from_decimal_parts(100, 1).unwrap().units, 100000);
    assert_eq!(Amount::from_decimal_parts(-25, 0).unwrap().units, -250000);
    assert_eq!(Amount::from_decimal_parts(123450, 5).unwrap().units, 12345);
    assert_eq!(Amount::from_decimal_parts(-123450, 5).unwrap().units, -12345);
    assert_eq!(Amount::from_decimal_parts(12345, 5), None);
    assert_eq!(Amount::from_decimal_parts(0, 28).unwrap().units, 0);
}

#[test]
fn batch_skips_rejected_records() {
    let accounts = process_batch(vec![
        record(TransactionType::Deposit, 1, 1, Some(dec(10, 0))),
        record(TransactionType::Withdrawal, 1, 2, Some(dec(20, 0))),
        record(TransactionType::Deposit, 2, 3, Some(dec(4, 0))),
        record(TransactionType::Dispute, 2, 3, None),
    ]);
    assert_eq!(accounts.len(), 2);
    assert_eq!(accounts[0].client, ClientId(1));
    assert_eq!(accounts[0].available, dec(10, 0));
    assert_eq!(accounts[1].held, dec(4, 0));
    assert_eq!(accounts[1].available, Amount::zero());
}

#[test]
fn account_output_copies_balances() {
    let mut engine = TransactionEngine::new();
    engine.process(record(TransactionType::Deposit, 7, 1, Some(dec(15, 1)))).unwrap();
    let a = account_of(&engine, 7);
    let out = AccountOutput::new(ClientId(7), &a);
    assert_eq!(out.client, 7);
    assert_eq!(out.available, dec(15, 1));
    assert_eq!(out.total, dec(15, 1));
    assert!(!out.locked);
}
