use txledger::account::Account;
use txledger::primitives::Coin;
use txledger::transaction::{Transaction, TransactionType};

fn tx(tx_type: TransactionType, account: u16, id: u32, amount: Option<Coin>) -> Transaction {
    Transaction { tx_type, account, id, amount }
}

#[test]
fn test_deposit() {
    let mut account = Account::new(1);
    account.deposit(Coin::new(11, 1));
    assert_eq!(account.available, Coin::new(11, 1));
    assert_eq!(account.held, Coin::new(0, 4));
    assert_eq!(account.total, Coin::new(11, 1));
    assert_eq!(account.locked, false);
}

#[test]
fn test_dispute() {
    let mut account = Account::new(1);
    account.dispute(Coin::new(11, 1));
    assert_eq!(account.available, Coin::new(-11, 1));
    assert_eq!(account.held, Coin::new(11, 1));
    assert_eq!(account.total, Coin::new(0, 4));
    assert_eq!(account.locked, false);
}

#[test]
fn test_resolve() {
    let mut account = Account::new(1);
    account.resolve(Coin::new(11, 1));
    assert_eq!(account.available, Coin::new(11, 1));
    assert_eq!(account.held, Coin::new(-11, 1));
    assert_eq!(account.total, Coin::new(0, 4));
    assert_eq!(account.locked, false);
}

#[test]
fn test_chargeback() {
    let mut account = Account::new(1);
    account.chargeback(Coin::new(11, 1));
    assert_eq!(account.available, Coin::new(0, 4));
    assert_eq!(account.held, Coin::new(-11, 1));
    assert_eq!(account.total, Coin::new(-11, 1));
    assert_eq!(account.locked, true);
}

#[test]
fn total_is_available_plus_held_after_every_event() {
    let mut account = Account::new(1);
    let events = vec![
        tx(TransactionType::Deposit, 1, 1, Some(Coin::new(11, 1))),
        tx(TransactionType::Dispute, 1, 1, None),
        tx(TransactionType::Deposit, 1, 2, Some(Coin::new(22222, 4))),
        tx(TransactionType::Resolve, 1, 1, None),
        tx(TransactionType::Withdrawal, 1, 3, Some(Coin::new(5, 1))),
        tx(TransactionType::Dispute, 1, 3, None),
        tx(TransactionType::Chargeback, 1, 3, None),
    ];
    for e in &events {
        account.process(e);
        assert_eq!(account.total, account.available.add(account.held));
    }
}

#[test]
fn dispute_on_unknown_id_rejected() {
    let mut account = Account::new(1);
    account.process(&tx(TransactionType::Deposit, 1, 1, Some(Coin::new(11, 1))));
    account.process(&tx(TransactionType::Dispute, 1, 99, None));
    assert_eq!(account.available, Coin::new(11, 1));
    assert_eq!(account.held, Coin::new(0, 0));
    assert_eq!(account.total, Coin::new(11, 1));
    assert_eq!(account.locked, false);
}

#[test]
fn second_dispute_in_a_row_rejected() {
    let mut account = Account::new(1);
    account.process(&tx(TransactionType::Deposit, 1, 1, Some(Coin::new(11, 1))));
    account.process(&tx(TransactionType::Dispute, 1, 1, None));
    account.process(&tx(TransactionType::Dispute, 1, 1, None));
    assert_eq!(account.available, Coin::new(0, 0));
    assert_eq!(account.held, Coin::new(11, 1));
    assert_eq!(account.total, Coin::new(11, 1));
    assert_eq!(account.locked, false);
}

#[test]
fn locked_account_rejects_every_event() {
    let mut account = Account::new(1);
    account.process(&tx(TransactionType::Deposit, 1, 1, Some(Coin::new(11, 1))));
    account.process(&tx(TransactionType::Dispute, 1, 1, None));
    account.process(&tx(TransactionType::Chargeback, 1, 1, None));
    assert_eq!(account.locked, true);
    account.process(&tx(TransactionType::Deposit, 1, 2, Some(Coin::new(7, 0))));
    account.process(&tx(TransactionType::Withdrawal, 1, 3, Some(Coin::new(7, 0))));
    account.process(&tx(TransactionType::Dispute, 1, 1, None));
    assert_eq!(account.available, Coin::new(0, 0));
    assert_eq!(account.held, Coin::new(0, 0));
    assert_eq!(account.total, Coin::new(0, 0));
    assert_eq!(account.locked, true);
}
