use std::collections::HashMap;
use txledger::account::Account;
use txledger::primitives::{AccountID, Coin, Message};
use txledger::service::Service;
use txledger::transaction::{InputTransaction, Transaction};

fn rec(tx_type: &str, client: &str, id: &str, amount: Option<&str>) -> InputTransaction {
    InputTransaction {
        tx_type: tx_type.to_owned(),
        client: client.to_owned(),
        id: id.to_owned(),
        amount: amount.map(|a| a.to_owned()),
    }
}

fn run_tx(records: Vec<InputTransaction>) -> HashMap<AccountID, Account> {
    let mut msgs: Vec<Message> = Vec::new();
    for r in records {
        if let Ok(tx) = Transaction::try_from(r) {
            msgs.push(Message::Tx(tx));
        }
    }
    msgs.push(Message::Stop);
    let mut service = Service::new();
    service.run(&msgs);
    service.get_accounts()
}

#[test]
fn empty_resolve() {
    let accounts = run_tx(vec![rec("resolve", "1", "1", None)]);

    let verify_account = Account::new(1)
        .set_available(Coin::new(0, 0))
        .set_total(Coin::new(0, 0));

    assert!(verify_account.check_amounts(accounts.get(&1).unwrap()));
}

#[test]
fn no_dispute_resolve() {
    let accounts = run_tx(vec![
        rec("deposit", "1", "1", Some("1.1")),
        rec("resolve", "1", "1", None),
    ]);

    let verify_account = Account::new(1)
        .set_available(Coin::new(11, 1))
        .set_total(Coin::new(11, 1))
        .set_held(Coin::new(0, 0));

    assert!(verify_account.check_amounts(accounts.get(&1).unwrap()));
}

#[test]
fn single_resolve() {
    let accounts = run_tx(vec![
        rec("deposit", "1", "1", Some("1.1")),
        rec("dispute", "1", "1", None),
        rec("resolve", "1", "1", None),
    ]);

    let verify_account = Account::new(1)
        .set_available(Coin::new(11, 1))
        .set_total(Coin::new(11, 1))
        .set_held(Coin::new(0, 0));

    assert!(verify_account.check_amounts(accounts.get(&1).unwrap()));
}

#[test]
fn double_resolve() {
    let accounts = run_tx(vec![
        rec("deposit", "1", "1", Some("1.1")),
        rec("dispute", "1", "1", None),
        rec("resolve", "1", "1", None),
        rec("resolve", "1", "1", None),
    ]);

    let verify_account = Account::new(1)
        .set_available(Coin::new(11, 1))
        .set_total(Coin::new(11, 1))
        .set_held(Coin::new(0, 0));

    assert!(verify_account.check_amounts(accounts.get(&1).unwrap()));
}

#[test]
fn double_dispute_with_resolve() {
    let accounts = run_tx(vec![
        rec("deposit", "1", "1", Some("1.1")),
        rec("dispute", "1", "1", None),
        rec("resolve", "1", "1", None),
        rec("dispute", "1", "1", None),
    ]);

    let verify_account = Account::new(1)
        .set_available(Coin::new(0, 1))
        .set_total(Coin::new(11, 1))
        .set_held(Coin::new(11, 1));

    assert!(verify_account.check_amounts(accounts.get(&1).unwrap()));
}

#[test]
fn multi_tx_resolve() {
    let accounts = run_tx(vec![
        rec("deposit", "1", "1", Some("1.1")),
        rec("deposit", "1", "2", Some("2.2222 ")),
        rec("dispute", "1", "1", None),
        rec("resolve", "1", "1", None),
    ]);

    let verify_account = Account::new(1)
        .set_available(Coin::new(33222, 4))
        .set_total(Coin::new(33222, 4))
        .set_held(Coin::new(0, 0));

    assert!(verify_account.check_amounts(accounts.get(&1).unwrap()));
}

#[test]
fn multi_tx_multi_resolve() {
    let accounts = run_tx(vec![
        rec("deposit", "1", "1", Some("1.1")),
        rec("dispute", "1", "1", None),
        rec("deposit", "1", "2", Some("2.2222 ")),
        rec("resolve", "1", "1", None),
        rec("dispute", "1", "2", None),
        rec("resolve", "1", "2", None),
    ]);

    let verify_account = Account::new(1)
        .set_available(Coin::new(33222, 4))
        .set_total(Coin::new(33222, 4));

    assert!(verify_account.check_amounts(accounts.get(&1).unwrap()));
}

#[test]
fn multi_acc_resolve() {
    let accounts = run_tx(vec![
        rec("deposit", "1", "1", Some("1.1")),
        rec("deposit", "2", "2", Some("2.2222 ")),
        rec("dispute", "1", "1", None),
        rec("resolve", "1", "1", None),
    ]);

    let verify_account = Account::new(1)
        .set_available(Coin::new(11, 1))
        .set_total(Coin::new(11, 1))
        .set_held(Coin::new(0, 0));

    assert!(verify_account.check_amounts(accounts.get(&1).unwrap()));

    let verify_account = Account::new(2)
        .set_available(Coin::new(22222, 4))
        .set_total(Coin::new(22222, 4))
        .set_held(Coin::new(0, 0));

    assert!(verify_account.check_amounts(accounts.get(&2).unwrap()));
}

#[test]
fn single_withdrawl_resolve() {
    let accounts = run_tx(vec![
        rec("withdrawal", "1", "1", Some("1.1")),
        rec("dispute", "1", "1", None),
        rec("resolve", "1", "1", None),
    ]);

    let verify_account = Account::new(1)
        .set_available(Coin::new(-11, 1))
        .set_total(Coin::new(-11, 1));

    assert!(verify_account.check_amounts(accounts.get(&1).unwrap()));
}
