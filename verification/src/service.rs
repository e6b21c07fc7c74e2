//! The sequential processing core: routes each transaction to the ledger of
//! the account it addresses, creating ledgers lazily, and hands out the
//! final snapshots once the stream has ended.
//!
//! Concurrency lives outside this crate: a host runs one mailbox and worker
//! per account and lets each worker call `Account::process`. Because every
//! worker drains its mailbox strictly in arrival order and owns its ledger
//! exclusively, the accounts such a host computes are exactly the ones this
//! sequential core computes, account by account.

use vstd::prelude::*;
use std::collections::HashMap;
use crate::account::{
    fresh_model, model_wf, spec_process, tx_wf, Account, AccountModel,
};
use crate::primitives::{AccountID, Message};
use crate::transaction::Transaction;

verus! {

broadcast use vstd::std_specs::hash::group_hash_axioms;

/// The account map after routing one transaction: the addressed account is
/// created on first reference and its ledger processes the event.
pub open spec fn spec_route(
    accs: Map<AccountID, AccountModel>,
    tx: Transaction,
) -> Map<AccountID, AccountModel> {
    let m = if accs.contains_key(tx.account) {
        accs[tx.account]
    } else {
        fresh_model(tx.account)
    };
    accs.insert(tx.account, spec_process(m, tx))
}

/// The account map after consuming a message stream: transactions route in
/// order until the first stop signal.
pub open spec fn spec_run(
    accs: Map<AccountID, AccountModel>,
    msgs: Seq<Message>,
) -> Map<AccountID, AccountModel>
    decreases msgs.len(),
{
    if msgs.len() == 0 {
        accs
    } else {
        match msgs[0] {
            Message::Stop => accs,
            Message::Tx(tx) => spec_run(spec_route(accs, tx), msgs.drop_first()),
        }
    }
}

/// Every ledger satisfies its invariants and sits under its own account id.
pub open spec fn accounts_wf(accs: Map<AccountID, AccountModel>) -> bool {
    forall|id: AccountID| accs.contains_key(id) ==> model_wf(#[trigger] accs[id]) && accs[id].id
        == id
}

/// Whether a message carries a representable transaction.
pub open spec fn msg_wf(msg: Message) -> bool {
    match msg {
        Message::Tx(tx) => tx_wf(tx),
        Message::Stop => true,
    }
}

/// The processing service: owns one ledger per account seen so far.
pub struct Service {
    pub accounts: HashMap<AccountID, Account>,
}

impl View for Service {
    type V = Map<AccountID, AccountModel>;

    open spec fn view(&self) -> Map<AccountID, AccountModel> {
        self.accounts@.map_values(|a: Account| a@)
    }
}

impl Service {
    /// Creates a service that knows no accounts yet.
    pub fn new() -> (r: Service)
        ensures
            r@ == Map::<AccountID, AccountModel>::empty(),
            accounts_wf(r@),
    {
        let r = Service { accounts: HashMap::new() };
        proof {
            assert(r@ =~= Map::<AccountID, AccountModel>::empty());
        }
        r
    }

    /// Routes one transaction to the ledger of the account it addresses,
    /// creating that ledger on first reference, as `spec_route` describes.
    pub fn process_tx(&mut self, tx: Transaction)
        requires
            accounts_wf(old(self)@),
            tx_wf(tx),
        ensures
            final(self)@ == spec_route(old(self)@, tx),
            accounts_wf(final(self)@),
    {
        let key: AccountID = tx.account();
        let mut acc: Account = match self.accounts.remove(&key) {
            Some(a) => a,
            None => Account::new(key),
        };
        proof {
            assert(acc.wf());
        }
        acc.process(&tx);
        self.accounts.insert(key, acc);
        proof {
            assert(final(self)@ =~= spec_route(old(self)@, tx));
        }
    }

    /// Consumes a message stream: routes each transaction in order and
    /// stops at the first stop signal, as `spec_run` describes.
    pub fn run(&mut self, msgs: &Vec<Message>)
        requires
            accounts_wf(old(self)@),
            forall|i: int| 0 <= i < msgs@.len() ==> msg_wf(#[trigger] msgs@[i]),
        ensures
            final(self)@ == spec_run(old(self)@, msgs@),
            accounts_wf(final(self)@),
    {
        let n: usize = msgs.len();
        let mut i: usize = 0;
        proof {
            assert(msgs@.skip(0) =~= msgs@);
        }
        while i < n
            invariant
                i <= n,
                n == msgs@.len(),
                forall|j: int| 0 <= j < msgs@.len() ==> msg_wf(#[trigger] msgs@[j]),
                accounts_wf(self@),
                spec_run(old(self)@, msgs@) == spec_run(self@, msgs@.skip(i as int)),
            ensures
                spec_run(old(self)@, msgs@) == self@,
                accounts_wf(self@),
            decreases n - i,
        {
            let ghost rest = msgs@.skip(i as int);
            proof {
                assert(rest[0] == msgs@[i as int]);
                assert(rest.drop_first() =~= msgs@.skip(i as int + 1));
            }
            match msgs[i] {
                Message::Tx(tx) => {
                    self.process_tx(tx);
                },
                Message::Stop => {
                    proof {
                        assert(spec_run(self@, rest) == self@);
                    }
                    return ;
                },
            }
            i = i + 1;
        }
        proof {
            assert(msgs@.skip(n as int) =~= Seq::<Message>::empty());
        }
    }

    /// Hands out every ledger the run has created — including one whose
    /// every event was rejected — for inspection once no more events arrive.
    /// The external snapshot holds only accounts with at least one accepted
    /// origin event: `Account::has_accepted_origin` decides that, and the
    /// emitting side applies it before writing.
    pub fn get_accounts(self) -> (r: HashMap<AccountID, Account>)
        ensures
            r@.map_values(|a: Account| a@) == self@,
    {
        self.accounts
    }
}

/// Routing one well-formed event preserves every ledger's invariants.
pub proof fn lemma_route_preserves_wf(accs: Map<AccountID, AccountModel>, tx: Transaction)
    requires
        accounts_wf(accs),
        tx_wf(tx),
    ensures
        accounts_wf(spec_route(accs, tx)),
{
    let m = if accs.contains_key(tx.account) {
        accs[tx.account]
    } else {
        fresh_model(tx.account)
    };
    crate::account::lemma_process_preserves_wf(m, tx);
}

/// For all accounts, after processing any message stream, the exact balance
/// equation `total == available + held` holds, with no rounding drift.
pub proof fn lemma_run_balance_equation(accs: Map<AccountID, AccountModel>, msgs: Seq<Message>)
    requires
        accounts_wf(accs),
        forall|i: int| 0 <= i < msgs.len() ==> msg_wf(#[trigger] msgs[i]),
    ensures
        forall|id: AccountID| spec_run(accs, msgs).contains_key(id) ==> (#[trigger] spec_run(
            accs,
            msgs,
        )[id]).total == spec_run(accs, msgs)[id].available + spec_run(accs, msgs)[id].held,
    decreases msgs.len(),
{
    let fin = spec_run(accs, msgs);
    if msgs.len() == 0 || msgs[0] is Stop {
        assert(fin == accs);
        assert forall|id: AccountID| fin.contains_key(id) implies (#[trigger] fin[id]).total
            == fin[id].available + fin[id].held by {
            assert(model_wf(accs[id]));
        }
    } else {
        let tx = msgs[0]->Tx_0;
        lemma_route_preserves_wf(accs, tx);
        assert(forall|i: int| 0 <= i < msgs.drop_first().len() ==> msg_wf(
            #[trigger] msgs.drop_first()[i],
        ));
        lemma_run_balance_equation(spec_route(accs, tx), msgs.drop_first());
        assert(fin == spec_run(spec_route(accs, tx), msgs.drop_first()));
    }
}

/// Routing an event touches only the ledger of the account it addresses:
/// every other account's ledger is exactly what it was.
pub proof fn lemma_route_isolates(
    accs: Map<AccountID, AccountModel>,
    tx: Transaction,
    other: AccountID,
)
    requires
        other != tx.account,
    ensures
        spec_route(accs, tx).contains_key(other) == accs.contains_key(other),
        accs.contains_key(other) ==> spec_route(accs, tx)[other] == accs[other],
{
}

} // verus!
