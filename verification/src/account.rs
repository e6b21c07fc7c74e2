//! The per-account ledger: a state machine that applies validated events,
//! keeps the exact balance relation `total == available + held`, and records
//! the accepted history of every event id together with the events it had to
//! reject.

use vstd::prelude::*;
use std::collections::HashMap;
use crate::money::{Money, MAX_UNITS};
use crate::primitives::{AccountID, Coin, TxID};
use crate::transaction::{
    amount_view, is_origin_kind, spec_valid_successor, AncestorState, Transaction, TransactionType,
};

verus! {

broadcast use vstd::std_specs::hash::group_hash_axioms;

/// The mathematical state of one account's ledger.
pub ghost struct AccountModel {
    pub id: AccountID,
    pub available: int,
    pub held: int,
    pub total: int,
    pub locked: bool,
    /// For each event id, the chain of accepted events sharing it, oldest
    /// first; the first entry anchors the amount of all later ones.
    pub history: Map<TxID, Seq<Transaction>>,
    /// Every rejected event, in arrival order.
    pub failed: Seq<Transaction>,
}

/// The state a ledger is created in: zero balances, unlocked, empty history.
pub open spec fn fresh_model(id: AccountID) -> AccountModel {
    AccountModel {
        id: id,
        available: 0,
        held: 0,
        total: 0,
        locked: false,
        history: Map::empty(),
        failed: Seq::empty(),
    }
}

/// The amount `amount` signed by the kind of the event that anchors it:
/// positive under a deposit, negative under a withdrawal.
pub open spec fn signed_of(amount: int, parent: TransactionType) -> int {
    match parent {
        TransactionType::Deposit => amount,
        TransactionType::Withdrawal => -amount,
        _ => 0,
    }
}

/// The signed amount anchored by a history entry's root event.
pub open spec fn signed_amount(root: Transaction) -> int {
    signed_of(amount_view(root), root.tx_type)
}

/// The balances after an accepted event moves the signed amount `amt`, as
/// the event's kind directs: an origin event grows available and total; a
/// dispute holds the amount back; a resolve releases it; a chargeback
/// removes it and locks the ledger.
pub open spec fn apply_effect(m: AccountModel, amt: int, k: TransactionType) -> AccountModel {
    match k {
        TransactionType::Deposit | TransactionType::Withdrawal => AccountModel {
            available: m.available + amt,
            total: m.total + amt,
            ..m
        },
        TransactionType::Dispute => AccountModel {
            available: m.available - amt,
            held: m.held + amt,
            ..m
        },
        TransactionType::Resolve => AccountModel {
            available: m.available + amt,
            held: m.held - amt,
            ..m
        },
        TransactionType::Chargeback => AccountModel {
            held: m.held - amt,
            total: m.total - amt,
            locked: true,
            ..m
        },
    }
}

/// Whether the balances after the effect stay within the representable
/// range of the fixed scale.
pub open spec fn effect_fits(m: AccountModel, amt: int, k: TransactionType) -> bool {
    let p = apply_effect(m, amt, k);
    &&& -MAX_UNITS <= p.available <= MAX_UNITS
    &&& -MAX_UNITS <= p.held <= MAX_UNITS
    &&& -MAX_UNITS <= p.total <= MAX_UNITS
}

/// Whether the ledger accepts an event: it must not be locked; an event
/// whose id is unseen must be a deposit or withdrawal; an event whose id is
/// seen must validly follow the most recently accepted event sharing it;
/// and the moved balances must stay representable.
pub open spec fn accepts(m: AccountModel, tx: Transaction) -> bool {
    &&& !m.locked
    &&& if m.history.contains_key(tx.id) {
        let chain = m.history[tx.id];
        spec_valid_successor(tx, chain.last()) && effect_fits(m, signed_amount(chain[0]), tx.tx_type)
    } else {
        is_origin_kind(tx.tx_type) && effect_fits(m, signed_amount(tx), tx.tx_type)
    }
}

/// The ledger after processing one event: an accepted event extends its
/// id's history and moves the root's signed amount; a rejected event is
/// recorded in the failed log and changes nothing else.
pub open spec fn spec_process(m: AccountModel, tx: Transaction) -> AccountModel {
    if accepts(m, tx) {
        if m.history.contains_key(tx.id) {
            let chain = m.history[tx.id];
            let p = apply_effect(m, signed_amount(chain[0]), tx.tx_type);
            AccountModel { history: m.history.insert(tx.id, chain.push(tx)), ..p }
        } else {
            let p = apply_effect(m, signed_amount(tx), tx.tx_type);
            AccountModel { history: m.history.insert(tx.id, seq![tx]), ..p }
        }
    } else {
        AccountModel { failed: m.failed.push(tx), ..m }
    }
}

/// A history entry is well formed when it is non-empty, opened by a deposit
/// or withdrawal with a representable amount, every event in it carries the
/// entry's id, and each later event validly follows its predecessor.
pub open spec fn chain_wf(c: Seq<Transaction>, id: TxID) -> bool {
    &&& c.len() > 0
    &&& is_origin_kind(c[0].tx_type)
    &&& -MAX_UNITS <= amount_view(c[0]) <= MAX_UNITS
    &&& forall|i: int| 0 <= i < c.len() ==> (#[trigger] c[i]).id == id
    &&& forall|i: int| 1 <= i < c.len() ==> spec_valid_successor(#[trigger] c[i], c[i - 1])
}

/// The ledger invariants: the balances are representable and exactly
/// related (`total == available + held`), and every history entry is a well
/// formed chain.
pub open spec fn model_wf(m: AccountModel) -> bool {
    &&& m.total == m.available + m.held
    &&& -MAX_UNITS <= m.available <= MAX_UNITS
    &&& -MAX_UNITS <= m.held <= MAX_UNITS
    &&& -MAX_UNITS <= m.total <= MAX_UNITS
    &&& forall|id: TxID| m.history.contains_key(id) ==> chain_wf(#[trigger] m.history[id], id)
}

/// Whether an event's attached amount, if any, is representable.
pub open spec fn tx_wf(tx: Transaction) -> bool {
    match tx.amount {
        Some(m) => m.wf(),
        None => true,
    }
}

/// One account's ledger.
#[derive(Debug)]
pub struct Account {
    pub id: AccountID,
    pub available: Coin,
    pub held: Coin,
    pub total: Coin,
    pub locked: bool,
    /// Accepted events, chained per event id; the first event of a chain is
    /// always a deposit or withdrawal.
    pub txs: HashMap<TxID, Vec<Transaction>>,
    /// Rejected events, in arrival order.
    pub failed: Vec<Transaction>,
}

impl View for Account {
    type V = AccountModel;

    open spec fn view(&self) -> AccountModel {
        AccountModel {
            id: self.id,
            available: self.available@,
            held: self.held@,
            total: self.total@,
            locked: self.locked,
            history: self.txs@.map_values(|v: Vec<Transaction>| v@),
            failed: self.failed@,
        }
    }
}

impl Account {
    /// The ledger invariants, on the executable state.
    pub open spec fn wf(self) -> bool {
        model_wf(self@)
    }

    /// Creates the ledger of a fresh account: zero balances, unlocked.
    pub fn new(id: AccountID) -> (r: Account)
        ensures
            r@ == fresh_model(id),
            r.wf(),
    {
        let r = Account {
            id,
            available: Money::zero(),
            held: Money::zero(),
            total: Money::zero(),
            locked: false,
            txs: HashMap::new(),
            failed: Vec::new(),
        };
        proof {
            assert(r@.history =~= fresh_model(id).history);
            assert(r@.failed =~= fresh_model(id).failed);
        }
        r
    }

    /// The same ledger with `available` replaced.
    pub fn set_available(self, available: Coin) -> (r: Self)
        ensures
            r@ == (AccountModel { available: available@, ..self@ }),
    {
        Self { available, ..self }
    }

    /// The same ledger with `held` replaced.
    pub fn set_held(self, held: Coin) -> (r: Self)
        ensures
            r@ == (AccountModel { held: held@, ..self@ }),
    {
        Self { held, ..self }
    }

    /// The same ledger with `total` replaced.
    pub fn set_total(self, total: Coin) -> (r: Self)
        ensures
            r@ == (AccountModel { total: total@, ..self@ }),
    {
        Self { total, ..self }
    }

    /// The same ledger with `locked` replaced.
    pub fn set_locked(self, locked: bool) -> (r: Self)
        ensures
            r@ == (AccountModel { locked: locked, ..self@ }),
    {
        Self { locked, ..self }
    }

    /// Whether two ledgers agree on identifier, balances and lock state.
    pub fn check_amounts(&self, other: &Self) -> (r: bool)
        ensures
            r == (self@.id == other@.id && self@.available == other@.available && self@.held
                == other@.held && self@.total == other@.total && self@.locked == other@.locked),
    {
        self.id == other.id && self.available == other.available && self.held == other.held
            && self.total == other.total && self.locked == other.locked
    }

    /// Whether the ledger is locked.
    fn is_locked(&self) -> (r: bool)
        ensures
            r == self@.locked,
    {
        self.locked
    }

    /// Moves a signed deposit amount: available and total grow by it (a
    /// withdrawal is the same movement with a negative amount).
    pub fn deposit(&mut self, amount: Coin)
        requires
            old(self).available.wf(),
            old(self).total.wf(),
            amount.wf(),
            -MAX_UNITS <= old(self).available@ + amount@ <= MAX_UNITS,
            -MAX_UNITS <= old(self).total@ + amount@ <= MAX_UNITS,
        ensures
            final(self).available@ == old(self).available@ + amount@,
            final(self).total@ == old(self).total@ + amount@,
            final(self).held == old(self).held,
            final(self).locked == old(self).locked,
            final(self).id == old(self).id,
            final(self).txs == old(self).txs,
            final(self).failed == old(self).failed,
    {
        self.available = self.available.add(amount);
        self.total = self.total.add(amount);
    }

    /// Holds a signed amount back: available shrinks and held grows by it.
    pub fn dispute(&mut self, amount: Coin)
        requires
            old(self).available.wf(),
            old(self).held.wf(),
            amount.wf(),
            -MAX_UNITS <= old(self).available@ - amount@ <= MAX_UNITS,
            -MAX_UNITS <= old(self).held@ + amount@ <= MAX_UNITS,
        ensures
            final(self).available@ == old(self).available@ - amount@,
            final(self).held@ == old(self).held@ + amount@,
            final(self).total == old(self).total,
            final(self).locked == old(self).locked,
            final(self).id == old(self).id,
            final(self).txs == old(self).txs,
            final(self).failed == old(self).failed,
    {
        self.available = self.available.sub(amount);
        self.held = self.held.add(amount);
    }

    /// Releases a held signed amount back: available grows and held shrinks
    /// by it.
    pub fn resolve(&mut self, amount: Coin)
        requires
            old(self).available.wf(),
            old(self).held.wf(),
            amount.wf(),
            -MAX_UNITS <= old(self).available@ + amount@ <= MAX_UNITS,
            -MAX_UNITS <= old(self).held@ - amount@ <= MAX_UNITS,
        ensures
            final(self).available@ == old(self).available@ + amount@,
            final(self).held@ == old(self).held@ - amount@,
            final(self).total == old(self).total,
            final(self).locked == old(self).locked,
            final(self).id == old(self).id,
            final(self).txs == old(self).txs,
            final(self).failed == old(self).failed,
    {
        self.available = self.available.add(amount);
        self.held = self.held.sub(amount);
    }

    /// Removes a held signed amount for good and locks the ledger: held and
    /// total shrink by it.
    pub fn chargeback(&mut self, amount: Coin)
        requires
            old(self).held.wf(),
            old(self).total.wf(),
            amount.wf(),
            -MAX_UNITS <= old(self).held@ - amount@ <= MAX_UNITS,
            -MAX_UNITS <= old(self).total@ - amount@ <= MAX_UNITS,
        ensures
            final(self).held@ == old(self).held@ - amount@,
            final(self).total@ == old(self).total@ - amount@,
            final(self).locked == true,
            final(self).available == old(self).available,
            final(self).id == old(self).id,
            final(self).txs == old(self).txs,
            final(self).failed == old(self).failed,
    {
        self.held = self.held.sub(amount);
        self.total = self.total.sub(amount);
        self.locked = true;
    }

    /// Applies the balance effect of an accepted event: `amount` is the
    /// root's unsigned amount, `parent_type` the root's kind giving it its
    /// sign, and `tx_type` the new event's kind choosing the movement.
    fn calc_transaction(
        &mut self,
        amount: Coin,
        tx_type: &TransactionType,
        parent_type: &TransactionType,
    )
        requires
            old(self).available.wf(),
            old(self).held.wf(),
            old(self).total.wf(),
            amount.wf(),
            effect_fits(old(self)@, signed_of(amount@, *parent_type), *tx_type),
        ensures
            final(self)@ == apply_effect(old(self)@, signed_of(amount@, *parent_type), *tx_type),
            final(self).txs == old(self).txs,
            final(self).failed == old(self).failed,
    {
        let amt: Coin = match parent_type {
            TransactionType::Deposit => amount,
            TransactionType::Withdrawal => amount.negate(),
            _ => Money::zero(),
        };
        match tx_type {
            TransactionType::Deposit | TransactionType::Withdrawal => self.deposit(amt),
            TransactionType::Dispute => self.dispute(amt),
            TransactionType::Resolve => self.resolve(amt),
            TransactionType::Chargeback => self.chargeback(amt),
        }
    }

    /// Whether applying `amt` as `k` directs keeps the balances
    /// representable.
    fn effect_fits_exec(&self, amt: Coin, k: TransactionType) -> (r: bool)
        requires
            self.available.wf(),
            self.held.wf(),
            self.total.wf(),
            amt.wf(),
        ensures
            r == effect_fits(self@, amt@, k),
    {
        match k {
            TransactionType::Deposit | TransactionType::Withdrawal => {
                units_in_range(self.available.units + amt.units) && units_in_range(
                    self.total.units + amt.units,
                )
            },
            TransactionType::Dispute => {
                units_in_range(self.available.units - amt.units) && units_in_range(
                    self.held.units + amt.units,
                )
            },
            TransactionType::Resolve => {
                units_in_range(self.available.units + amt.units) && units_in_range(
                    self.held.units - amt.units,
                )
            },
            TransactionType::Chargeback => {
                units_in_range(self.held.units - amt.units) && units_in_range(
                    self.total.units - amt.units,
                )
            },
        }
    }

    /// Processes one event addressed to this account: accepts it exactly
    /// when `accepts` allows, applying the effect and extending the history,
    /// and records it in the failed log otherwise, as `spec_process`
    /// describes. The ledger invariants are preserved.
    pub fn process(&mut self, tx: &Transaction)
        requires
            old(self).wf(),
            tx_wf(*tx),
        ensures
            final(self)@ == spec_process(old(self)@, *tx),
            final(self).wf(),
    {
        let ghost m0 = old(self)@;
        let mut success: bool = false;
        if !self.is_locked() {
            let key: TxID = tx.id();
            if self.txs.contains_key(&key) {
                let mut prev: Vec<Transaction> = match self.txs.remove(&key) {
                    Some(v) => v,
                    None => {
                        proof {
                            assert(false);
                        }
                        Vec::new()
                    },
                };
                proof {
                    assert(m0.history.contains_key(key));
                    assert(prev@ == m0.history[key]);
                    assert(chain_wf(prev@, key));
                }
                let last: Transaction = prev[prev.len() - 1];
                let first: Transaction = prev[0];
                if tx.valid_ancestor(&last) == AncestorState::Valid {
                    let amt: Coin = signed_amount_of(&first);
                    if self.effect_fits_exec(amt, tx.tx_type()) {
                        proof {
                            assert(self@ == AccountModel { history: self@.history, ..m0 });
                            assert(effect_fits(m0, signed_amount(prev@[0]), tx.tx_type));
                        }
                        prev.push(*tx);
                        self.calc_transaction(first.amount(), &tx.tx_type(), &first.tx_type());
                        success = true;
                    }
                }
                self.txs.insert(key, prev);
                proof {
                    if success {
                        assert(accepts(m0, *tx));
                        assert(self@.history =~= spec_process(m0, *tx).history);
                        assert(self@.failed =~= spec_process(m0, *tx).failed);
                    } else {
                        assert(!accepts(m0, *tx));
                        assert(self@.history =~= m0.history);
                    }
                }
            } else {
                proof {
                    assert(!m0.history.contains_key(key));
                }
                let origin: bool = tx.tx_type() == TransactionType::Deposit || tx.tx_type()
                    == TransactionType::Withdrawal;
                if origin {
                    let amt: Coin = signed_amount_of(tx);
                    if self.effect_fits_exec(amt, tx.tx_type()) {
                        let mut chain: Vec<Transaction> = Vec::new();
                        chain.push(*tx);
                        self.txs.insert(key, chain);
                        proof {
                            assert(self@ == AccountModel { history: self@.history, ..m0 });
                        }
                        self.calc_transaction(tx.amount(), &tx.tx_type(), &tx.tx_type());
                        success = true;
                    }
                }
                proof {
                    if success {
                        assert(accepts(m0, *tx));
                        assert(self@.history =~= spec_process(m0, *tx).history);
                        assert(self@.failed =~= spec_process(m0, *tx).failed);
                    } else {
                        assert(!accepts(m0, *tx));
                    }
                }
            }
        } else {
            proof {
                assert(!accepts(m0, *tx));
            }
        }
        if !success {
            self.failed.push(*tx);
            proof {
                assert(self@.history =~= m0.history);
                assert(self@.failed =~= spec_process(m0, *tx).failed);
            }
        }
        proof {
            lemma_process_preserves_wf(m0, *tx);
        }
    }

    /// Whether at least one origin event was ever accepted: exactly when the
    /// history holds an entry, since every entry is opened by an accepted
    /// deposit or withdrawal and a rejected event never creates one. Only
    /// accounts for which this holds appear in the final snapshot; one that
    /// only ever produced rejected events does not appear at all.
    pub fn has_accepted_origin(&self) -> (r: bool)
        ensures
            r == exists|id: TxID| self@.history.contains_key(id),
    {
        let r: bool = !self.txs.is_empty();
        proof {
            assert(forall|id: TxID| self@.history.contains_key(id) == self.txs@.contains_key(
                id,
            ));
            if !r {
                assert(self.txs@.dom() =~= Set::empty());
            }
        }
        r
    }
}

/// Whether a unit count lies in the representable range of the fixed scale.
fn units_in_range(v: i128) -> (r: bool)
    ensures
        r == (-MAX_UNITS <= v <= MAX_UNITS),
{
    -MAX_UNITS <= v && v <= MAX_UNITS
}

/// The signed amount anchored by a root event, as a quantity.
fn signed_amount_of(t: &Transaction) -> (r: Coin)
    requires
        -MAX_UNITS <= amount_view(*t) <= MAX_UNITS,
    ensures
        r@ == signed_amount(*t),
        r.wf(),
{
    match t.tx_type() {
        TransactionType::Deposit => t.amount(),
        TransactionType::Withdrawal => t.amount().negate(),
        _ => Money::zero(),
    }
}

/// Processing preserves the ledger invariants: in particular, after every
/// event `total == available + held` holds exactly.
pub proof fn lemma_process_preserves_wf(m: AccountModel, tx: Transaction)
    requires
        model_wf(m),
        tx_wf(tx),
    ensures
        model_wf(spec_process(m, tx)),
{
    let p = spec_process(m, tx);
    if accepts(m, tx) {
        if m.history.contains_key(tx.id) {
            let chain = m.history[tx.id];
            let chain2 = chain.push(tx);
            assert(chain_wf(chain, tx.id));
            assert(forall|i: int| 0 <= i < chain2.len() ==> (#[trigger] chain2[i]).id == tx.id);
            assert(forall|i: int| 1 <= i < chain2.len() ==> spec_valid_successor(
                #[trigger] chain2[i],
                chain2[i - 1],
            ));
            assert(chain_wf(chain2, tx.id));
            assert(forall|id: TxID| p.history.contains_key(id) ==> chain_wf(
                #[trigger] p.history[id],
                id,
            ));
        } else {
            let chain2 = seq![tx];
            assert(chain_wf(chain2, tx.id));
        }
    }
}

/// A dispute on an unknown event id is rejected and has no effect besides
/// being recorded in the failed log.
pub proof fn lemma_dispute_unknown_rejected(m: AccountModel, tx: Transaction)
    requires
        tx.tx_type == TransactionType::Dispute,
        !m.history.contains_key(tx.id),
    ensures
        spec_process(m, tx) == (AccountModel { failed: m.failed.push(tx), ..m }),
{
}

/// A resolve or chargeback whose id has no open dispute — its id is unknown
/// or its most recently accepted event is not a dispute — is rejected and
/// has no effect besides being recorded in the failed log.
pub proof fn lemma_finalize_without_dispute_rejected(m: AccountModel, tx: Transaction)
    requires
        tx.tx_type == TransactionType::Resolve || tx.tx_type == TransactionType::Chargeback,
        m.history.contains_key(tx.id) ==> m.history[tx.id].last().tx_type
            != TransactionType::Dispute,
    ensures
        spec_process(m, tx) == (AccountModel { failed: m.failed.push(tx), ..m }),
{
}

/// A second dispute directly following an accepted dispute on the same id
/// is rejected and has no effect besides being recorded in the failed log.
pub proof fn lemma_double_dispute_rejected(m: AccountModel, tx: Transaction)
    requires
        tx.tx_type == TransactionType::Dispute,
        m.history.contains_key(tx.id),
        m.history[tx.id].last().tx_type == TransactionType::Dispute,
    ensures
        spec_process(m, tx) == (AccountModel { failed: m.failed.push(tx), ..m }),
{
}

/// An accepted chargeback locks the ledger.
pub proof fn lemma_chargeback_locks(m: AccountModel, tx: Transaction)
    requires
        tx.tx_type == TransactionType::Chargeback,
        accepts(m, tx),
    ensures
        spec_process(m, tx).locked,
{
}

/// The exact effect of an accepted chargeback: against an open dispute, and
/// with the moved balances representable, the ledger locks, the chargeback
/// is appended to its id's history, held and total each shrink by the root
/// entry's signed amount, and available is untouched.
pub proof fn lemma_chargeback_effect(m: AccountModel, tx: Transaction)
    requires
        !m.locked,
        tx.tx_type == TransactionType::Chargeback,
        m.history.contains_key(tx.id),
        spec_valid_successor(tx, m.history[tx.id].last()),
        effect_fits(m, signed_amount(m.history[tx.id][0]), tx.tx_type),
    ensures
        spec_process(m, tx).locked,
        spec_process(m, tx).available == m.available,
        spec_process(m, tx).held == m.held - signed_amount(m.history[tx.id][0]),
        spec_process(m, tx).total == m.total - signed_amount(m.history[tx.id][0]),
        spec_process(m, tx).history == m.history.insert(tx.id, m.history[tx.id].push(tx)),
        spec_process(m, tx).failed == m.failed,
{
}

/// The ledger after processing a sequence of events in arrival order.
pub open spec fn spec_process_all(m: AccountModel, txs: Seq<Transaction>) -> AccountModel
    decreases txs.len(),
{
    if txs.len() == 0 {
        m
    } else {
        spec_process_all(spec_process(m, txs[0]), txs.drop_first())
    }
}

/// A locked ledger is terminal: every subsequent event, however long the
/// stream, is rejected and leaves the balances, the lock and the history
/// unchanged.
pub proof fn lemma_locked_is_terminal(m: AccountModel, txs: Seq<Transaction>)
    requires
        m.locked,
    ensures
        spec_process_all(m, txs).available == m.available,
        spec_process_all(m, txs).held == m.held,
        spec_process_all(m, txs).total == m.total,
        spec_process_all(m, txs).locked,
        spec_process_all(m, txs).history == m.history,
    decreases txs.len(),
{
    if txs.len() > 0 {
        lemma_locked_is_terminal(spec_process(m, txs[0]), txs.drop_first());
    }
}

} // verus!
