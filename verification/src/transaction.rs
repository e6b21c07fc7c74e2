//! The event model: raw input records, validated transactions, and the
//! ancestor-validity table that decides whether an event may legally follow
//! the most recently accepted event sharing its id.

use vstd::prelude::*;
use vstd::string::StringSliceAdditionalSpecFns;
use crate::money::{
    spec_money_from_text, spec_money_text_negative, text_is_negative, Money, MoneyParseError,
};
use crate::parse::{lower_bytes, bytes_eq, parse_uint, spec_parse_uint, lower_seq, trim_spec, trim_range};
use crate::primitives::{AccountID, TxID};

verus! {

/// The five kinds of financial event.
#[derive(Debug, Clone, Copy, Eq, PartialEq, Structural)]
pub enum TransactionType {
    Deposit,
    Withdrawal,
    Dispute,
    Resolve,
    Chargeback,
}

/// One raw input record, exactly as the transport delivered it.
#[derive(Debug, Clone)]
pub struct InputTransaction {
    pub tx_type: String,
    pub client: String,
    pub id: String,
    pub amount: Option<String>,
}

/// Why a raw input record was rejected at the boundary.
#[derive(Debug, Clone, Copy, Eq, PartialEq, Structural)]
pub enum TransactionError {
    /// The type field names no known event kind.
    UnknownType,
    /// A deposit or withdrawal came without an amount field.
    MissingAmount,
    /// The amount field is not a representable decimal quantity.
    BadAmount,
    /// The amount field denotes a strictly negative quantity.
    NegativeAmount,
    /// The client field is not an account identifier.
    BadClient,
    /// The tx field is not an event identifier.
    BadId,
}

/// One validated financial event.
#[derive(Debug, Clone, Copy, Eq, PartialEq, Structural)]
pub struct Transaction {
    pub tx_type: TransactionType,
    pub account: AccountID,
    pub id: TxID,
    pub amount: Option<Money>,
}

/// Whether an event may legally follow `ancestor` as the most recently
/// accepted event sharing its id: ids and accounts must match; deposits and
/// withdrawals never chain onto an existing id; a dispute may follow anything
/// but an open dispute; a resolve or chargeback may follow only an open
/// dispute.
pub open spec fn spec_valid_successor(c: Transaction, a: Transaction) -> bool {
    c.account == a.account && c.id == a.id && match c.tx_type {
        TransactionType::Deposit | TransactionType::Withdrawal => false,
        TransactionType::Dispute => a.tx_type != TransactionType::Dispute,
        TransactionType::Resolve | TransactionType::Chargeback => a.tx_type
            == TransactionType::Dispute,
    }
}

/// Whether an event kind may open a history entry of its own.
pub open spec fn is_origin_kind(k: TransactionType) -> bool {
    k == TransactionType::Deposit || k == TransactionType::Withdrawal
}

/// The amount a transaction carries, taken as zero when absent.
pub open spec fn amount_view(t: Transaction) -> int {
    match t.amount {
        Some(m) => m@,
        None => 0,
    }
}

/// The UTF-8 bytes of a text field.
pub open spec fn string_bytes(s: Seq<char>) -> Seq<u8> {
    vstd::utf8::encode_utf8(s)
}

/// The event kind named by `s`: one of the five keywords, compared after
/// trimming surrounding ASCII whitespace and ASCII lower-casing.
pub open spec fn spec_kind_from_text(s: Seq<u8>) -> Option<TransactionType> {
    let t = lower_seq(trim_spec(s));
    if t == "deposit".spec_bytes() {
        Some(TransactionType::Deposit)
    } else if t == "withdrawal".spec_bytes() {
        Some(TransactionType::Withdrawal)
    } else if t == "dispute".spec_bytes() {
        Some(TransactionType::Dispute)
    } else if t == "resolve".spec_bytes() {
        Some(TransactionType::Resolve)
    } else if t == "chargeback".spec_bytes() {
        Some(TransactionType::Chargeback)
    } else {
        None
    }
}

/// The transaction denoted by a raw record: the kind decides whether an
/// amount is required (deposits and withdrawals) or ignored (dispute-family
/// events); a required amount must be a representable, non-negative decimal;
/// client and tx must be unsigned identifiers in range.
pub open spec fn spec_transaction_from(input: InputTransaction) -> Result<
    Transaction,
    TransactionError,
> {
    match spec_kind_from_text(string_bytes(input.tx_type@)) {
        None => Err(TransactionError::UnknownType),
        Some(k) => {
            let amount_r: Result<Option<Money>, TransactionError> = if is_origin_kind(k) {
                match input.amount {
                    None => Err(TransactionError::MissingAmount),
                    Some(a) => match spec_money_from_text(string_bytes(a@)) {
                        Err(_) => Err(TransactionError::BadAmount),
                        Ok(m) => if spec_money_text_negative(string_bytes(a@)) {
                            Err(TransactionError::NegativeAmount)
                        } else {
                            Ok(Some(m))
                        },
                    },
                }
            } else {
                Ok(None)
            };
            match amount_r {
                Err(e) => Err(e),
                Ok(amt) => match spec_parse_uint(string_bytes(input.client@), u16::MAX as nat) {
                    None => Err(TransactionError::BadClient),
                    Some(c) => match spec_parse_uint(string_bytes(input.id@), u32::MAX as nat) {
                        None => Err(TransactionError::BadId),
                        Some(id) => Ok(
                            Transaction {
                                tx_type: k,
                                account: c as AccountID,
                                id: id as TxID,
                                amount: amt,
                            },
                        ),
                    },
                },
            }
        },
    }
}

impl TransactionType {
    /// Reads the event kind named by `input`, as `spec_kind_from_text`
    /// describes.
    pub fn try_from(input: String) -> (r: Result<TransactionType, TransactionError>)
        ensures
            r == match spec_kind_from_text(string_bytes(input@)) {
                Some(k) => Ok::<TransactionType, TransactionError>(k),
                None => Err::<TransactionType, TransactionError>(TransactionError::UnknownType),
            },
    {
        let st: &str = input.as_str();
        let bytes: &[u8] = st.as_bytes();
        let (a, b) = trim_range(bytes);
        let t: &[u8] = &bytes[a..b];
        let low: Vec<u8> = lower_bytes(t);
        if bytes_eq(low.as_slice(), "deposit".as_bytes()) {
            Ok(TransactionType::Deposit)
        } else if bytes_eq(low.as_slice(), "withdrawal".as_bytes()) {
            Ok(TransactionType::Withdrawal)
        } else if bytes_eq(low.as_slice(), "dispute".as_bytes()) {
            Ok(TransactionType::Dispute)
        } else if bytes_eq(low.as_slice(), "resolve".as_bytes()) {
            Ok(TransactionType::Resolve)
        } else if bytes_eq(low.as_slice(), "chargeback".as_bytes()) {
            Ok(TransactionType::Chargeback)
        } else {
            Err(TransactionError::UnknownType)
        }
    }
}

impl Transaction {
    /// The account this event addresses.
    pub fn account(&self) -> (r: AccountID)
        ensures
            r == self.account,
    {
        self.account
    }

    /// The amount this event carries, zero when it carries none.
    pub fn amount(&self) -> (r: Money)
        ensures
            r@ == amount_view(*self),
    {
        match self.amount {
            Some(m) => m,
            None => Money::zero(),
        }
    }

    /// The kind of this event.
    pub fn tx_type(&self) -> (r: TransactionType)
        ensures
            r == self.tx_type,
    {
        self.tx_type
    }

    /// The event identifier.
    pub fn id(&self) -> (r: TxID)
        ensures
            r == self.id,
    {
        self.id
    }

    /// Decides whether this event may legally follow `ancestor` as the most
    /// recently accepted event sharing its id, as `spec_valid_successor`
    /// describes.
    pub fn valid_ancestor(&self, ancestor: &Self) -> (r: AncestorState)
        ensures
            r == (if spec_valid_successor(*self, *ancestor) {
                AncestorState::Valid
            } else {
                AncestorState::Invalid
            }),
    {
        if self.account != ancestor.account {
            return AncestorState::Invalid;
        }
        if self.id != ancestor.id {
            return AncestorState::Invalid;
        }
        match self.tx_type {
            TransactionType::Deposit | TransactionType::Withdrawal => AncestorState::Invalid,
            TransactionType::Dispute => {
                match ancestor.tx_type {
                    TransactionType::Deposit | TransactionType::Withdrawal => AncestorState::Valid,
                    TransactionType::Dispute => AncestorState::Invalid,
                    TransactionType::Resolve | TransactionType::Chargeback => AncestorState::Valid,
                }
            },
            TransactionType::Resolve | TransactionType::Chargeback => {
                match ancestor.tx_type {
                    TransactionType::Deposit | TransactionType::Withdrawal => {
                        AncestorState::Invalid
                    },
                    TransactionType::Dispute => AncestorState::Valid,
                    TransactionType::Resolve | TransactionType::Chargeback => {
                        AncestorState::Invalid
                    },
                }
            },
        }
    }

    /// Validates a raw record, as `spec_transaction_from` describes.
    pub fn try_from(input: InputTransaction) -> (r: Result<Transaction, TransactionError>)
        ensures
            r == spec_transaction_from(input),
    {
        let kind: TransactionType = match TransactionType::try_from(input.tx_type) {
            Ok(k) => k,
            Err(e) => {
                return Err(e);
            },
        };
        let amount: Option<Money> = match kind {
            TransactionType::Deposit | TransactionType::Withdrawal => {
                let a: String = match input.amount {
                    Some(a) => a,
                    None => {
                        return Err(TransactionError::MissingAmount);
                    },
                };
                let m: Money = match Money::from_decimal_string(a.as_str()) {
                    Ok(m) => m,
                    Err(_) => {
                        return Err(TransactionError::BadAmount);
                    },
                };
                if text_is_negative(a.as_str()) {
                    return Err(TransactionError::NegativeAmount);
                }
                Some(m)
            },
            _ => None,
        };
        let account: AccountID = match parse_uint(input.client.as_str().as_bytes(), u16::MAX as u64) {
            Some(c) => c as AccountID,
            None => {
                return Err(TransactionError::BadClient);
            },
        };
        let id: TxID = match parse_uint(input.id.as_str().as_bytes(), u32::MAX as u64) {
            Some(i) => i as TxID,
            None => {
                return Err(TransactionError::BadId);
            },
        };
        Ok(Transaction { tx_type: kind, account, id, amount })
    }
}

/// A well-formed deposit or withdrawal record is accepted at the boundary:
/// when the type field names an origin kind, the amount field denotes a
/// representable, non-negative decimal, and the client and tx fields are
/// identifiers in range, validation succeeds and the transaction carries the
/// amount rounded at the fixed scale — an exact fixed-scale decimal, never a
/// float.
pub proof fn lemma_origin_record_accepted(
    input: InputTransaction,
    k: TransactionType,
    m: Money,
    client: nat,
    id: nat,
)
    requires
        spec_kind_from_text(string_bytes(input.tx_type@)) == Some(k),
        is_origin_kind(k),
        input.amount matches Some(a) && spec_money_from_text(string_bytes(a@)) == Ok::<
            Money,
            MoneyParseError,
        >(m) && !spec_money_text_negative(string_bytes(a@)),
        spec_parse_uint(string_bytes(input.client@), u16::MAX as nat) == Some(client),
        spec_parse_uint(string_bytes(input.id@), u32::MAX as nat) == Some(id),
    ensures
        spec_transaction_from(input) == Ok::<Transaction, TransactionError>(
            Transaction {
                tx_type: k,
                account: client as AccountID,
                id: id as TxID,
                amount: Some(m),
            },
        ),
{
}

/// Whether an event may be accepted against its ancestor.
#[derive(Debug, Clone, Copy, Eq, PartialEq, Structural)]
pub enum AncestorState {
    /// The ancestor allows the candidate to occur.
    Valid,
    /// The ancestor forbids the candidate.
    Invalid,
}

} // verus!
