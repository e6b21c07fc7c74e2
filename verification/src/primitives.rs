//! Shared identifiers, the fixed decimal scale, and the message type that
//! carries work to the processing service.

use vstd::prelude::*;
use crate::money::Money;
use crate::transaction::Transaction;

verus! {

/// Fixed number of fractional decimal digits carried by every monetary value.
pub const PRECISION: u32 = 4;

/// Capacity of each account worker's mailbox; a full mailbox blocks the
/// sender rather than dropping events.
pub const CHANNEL_BUFFER_SIZE: usize = 100;

/// Identifier of an account.
pub type AccountID = u16;

/// Identifier of a financial event.
pub type TxID = u32;

/// The monetary quantity used for all balances.
pub type Coin = Money;

/// One unit of work for the processing service: a transaction to apply, or
/// the signal that the input stream has ended.
#[derive(Debug, Clone, Copy)]
pub enum Message {
    Tx(Transaction),
    Stop,
}

} // verus!
