//! Per-account monetary ledgers driven by an ordered stream of financial
//! events (deposit, withdrawal, dispute, resolve, chargeback).

pub mod money;
pub mod parse;
pub mod primitives;
pub mod transaction;
pub mod account;
pub mod service;
