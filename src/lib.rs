//! Address ledger: finds every transfer that touches an account on a chain,
//! attributes each one to the query pass that found it, keeps a signed net
//! balance and returns the transactions ordered by block time.

pub mod decimal;
pub mod events;
pub mod amount;
pub mod ledger;
pub mod pagination;
pub mod aggregator;
pub mod config;
pub mod context;
pub mod export;
