//! A micro-ledger behind an authorization check: users hold fungible
//! balances, may
//! publish short posts, and each post debits a fixed fee that is split
//! between the contract owner and the agent named in the authorization
//! token. The modules here hold the verified core: balance accounting,
//! the append-only post store, validation, and the fee-split arithmetic.
//! The host that persists state, moves native coins, and checks token
//! signatures stands outside this crate and hands it plain values.

pub mod contract;
pub mod error;
pub mod ledger;
pub mod msg;
pub mod state;
