//! Replays a log of client transactions (deposits, withdrawals and the
//! dispute lifecycle) into final per-client account balances.

pub mod account;
pub mod amount;
pub mod config;
pub mod engine;
pub mod transaction;
