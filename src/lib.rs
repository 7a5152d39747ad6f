//! Wallet tracking backend: persisted user, wallet and address records,
//! enriched on read with live account data from an indexing service.

pub mod account;
pub mod records;
pub mod users;
pub mod wallets;
