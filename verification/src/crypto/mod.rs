//! Transactions, wallets and the cryptographic primitives they rest on.

pub mod primitives;
pub mod transaction;
pub mod wallet;
