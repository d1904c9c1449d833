//! A minimal blockchain: SHA-256 linked blocks with Proof-of-Work, a Merkle
//! commitment to each block's transactions, Ed25519 signatures, balance
//! tracking with a pending mempool, and password-sealed wallets.

pub mod config;
pub mod encoding;
pub mod types;
pub mod error;
pub mod crypto;
pub mod chain;
pub mod api;
pub mod node;
