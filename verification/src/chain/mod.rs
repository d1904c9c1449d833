//! The chain itself: Merkle commitments, blocks, and the blockchain with its mempool.

pub mod merkle;
pub mod block;
pub mod blockchain;
