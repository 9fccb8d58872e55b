//! A minimal append-only ledger: hash-linked blocks, whole-chain validation,
//! and the longest-chain replacement rule.

pub mod blockchain;
pub mod hashing;
pub mod laws;
pub mod node;
