//! Wallet primitives for Bitcoin, EVM chains, Solana and Tron.
//!
//! Everything here is a deterministic function of its arguments: address
//! validation, coin selection, transaction assembly and signing, and the
//! arithmetic behind balance queries. Network access, key custody and endpoint
//! policy stay with the host.
pub mod address;
pub mod chain;
pub mod client;
pub mod digest;
pub mod error;
pub mod key;
pub mod secp;
pub mod text;
pub mod tx;
