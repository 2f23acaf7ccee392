//! The chains this crate knows about.
use vstd::prelude::*;

verus! {

/// A blockchain family handled by this crate.
#[derive(Debug, Clone, Copy, PartialEq, Eq, Hash, Structural)]
pub enum Chain {
    /// Bitcoin mainnet.
    Btc,
    /// Ethereum and EVM-compatible chains.
    Evm,
    /// Solana.
    Solana,
    /// Tron.
    Tron,
}

} // verus!
