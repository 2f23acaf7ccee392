//! Address errors, shared by every chain.
use vstd::prelude::*;

use crate::chain::Chain;

verus! {

/// Why an address was rejected.
#[derive(Debug, Clone, PartialEq, Eq)]
pub enum Error {
    /// The address was empty or all whitespace.
    EmptyAddress {
        /// The chain it was meant for.
        chain: Chain,
    },
    /// The address does not parse for this chain.
    InvalidAddress {
        /// The chain it was meant for.
        chain: Chain,
        /// The address, trimmed.
        address: String,
        /// What the parser reported.
        reason: String,
    },
    /// The address parses, but belongs to another network of the chain.
    WrongNetwork {
        /// The chain it was meant for.
        chain: Chain,
        /// The address, trimmed.
        address: String,
        /// The network that was required.
        expected: String,
        /// What the network check reported.
        reason: String,
    },
    /// The address is well formed but of a type that cannot be used here.
    UnsupportedAddressType {
        /// The chain it was meant for.
        chain: Chain,
        /// The address, trimmed.
        address: String,
        /// Why the type is not supported.
        reason: String,
    },
}

} // verus!
