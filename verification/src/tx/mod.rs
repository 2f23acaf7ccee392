//! Transaction building and signing.
//!
//! A transaction is built and signed from its fields and a key, with no
//! network involved, so signing is a deterministic function of its inputs.
use vstd::prelude::*;

pub mod btc;
pub mod tron;

verus! {

/// Errors raised while building or signing a transaction.
#[derive(Debug, Clone, PartialEq, Eq)]
pub enum Error {
    /// An address in the transaction was rejected.
    Address(crate::error::Error),
    /// A field was structurally invalid.
    InvalidField {
        /// Which field.
        field: &'static str,
        /// Why it was rejected.
        reason: String,
    },
    /// Signing failed. Carries no key material.
    Signing {
        /// What went wrong.
        reason: String,
    },
    /// The available coins cannot cover what the transfer needs.
    InsufficientFunds {
        /// Total value of the coins offered, in satoshis.
        available: u64,
        /// Amount plus fee, in satoshis.
        required: u64,
    },
    /// A node's answer does not match what was asked of it.
    UntrustedResponse {
        /// What did not match.
        reason: String,
    },
}

} // verus!
