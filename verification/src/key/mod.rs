//! Key derivation.
use vstd::prelude::*;

pub mod bip32;
pub mod btc;

verus! {

/// Errors raised while deriving a key.
#[derive(Debug, Clone, PartialEq, Eq)]
pub enum Error {
    /// A derivation step failed.
    Derivation {
        /// Which step.
        step: &'static str,
    },
    /// The derivation path does not parse.
    InvalidPath {
        /// The path as given.
        path: String,
        /// What the parser reported.
        reason: String,
    },
}

} // verus!
