//! BIP-32 derivation on secp256k1, shared by Bitcoin, EVM and Tron.
//!
//! Uses `bitcoin`'s `Xpriv`, a vetted BIP-32 implementation: an off-by-one in
//! hardened-index encoding would produce a valid key for the wrong account.
use vstd::prelude::*;

use std::str::FromStr;

use bitcoin::bip32::{DerivationPath, Xpriv};
use bitcoin::secp256k1::{PublicKey, Secp256k1, SecretKey};
use bitcoin::Network;

use super::Error;

verus! {

broadcast use vstd::string::group_string_axioms;

/// Whether `Xpriv::new_master` accepts `seed`.
pub uninterp spec fn bip32_master_valid(seed: Seq<u8>) -> bool;

/// What `DerivationPath::from_str` reports for `path`, rendered; `None` when
/// it parses.
pub uninterp spec fn bip32_path_error(path: Seq<char>) -> Option<Seq<char>>;

/// The secret key `Xpriv::derive_priv` reaches from the master key of `seed`
/// along `path`; `None` when derivation fails.
pub uninterp spec fn bip32_child_secret(seed: Seq<u8>, path: Seq<char>) -> Option<Seq<u8>>;

/// The 65-byte uncompressed SEC1 public key of a secret key.
pub uninterp spec fn secp_uncompressed_public_key(secret: Seq<u8>) -> Seq<u8>;

/// Whether a BIP-32 master key can be made from `seed`.
///
/// Trusted: calls `Xpriv::new_master(Network::Bitcoin, seed)`. The contract
/// claims only that the answer is [`bip32_master_valid`] of the seed; the
/// network only selects serialization version bytes.
#[verifier::external_body]
fn master_valid(seed: &[u8]) -> (valid: bool)
    ensures
        valid == bip32_master_valid(seed@),
{
    Xpriv::new_master(Network::Bitcoin, seed).is_ok()
}

/// Parses a derivation path such as `m/44'/195'/0'/0/0`.
///
/// Trusted: calls `<DerivationPath as FromStr>::from_str`. The contract claims
/// only that the outcome, with the error rendered by its `Display`, is
/// [`bip32_path_error`] of the path.
#[verifier::external_body]
fn path_error(path: &str) -> (res: Option<String>)
    ensures
        match res {
            None => bip32_path_error(path@) is None,
            Some(message) => bip32_path_error(path@) == Some(message@),
        },
{
    match DerivationPath::from_str(path) {
        Ok(_) => None,
        Err(e) => Some(e.to_string()),
    }
}

/// Derives the child secret key at `path` from the master key of `seed`.
///
/// Trusted: calls `Xpriv::derive_priv` on `Xpriv::new_master(Network::Bitcoin,
/// seed)` with the parsed path, and returns the child's `private_key` bytes.
/// The contract claims that the outcome is [`bip32_child_secret`] of the seed
/// and path, and that a derived secret is a valid secret key (a `SecretKey`
/// holds nothing else).
#[verifier::external_body]
fn child_secret(seed: &[u8], path: &str) -> (res: Option<[u8; 32]>)
    requires
        bip32_master_valid(seed@),
        bip32_path_error(path@) is None,
    ensures
        match res {
            Some(secret) => bip32_child_secret(seed@, path@) == Some(secret@)
                && crate::secp::valid_secret_key(secret@),
            None => bip32_child_secret(seed@, path@) is None,
        },
{
    let master = Xpriv::new_master(Network::Bitcoin, seed).expect("the caller checked the seed");
    let parsed = DerivationPath::from_str(path).expect("the caller checked the path");
    match master.derive_priv(&Secp256k1::new(), &parsed) {
        Ok(child) => Some(child.private_key.secret_bytes()),
        Err(_) => None,
    }
}

/// The uncompressed public key of a secret key.
///
/// Trusted: calls `SecretKey::public_key` and `PublicKey::serialize_uncompressed`.
/// The contract claims only that the 65 bytes are
/// [`secp_uncompressed_public_key`] of the secret.
#[verifier::external_body]
fn uncompressed_public_key(secret: &[u8; 32]) -> (public: [u8; 65])
    requires
        crate::secp::valid_secret_key(secret@),
    ensures
        public@ == secp_uncompressed_public_key(secret@),
{
    let key = SecretKey::from_slice(secret).expect("the caller checked the key");
    PublicKey::from_secret_key(&Secp256k1::new(), &key).serialize_uncompressed()
}

/// A secp256k1 key derived at a BIP-32 path.
#[derive(Debug, Clone, PartialEq, Eq)]
pub struct Secp256k1Key {
    /// The 32-byte secret key.
    pub secret: [u8; 32],
    /// The 65-byte uncompressed SEC1 public key, `0x04` prefix included.
    pub public: [u8; 65],
}

impl Secp256k1Key {
    /// The 65-byte uncompressed SEC1 encoding, `0x04` prefix included. EVM and
    /// Tron hash it, minus the prefix byte, to form an address.
    pub fn uncompressed_public(&self) -> (public: [u8; 65])
        ensures
            public == self.public,
    {
        self.public
    }
}

/// Walk `path` from the master key for `seed`.
///
/// # Errors
///
/// [`Error::Derivation`] when no master key can be made from the seed or a
/// child step fails, and [`Error::InvalidPath`] when the path does not parse
/// (checked after the master key).
pub fn derive(seed: &[u8], path: &str) -> (res: Result<Secp256k1Key, Error>)
    ensures
        !bip32_master_valid(seed@) ==> (res matches Err(Error::Derivation { step }) && step@
            == "BIP-32 master key"@),
        bip32_master_valid(seed@) && bip32_path_error(path@) is Some ==> (res matches Err(
            Error::InvalidPath { path: p, reason },
        ) && p@ == path@ && Some(reason@) == bip32_path_error(path@)),
        bip32_master_valid(seed@) && bip32_path_error(path@) is None ==> match bip32_child_secret(
            seed@,
            path@,
        ) {
            None => res matches Err(Error::Derivation { step }) && step@ == "BIP-32 child key"@,
            Some(secret) => res matches Ok(key) && key.secret@ == secret && key.public@
                == secp_uncompressed_public_key(secret) && crate::secp::valid_secret_key(secret),
        },
{
    if !master_valid(seed) {
        return Err(Error::Derivation { step: "BIP-32 master key" });
    }
    if let Some(reason) = path_error(path) {
        return Err(Error::InvalidPath { path: path.to_string(), reason });
    }
    match child_secret(seed, path) {
        None => Err(Error::Derivation { step: "BIP-32 child key" }),
        Some(secret) => {
            let public = uncompressed_public_key(&secret);
            Ok(Secp256k1Key { secret, public })
        },
    }
}

} // verus!
