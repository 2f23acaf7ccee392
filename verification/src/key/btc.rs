//! Bitcoin key derivation: BIP-32 on secp256k1, P2WPKH address.
//!
//! Produces a native segwit (`bc1q…`) address, matching
//! [`crate::address::btc::validate_sender`], the only script type this crate
//! signs for. A P2PKH or P2SH address here would pass recipient validation and
//! then fail at signing time.
use vstd::prelude::*;

use super::Error;
use crate::address::btc::p2wpkh_address;
use crate::secp::compressed_public_key;

verus! {

/// Derive the Bitcoin signing key at `path` from `seed`, with its P2WPKH
/// mainnet address.
///
/// Returns the address and the 32-byte secret key. The address is one that
/// [`crate::address::btc::validate_sender`] accepts and returns unchanged.
///
/// # Errors
///
/// As [`super::bip32::derive`].
pub fn derive(seed: &[u8], path: &str) -> (res: Result<(String, [u8; 32]), Error>)
    ensures
        !super::bip32::bip32_master_valid(seed@) ==> (res matches Err(Error::Derivation { step }) && step@
            == "BIP-32 master key"@),
        super::bip32::bip32_master_valid(seed@) && super::bip32::bip32_path_error(path@) is Some ==> (
        res matches Err(Error::InvalidPath { path: p, reason }) && p@ == path@ && Some(reason@)
            == super::bip32::bip32_path_error(path@)),
        super::bip32::bip32_master_valid(seed@) && super::bip32::bip32_path_error(path@) is None
            ==> match super::bip32::bip32_child_secret(seed@, path@) {
            None => res matches Err(Error::Derivation { step }) && step@ == "BIP-32 child key"@,
            Some(secret) => res matches Ok((address, key)) && key@ == secret
                && crate::secp::valid_secret_key(secret) && address@
                == crate::address::btc::p2wpkh_address_text(
                crate::secp::secp_compressed_public_key(secret),
            ) && crate::address::btc::btc_sender_accepts(address@) && crate::text::trim(address@)
                == address@,
        },
{
    let key = super::bip32::derive(seed, path)?;
    let public = compressed_public_key(&key.secret);
    let address = p2wpkh_address(&public);
    proof {
        crate::address::btc::lemma_p2wpkh_text_is_a_sender(address@);
    }
    Ok((address, key.secret))
}

} // verus!
