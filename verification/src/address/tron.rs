//! Tron addresses: base58check with the `0x41` version byte.
use vstd::prelude::*;

use crate::chain::Chain;
use crate::error::Error;
use crate::text::{to_hex_lower, trim_str};

verus! {

broadcast use vstd::string::group_string_axioms;

/// The version byte every Tron mainnet address starts with.
pub const TRON_VERSION_BYTE: u8 = 0x41;

/// What `bs58` decodes `text` to with checksum verification: the payload
/// without its four checksum bytes, or the error it reports, rendered.
pub uninterp spec fn bs58_check_payload(text: Seq<char>) -> Result<Seq<u8>, Seq<char>>;

/// Decodes base58check text.
///
/// Trusted: calls `bs58::decode(..).with_check(None).into_vec()`, which decodes
/// the base58 text, verifies the double-SHA-256 checksum and strips it. The
/// contract claims only that the result is [`bs58_check_payload`] of the text;
/// the encoding itself is not specified here.
#[verifier::external_body]
fn bs58_decode_check(text: &str) -> (res: Result<Vec<u8>, String>)
    ensures
        match res {
            Ok(payload) => bs58_check_payload(text@) == Ok::<Seq<u8>, Seq<char>>(payload@),
            Err(message) => bs58_check_payload(text@) == Err::<Seq<u8>, Seq<char>>(message@),
        },
{
    match bs58::decode(text).with_check(None).into_vec() {
        Ok(payload) => Ok(payload),
        Err(e) => Err(e.to_string()),
    }
}

/// The hex form of a Tron address (`41…`, 42 digits), if it is one.
pub open spec fn tron_hex(address: Seq<char>) -> Option<Seq<char>> {
    let t = crate::text::trim(address);
    match bs58_check_payload(t) {
        Ok(payload) => if t.len() > 0 && payload.len() == 21 && payload[0] == TRON_VERSION_BYTE {
            Some(crate::text::hex_lower(payload))
        } else {
            None
        },
        Err(_) => None,
    }
}

/// The error [`to_hex`] reports for an address that is not a Tron address.
pub open spec fn tron_address_error(address: Seq<char>, e: Error) -> bool {
    let t = crate::text::trim(address);
    if t.len() == 0 {
        e == Error::EmptyAddress { chain: Chain::Tron }
    } else {
        match e {
            Error::InvalidAddress { chain, address: a, reason } => {
                &&& chain == Chain::Tron
                &&& a@ == t
                &&& match bs58_check_payload(t) {
                    Err(message) => reason@ == message,
                    Ok(payload) => if payload.len() != 21 {
                        reason@ == "expected a 21-byte address payload"@
                    } else {
                        reason@ == "the version byte is not 0x41"@
                    },
                }
            },
            _ => false,
        }
    }
}

/// Convert a base58check Tron address (`T…`) to the hex form TronGrid wants.
///
/// # Errors
///
/// [`Error::EmptyAddress`] for an empty or all-whitespace address, and
/// [`Error::InvalidAddress`] when it does not decode, fails its checksum, or is
/// not a 21-byte payload starting with `0x41`.
pub fn to_hex(address: &str) -> (res: Result<String, Error>)
    ensures
        match res {
            Ok(hex) => tron_hex(address@) == Some(hex@),
            Err(e) => tron_hex(address@) is None && tron_address_error(address@, e),
        },
{
    let trimmed = trim_str(address);
    if trimmed.is_empty() {
        return Err(Error::EmptyAddress { chain: Chain::Tron });
    }
    match bs58_decode_check(trimmed) {
        Err(message) => Err(
            Error::InvalidAddress { chain: Chain::Tron, address: trimmed.to_string(), reason: message },
        ),
        Ok(payload) => {
            if payload.len() != 21 {
                Err(
                    Error::InvalidAddress {
                        chain: Chain::Tron,
                        address: trimmed.to_string(),
                        reason: "expected a 21-byte address payload".to_string(),
                    },
                )
            } else if payload[0] != TRON_VERSION_BYTE {
                Err(
                    Error::InvalidAddress {
                        chain: Chain::Tron,
                        address: trimmed.to_string(),
                        reason: "the version byte is not 0x41".to_string(),
                    },
                )
            } else {
                Ok(to_hex_lower(payload.as_slice()))
            }
        },
    }
}

} // verus!
