//! Bitcoin address validation.
//!
//! Two functions, because the answer depends on which side of a transaction
//! the address sits on: [`validate`] accepts any well-formed mainnet address
//! (right for a recipient), [`validate_sender`] additionally requires P2WPKH,
//! the only script type this crate signs for.
use vstd::prelude::*;

use std::str::FromStr;

use bitcoin::key::CompressedPublicKey;
use bitcoin::{Address, Network};

use crate::chain::Chain;
use crate::error::Error;
use crate::text::trim_str;

verus! {

broadcast use vstd::string::group_string_axioms;

/// What `bitcoin` reports when parsing `text` as an address fails, rendered;
/// `None` when it parses.
pub uninterp spec fn btc_address_parse_error(text: Seq<char>) -> Option<Seq<char>>;

/// For text that parses as an address, what `require_network(Network::Bitcoin)`
/// reports, rendered; `None` when the address is a mainnet one.
pub uninterp spec fn btc_address_network_error(text: Seq<char>) -> Option<Seq<char>>;

/// For text that parses as an address, the bytes of the scriptPubKey that pays
/// to it.
pub uninterp spec fn btc_address_script(text: Seq<char>) -> Seq<u8>;

/// Parses `text` as a Bitcoin address of any network.
///
/// Trusted: calls `<Address<NetworkUnchecked> as FromStr>::from_str`. The
/// contract claims only that the outcome, with the error rendered by its
/// `Display`, is [`btc_address_parse_error`] of the text.
#[verifier::external_body]
pub(crate) fn parse_error(text: &str) -> (res: Option<String>)
    ensures
        match res {
            None => btc_address_parse_error(text@) is None,
            Some(message) => btc_address_parse_error(text@) == Some(message@),
        },
{
    match Address::from_str(text) {
        Ok(_) => None,
        Err(e) => Some(e.to_string()),
    }
}

/// Checks that a parsed address belongs to Bitcoin mainnet.
///
/// Trusted: calls `Address::<NetworkUnchecked>::require_network(Network::Bitcoin)`
/// on the address that `text` parses to. The contract claims only that the
/// outcome, with the error rendered by its `Display`, is
/// [`btc_address_network_error`] of the text.
#[verifier::external_body]
fn network_error(text: &str) -> (res: Option<String>)
    requires
        btc_address_parse_error(text@) is None,
    ensures
        match res {
            None => btc_address_network_error(text@) is None,
            Some(message) => btc_address_network_error(text@) == Some(message@),
        },
{
    match Address::from_str(text).expect("the caller checked that the text parses").require_network(
        Network::Bitcoin,
    ) {
        Ok(_) => None,
        Err(e) => Some(e.to_string()),
    }
}

/// The scriptPubKey paying to the address `text` parses to.
///
/// Trusted: calls `Address::script_pubkey` on the parsed address (marked
/// checked, as the network is not consulted) and returns the script's bytes.
/// The contract claims only that they are [`btc_address_script`] of the text.
#[verifier::external_body]
pub(crate) fn address_script(text: &str) -> (script: Vec<u8>)
    requires
        btc_address_parse_error(text@) is None,
    ensures
        script@ == btc_address_script(text@),
{
    Address::from_str(text).expect("the caller checked that the text parses").assume_checked().script_pubkey().into_bytes()
}

/// The P2WPKH mainnet address (`bc1q…`) of a compressed public key.
pub uninterp spec fn p2wpkh_address_text(public: Seq<u8>) -> Seq<char>;

/// What the text of a P2WPKH mainnet address is known to satisfy: it is
/// lowercase bech32 (ASCII lowercase letters and digits), it parses as a
/// mainnet address paying to a P2WPKH script, and its ASCII uppercase form,
/// which BIP-173 also allows, parses to the same address.
pub open spec fn p2wpkh_text_facts(address: Seq<char>) -> bool {
    let upper = crate::text::ascii_upper(address);
    &&& address.len() > 0
    &&& forall|i: int| 0 <= i < address.len() ==> crate::text::is_lower_alnum(#[trigger] address[i])
    &&& btc_address_parse_error(address) is None
    &&& btc_address_network_error(address) is None
    &&& is_p2wpkh(btc_address_script(address))
    &&& btc_address_parse_error(upper) is None
    &&& btc_address_network_error(upper) is None
    &&& btc_address_script(upper) == btc_address_script(address)
}

/// The P2WPKH mainnet address of a compressed public key.
///
/// Trusted: parses the key with `CompressedPublicKey::from_slice` (it comes
/// from [`crate::secp::compressed_public_key`], so it parses) and calls
/// `Address::p2wpkh(&key, Network::Bitcoin)`, rendered with `to_string`. The
/// contract claims that the text is [`p2wpkh_address_text`] of the key, and
/// what the source shows of that text: `Display` writes a segwit address as
/// lowercase bech32 (`bc1q` and the bech32 alphabet); `FromStr` decodes it
/// back to the same mainnet P2WPKH address; and `bech32::segwit::decode`
/// accepts its all-uppercase form too (`check_characters` refuses only mixed
/// case, `Fe32::from_char` and `Hrp`'s equality ignore case), so that form
/// parses to the same address with the same script.
#[verifier::external_body]
pub(crate) fn p2wpkh_address(public: &[u8; 33]) -> (address: String)
    requires
        exists|secret: Seq<u8>|
            crate::secp::valid_secret_key(secret) && crate::secp::secp_compressed_public_key(secret)
                == public@,
    ensures
        address@ == p2wpkh_address_text(public@),
        address@.len() > 0,
        forall|i: int| 0 <= i < address@.len() ==> crate::text::is_lower_alnum(#[trigger] address@[i]),
        btc_address_parse_error(address@) is None,
        btc_address_network_error(address@) is None,
        is_p2wpkh(btc_address_script(address@)),
        btc_address_parse_error(crate::text::ascii_upper(address@)) is None,
        btc_address_network_error(crate::text::ascii_upper(address@)) is None,
        btc_address_script(crate::text::ascii_upper(address@)) == btc_address_script(address@),
{
    let key = CompressedPublicKey::from_slice(public).expect("a key derived from a valid secret");
    Address::p2wpkh(&key, Network::Bitcoin).to_string()
}

/// A P2WPKH scriptPubKey: `OP_0 OP_PUSHBYTES_20 <20-byte key hash>`, which is
/// what `Script::is_p2wpkh` checks.
pub open spec fn is_p2wpkh(script: Seq<u8>) -> bool {
    script.len() == 22 && script[0] == 0x00 && script[1] == 0x14
}

/// Whether `script` is a P2WPKH scriptPubKey.
pub fn is_p2wpkh_script(script: &[u8]) -> (p2wpkh: bool)
    ensures
        p2wpkh == is_p2wpkh(script@),
{
    script.len() == 22 && script[0] == 0x00 && script[1] == 0x14
}

/// `address` is a well-formed Bitcoin mainnet address once trimmed.
pub open spec fn btc_accepts(address: Seq<char>) -> bool {
    let t = crate::text::trim(address);
    t.len() > 0 && btc_address_parse_error(t) is None && btc_address_network_error(t) is None
}

/// `address` is a well-formed Bitcoin mainnet P2WPKH address once trimmed.
pub open spec fn btc_sender_accepts(address: Seq<char>) -> bool {
    btc_accepts(address) && is_p2wpkh(btc_address_script(crate::text::trim(address)))
}

/// The error [`validate`] reports for an address it rejects.
pub open spec fn btc_validate_error(address: Seq<char>, e: Error) -> bool {
    let t = crate::text::trim(address);
    if t.len() == 0 {
        e == Error::EmptyAddress { chain: Chain::Btc }
    } else {
        match btc_address_parse_error(t) {
            Some(message) => match e {
                Error::InvalidAddress { chain, address: a, reason } => chain == Chain::Btc && a@ == t
                    && reason@ == message,
                _ => false,
            },
            None => match (btc_address_network_error(t), e) {
                (Some(message), Error::WrongNetwork { chain, address: a, expected, reason }) => {
                    &&& chain == Chain::Btc
                    &&& a@ == t
                    &&& expected@ == "mainnet"@
                    &&& reason@ == message
                },
                _ => false,
            },
        }
    }
}

/// The error [`validate_sender`] reports for an address it rejects: whatever
/// [`validate`] reports, and otherwise that the type is not P2WPKH.
pub open spec fn btc_sender_error(address: Seq<char>, e: Error) -> bool {
    if !btc_accepts(address) {
        btc_validate_error(address, e)
    } else {
        match e {
            Error::UnsupportedAddressType { chain, address: a, reason } => {
                &&& chain == Chain::Btc
                &&& a@ == crate::text::trim(address)
                &&& reason@ == "only P2WPKH (bc1q… native segwit) can be signed for"@
            },
            _ => false,
        }
    }
}

/// Validate a Bitcoin mainnet address of any type, returning it trimmed.
///
/// Use this for transaction recipients.
///
/// # Errors
///
/// - [`Error::EmptyAddress`] if `address` is empty or all whitespace.
/// - [`Error::InvalidAddress`] if it does not parse as a Bitcoin address.
/// - [`Error::WrongNetwork`] if it parses but belongs to testnet, signet or
///   regtest.
pub fn validate(address: &str) -> (res: Result<String, Error>)
    ensures
        btc_accepts(address@) <==> res is Ok,
        res matches Ok(valid) ==> valid@ == crate::text::trim(address@),
        res matches Err(e) ==> btc_validate_error(address@, e),
{
    let trimmed = trim_str(address);
    if trimmed.is_empty() {
        return Err(Error::EmptyAddress { chain: Chain::Btc });
    }
    if let Some(reason) = parse_error(trimmed) {
        return Err(Error::InvalidAddress { chain: Chain::Btc, address: trimmed.to_string(), reason });
    }
    if let Some(reason) = network_error(trimmed) {
        return Err(
            Error::WrongNetwork {
                chain: Chain::Btc,
                address: trimmed.to_string(),
                expected: "mainnet".to_string(),
                reason,
            },
        );
    }
    Ok(trimmed.to_string())
}

/// Validate a Bitcoin address usable as a sender, returning it trimmed.
///
/// Everything [`validate`] requires, plus the address must be P2WPKH (native
/// segwit, `bc1q…`). A failure [`validate`] would report is reported first.
///
/// # Errors
///
/// - Everything [`validate`] returns.
/// - [`Error::UnsupportedAddressType`] if the address is well-formed mainnet
///   but not P2WPKH.
pub fn validate_sender(address: &str) -> (res: Result<String, Error>)
    ensures
        btc_sender_accepts(address@) <==> res is Ok,
        res matches Ok(valid) ==> valid@ == crate::text::trim(address@),
        res matches Err(e) ==> btc_sender_error(address@, e),
{
    let trimmed = validate(address)?;
    let script = address_script(trimmed.as_str());
    if !is_p2wpkh_script(script.as_slice()) {
        return Err(
            Error::UnsupportedAddressType {
                chain: Chain::Btc,
                address: trimmed,
                reason: "only P2WPKH (bc1q… native segwit) can be signed for".to_string(),
            },
        );
    }
    Ok(trimmed)
}

/// The sender rule is strictly narrower than the recipient rule: every
/// address accepted as a sender is accepted as a recipient, and both return
/// the same trimmed text.
pub proof fn lemma_sender_rule_is_narrower(address: Seq<char>)
    ensures
        btc_sender_accepts(address) ==> btc_accepts(address),
{
}

/// The text of a P2WPKH mainnet address, and its ASCII uppercase form, are
/// both accepted as senders, each as it stands.
pub(crate) proof fn lemma_p2wpkh_text_is_a_sender(address: Seq<char>)
    requires
        p2wpkh_text_facts(address),
    ensures
        btc_sender_accepts(address),
        crate::text::trim(address) == address,
        btc_sender_accepts(crate::text::ascii_upper(address)),
        crate::text::trim(crate::text::ascii_upper(address)) == crate::text::ascii_upper(address),
{
    crate::text::lemma_lower_alnum_text(address);
}

/// Validation is idempotent: the trimmed address it returns validates again,
/// to itself, under both rules.
pub proof fn lemma_validate_idempotent(address: Seq<char>)
    ensures
        btc_accepts(address) ==> btc_accepts(crate::text::trim(address)) && crate::text::trim(
            crate::text::trim(address),
        ) == crate::text::trim(address),
        btc_sender_accepts(address) ==> btc_sender_accepts(crate::text::trim(address)),
{
    crate::text::lemma_trim_idempotent(address);
}

/// Every well-formed mainnet address is a recipient, whatever its script
/// type (P2PKH, P2SH, P2WPKH, P2WSH, P2TR): recipient validation refuses only
/// text that is empty once trimmed, does not parse, or belongs to another
/// network, and its errors say which of those it was.
pub proof fn lemma_every_mainnet_address_is_a_recipient(address: Seq<char>)
    ensures
        crate::text::trim(address).len() > 0 && btc_address_parse_error(crate::text::trim(address)) is None
            && btc_address_network_error(crate::text::trim(address)) is None ==> btc_accepts(address),
        forall|e: Error|
            #[trigger] btc_validate_error(address, e) ==> (e is EmptyAddress || e is InvalidAddress
                || e is WrongNetwork),
{
}

/// A sender is only ever a P2WPKH address: the scriptPubKey of an accepted
/// sender is exactly `OP_0 OP_PUSHBYTES_20` and a 20-byte key hash, so a
/// mainnet address with a witness v1 (taproot, `OP_1 …`) script is refused as
/// an unsupported type.
pub proof fn lemma_a_sender_pays_to_a_key_hash(address: Seq<char>)
    ensures
        btc_sender_accepts(address) ==> ({
            let script = btc_address_script(crate::text::trim(address));
            &&& script.len() == 22
            &&& script[0] == 0x00
            &&& script[1] == 0x14
        }),
        btc_accepts(address) && btc_address_script(crate::text::trim(address)).len() > 0
            && btc_address_script(crate::text::trim(address))[0] == 0x51 ==> !btc_sender_accepts(address)
            && forall|e: Error| #[trigger] btc_sender_error(address, e) ==> e is UnsupportedAddressType,
{
}

} // verus!
