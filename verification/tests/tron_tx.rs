//! Tron transaction verification and signing.

use tinywallet::address::tron::to_hex;
use tinywallet::tx::tron::{
    encode_varint, recompute_txid, sign, signature_hex, verify_transfer, verify_transfer_amount,
};
use tinywallet::tx::Error;

/// BIP-39 seed of "abandon abandon abandon abandon abandon abandon abandon
/// abandon abandon abandon abandon about" with an empty passphrase.
const VECTOR_SEED: &str = "5eb00bbddcf069084889a8ab9155568165f5c453ccb85e70811aaed6f6da5fc19a5ac40b389cd370d086206dec8aa6c43daea6690f20ad3d8d48b2d2ce9e38e4";
const TO: &str = "TR7NHqjeKQxGTCi8q8ZY4pL8otSzgjLj6t";

fn seed() -> Vec<u8> {
    (0..VECTOR_SEED.len())
        .step_by(2)
        .map(|i| u8::from_str_radix(&VECTOR_SEED[i..i + 2], 16).unwrap())
        .collect()
}

fn key() -> Vec<u8> {
    tinywallet::key::bip32::derive(&seed(), "m/44'/195'/0'/0/0").unwrap().secret.to_vec()
}

/// A `raw_data`-shaped hex blob embedding the recipient's hex address.
fn raw_data() -> String {
    let to_hex = to_hex(TO).unwrap();
    format!("0a02b1f42208{to_hex}5a0f")
}

#[test]
fn the_txid_is_sha256_of_the_raw_data() {
    let raw = raw_data();
    let id = recompute_txid(&raw).unwrap();
    assert_eq!(id.len(), 64, "sha256 is 32 bytes of hex");
    assert_eq!(id, recompute_txid(&raw).unwrap());
}

#[test]
fn a_tampered_raw_data_no_longer_matches_its_txid() {
    let raw = raw_data();
    let id = recompute_txid(&raw).unwrap();
    let tampered = raw.replace("0a02", "0a03");
    assert_ne!(tampered, raw);

    match verify_transfer(&tampered, TO, &id).unwrap_err() {
        Error::UntrustedResponse { reason } => assert!(reason.contains("altered")),
        other => panic!("expected UntrustedResponse, got {other:?}"),
    }
}

#[test]
fn a_transaction_paying_someone_else_is_rejected() {
    let raw = raw_data();
    let id = recompute_txid(&raw).unwrap();
    let other = "TLyqzVGLV1srkB7dToTAEqgDSfPtXRJZYH";
    match verify_transfer(&raw, other, &id).unwrap_err() {
        Error::UntrustedResponse { reason } => {
            assert!(reason.contains("does not pay the requested recipient"));
        }
        other => panic!("expected UntrustedResponse, got {other:?}"),
    }
}

#[test]
fn a_well_formed_transaction_verifies() {
    let raw = raw_data();
    let id = recompute_txid(&raw).unwrap();
    assert!(verify_transfer(&raw, TO, &id).is_ok());
}

#[test]
fn the_signature_is_65_bytes_ending_in_a_bare_recovery_id() {
    let signature = sign(&raw_data(), &key()).unwrap();
    assert_eq!(signature.len(), 65);
    assert!(signature[64] <= 3, "recovery id, not a v value");
    assert_eq!(signature_hex(&signature).len(), 130);
}

#[test]
fn signing_is_deterministic() {
    let raw = raw_data();
    assert_eq!(sign(&raw, &key()).unwrap(), sign(&raw, &key()).unwrap());
}

#[test]
fn different_raw_data_produces_a_different_signature() {
    let a = sign(&raw_data(), &key()).unwrap();
    let b = sign(&raw_data().replace("0a02", "0a03"), &key()).unwrap();
    assert_ne!(a, b);
}

#[test]
fn malformed_hex_is_rejected() {
    assert!(matches!(
        recompute_txid("abc").unwrap_err(),
        Error::InvalidField { .. }
    ));
    assert!(matches!(
        sign("zz", &key()).unwrap_err(),
        Error::InvalidField { .. }
    ));
}

#[test]
fn an_invalid_key_is_rejected() {
    assert!(matches!(
        sign(&raw_data(), &[0u8; 32]).unwrap_err(),
        Error::Signing { .. }
    ));
}

// Further cases.

#[test]
fn the_txid_of_empty_raw_data_is_the_sha256_of_nothing() {
    assert_eq!(
        recompute_txid("").unwrap(),
        "e3b0c44298fc1c149afbf4c8996fb92427ae41e4649b934ca495991b7852b855"
    );
}

#[test]
fn the_txid_of_known_bytes_matches_sha256() {
    // sha256("abc")
    assert_eq!(
        recompute_txid("616263").unwrap(),
        "ba7816bf8f01cfea414140de5dae2223b00361a396177a9cb410ff61f20015ad"
    );
    // Upper case and surrounding whitespace decode the same bytes.
    assert_eq!(
        recompute_txid("  616263\n").unwrap(),
        recompute_txid("616263").unwrap()
    );
}

#[test]
fn a_plus_sign_is_not_a_hex_digit() {
    match recompute_txid("+a").unwrap_err() {
        Error::InvalidField { field, reason } => {
            assert_eq!(field, "raw_data_hex");
            assert_eq!(reason, "invalid digit found in string");
        }
        other => panic!("unexpected {other:?}"),
    }
}

#[test]
fn a_recipient_found_only_at_an_odd_nibble_offset_is_rejected() {
    let raw = format!("0{}0", to_hex(TO).unwrap());
    let id = recompute_txid(&raw).unwrap();
    match verify_transfer(&raw, TO, &id).unwrap_err() {
        Error::UntrustedResponse { reason } => {
            assert_eq!(reason, "the node's transaction does not pay the requested recipient");
        }
        other => panic!("expected UntrustedResponse, got {other:?}"),
    }
}

#[test]
fn varints_are_protobuf_varints() {
    assert_eq!(encode_varint(0), vec![0x00]);
    assert_eq!(encode_varint(1), vec![0x01]);
    assert_eq!(encode_varint(300), vec![0xac, 0x02]);
    assert_eq!(encode_varint(5_000_000), vec![0xc0, 0x96, 0xb1, 0x02]);
    assert_eq!(encode_varint(u64::MAX), vec![0xff, 0xff, 0xff, 0xff, 0xff, 0xff, 0xff, 0xff, 0xff, 0x01]);
}

#[test]
fn the_amount_must_appear_in_the_raw_data() {
    // Field 3 of a TransferContract, 5 TRX = 5_000_000 sun.
    let raw = format!("0a02b1f42208{}18c096b102", to_hex(TO).unwrap());
    let id = recompute_txid(&raw).unwrap();
    assert!(verify_transfer_amount(&raw, TO, 5_000_000, &id).is_ok());
    match verify_transfer_amount(&raw, TO, 1, &id).unwrap_err() {
        Error::UntrustedResponse { reason } => {
            assert_eq!(reason, "the node's transaction does not carry the requested amount");
        }
        other => panic!("expected UntrustedResponse, got {other:?}"),
    }
    // The recipient and txID checks still come first.
    assert!(matches!(
        verify_transfer_amount(&raw, "TLyqzVGLV1srkB7dToTAEqgDSfPtXRJZYH", 5_000_000, &id).unwrap_err(),
        Error::UntrustedResponse { reason } if reason.contains("recipient")
    ));
    assert!(matches!(
        verify_transfer_amount(&raw, TO, 5_000_000, &"0".repeat(64)).unwrap_err(),
        Error::UntrustedResponse { reason } if reason.contains("altered")
    ));
}

#[test]
fn odd_and_bad_digit_errors_say_which() {
    match recompute_txid("abc").unwrap_err() {
        Error::InvalidField { field, reason } => {
            assert_eq!(field, "raw_data_hex");
            assert_eq!(reason, "odd length");
        }
        other => panic!("unexpected {other:?}"),
    }
    match recompute_txid("zz").unwrap_err() {
        Error::InvalidField { field, reason } => {
            assert_eq!(field, "raw_data_hex");
            assert_eq!(reason, "invalid digit found in string");
        }
        other => panic!("unexpected {other:?}"),
    }
}

#[test]
fn the_txid_comparison_ignores_case_and_whitespace() {
    let raw = raw_data();
    let id = recompute_txid(&raw).unwrap();
    let shouted = format!("  {}  ", id.to_uppercase());
    assert!(verify_transfer(&raw, TO, &shouted).is_ok());
    // Upper-case raw data decodes to the same bytes, and the recipient is
    // found regardless of case.
    assert!(verify_transfer(&raw.to_uppercase(), TO, &id).is_ok());
    let upper_raw = raw.to_uppercase();
    let upper_id = recompute_txid(&upper_raw).unwrap();
    assert!(verify_transfer(&upper_raw, TO, &upper_id).is_ok());
}

#[test]
fn an_invalid_recipient_is_an_address_error() {
    let raw = raw_data();
    let id = recompute_txid(&raw).unwrap();
    assert!(matches!(
        verify_transfer(&raw, "not-an-address", &id).unwrap_err(),
        Error::Address(_)
    ));
}

#[test]
fn a_signature_is_the_recoverable_signature_of_the_txid_digest() {
    // Different keys sign differently; the same key and data always agree.
    let other_key = tinywallet::key::bip32::derive(&seed(), "m/44'/195'/0'/0/1").unwrap().secret.to_vec();
    assert_ne!(sign(&raw_data(), &key()).unwrap(), sign(&raw_data(), &other_key).unwrap());
    let hex = signature_hex(&sign(&raw_data(), &key()).unwrap());
    assert!(hex.chars().all(|c| c.is_ascii_hexdigit() && !c.is_ascii_uppercase()));
}

#[test]
fn a_key_of_the_wrong_length_is_rejected_before_the_hex() {
    match sign("zz", &[1u8; 31]).unwrap_err() {
        Error::Signing { reason } => assert_eq!(reason, "not a valid secp256k1 secret key"),
        other => panic!("unexpected {other:?}"),
    }
}
