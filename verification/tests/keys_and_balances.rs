//! BIP-32 derivation and balance arithmetic.

use tinywallet::client::btc::{AddressInfo, Stats};
use tinywallet::client::tron::{account_balance, balance_from_response};
use tinywallet::key::Error;

const VECTOR_SEED: &str = "5eb00bbddcf069084889a8ab9155568165f5c453ccb85e70811aaed6f6da5fc19a5ac40b389cd370d086206dec8aa6c43daea6690f20ad3d8d48b2d2ce9e38e4";

fn seed() -> Vec<u8> {
    (0..VECTOR_SEED.len())
        .step_by(2)
        .map(|i| u8::from_str_radix(&VECTOR_SEED[i..i + 2], 16).unwrap())
        .collect()
}

#[test]
fn bip32_derivation_matches_the_bip84_vector() {
    // BIP-84 test vector: m/84'/0'/0'/0/0 of the "abandon ... about" mnemonic.
    let key = tinywallet::key::bip32::derive(&seed(), "m/84'/0'/0'/0/0").unwrap();
    let hex: String = key.secret.iter().map(|b| format!("{b:02x}")).collect();
    assert_eq!(hex, "4604b4b710fe91f584fff084e1a9159fe4f8408fff380596a604948474ce4fa3");
    assert_eq!(key.uncompressed_public()[0], 0x04);
    assert_eq!(key.uncompressed_public(), key.public);
}

#[test]
fn a_malformed_path_is_rejected() {
    match tinywallet::key::bip32::derive(&seed(), "m/not/a/path").unwrap_err() {
        Error::InvalidPath { path, reason } => {
            assert_eq!(path, "m/not/a/path");
            assert!(!reason.is_empty());
        }
        other => panic!("unexpected {other:?}"),
    }
}

#[test]
fn btc_sums_confirmed_and_mempool_activity() {
    let info = AddressInfo {
        chain_stats: Stats { funded_txo_sum: 100_000, spent_txo_sum: 40_000 },
        mempool_stats: Stats { funded_txo_sum: 10_000, spent_txo_sum: 1_000 },
    };
    assert_eq!(info.balance(), 60_000 + 9_000);
}

#[test]
fn btc_clamps_rather_than_underflowing_on_a_nonsensical_response() {
    let info = AddressInfo {
        chain_stats: Stats { funded_txo_sum: 1, spent_txo_sum: 999 },
        mempool_stats: Stats { funded_txo_sum: 0, spent_txo_sum: 0 },
    };
    assert_eq!(info.balance(), 0);
}

#[test]
fn btc_balances_do_not_overflow_u64() {
    let info = AddressInfo {
        chain_stats: Stats { funded_txo_sum: u64::MAX, spent_txo_sum: 0 },
        mempool_stats: Stats { funded_txo_sum: u64::MAX, spent_txo_sum: 0 },
    };
    assert_eq!(info.balance(), 2 * u128::from(u64::MAX));
}

#[test]
fn tron_treats_an_empty_account_as_zero() {
    assert_eq!(account_balance(None), 0);
    assert_eq!(account_balance(Some(12_345_678)), 12_345_678);
}

#[test]
fn tron_reads_the_balance_field_of_the_response() {
    assert_eq!(balance_from_response(r#"{"balance": 12345678}"#).unwrap(), 12_345_678);
    assert_eq!(balance_from_response(r#"{"address": "41aa", "balance": 0}"#).unwrap(), 0);
    // A never-funded account comes back as `{}`.
    assert_eq!(balance_from_response("{}").unwrap(), 0);
    // A field that is not a u64 counts as zero, as a missing one does.
    assert_eq!(balance_from_response(r#"{"balance": "12"}"#).unwrap(), 0);
    assert_eq!(balance_from_response(r#"{"balance": -1}"#).unwrap(), 0);
    assert_eq!(
        balance_from_response(&format!(r#"{{"balance": {}}}"#, u64::MAX)).unwrap(),
        u128::from(u64::MAX)
    );
}

#[test]
fn tron_rejects_a_body_that_is_not_json() {
    let message = balance_from_response("<html>captive portal</html>").unwrap_err();
    assert!(!message.is_empty());
    assert!(balance_from_response("").is_err());
}
