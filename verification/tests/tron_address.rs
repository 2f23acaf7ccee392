//! Tron address conversion.

use tinywallet::address::tron::to_hex;
use tinywallet::chain::Chain;
use tinywallet::error::Error;

#[test]
fn a_tron_address_converts_to_its_41_prefixed_hex() {
    let hex = to_hex("TR7NHqjeKQxGTCi8q8ZY4pL8otSzgjLj6t").unwrap();
    assert_eq!(hex, "41a614f803b6fd780986a42c78ec9c7f77e6ded13c");
    assert!(hex.starts_with("41"));
}

#[test]
fn surrounding_whitespace_is_ignored() {
    assert_eq!(
        to_hex("  TR7NHqjeKQxGTCi8q8ZY4pL8otSzgjLj6t\n").unwrap(),
        "41a614f803b6fd780986a42c78ec9c7f77e6ded13c"
    );
}

#[test]
fn an_empty_tron_address_is_rejected() {
    assert_eq!(to_hex(" \t").unwrap_err(), Error::EmptyAddress { chain: Chain::Tron });
}

#[test]
fn a_mistyped_tron_address_fails_its_checksum() {
    match to_hex("TR7NHqjeKQxGTCi8q8ZY4pL8otSzgjLj6u").unwrap_err() {
        Error::InvalidAddress { chain, address, .. } => {
            assert_eq!(chain, Chain::Tron);
            assert_eq!(address, "TR7NHqjeKQxGTCi8q8ZY4pL8otSzgjLj6u");
        }
        other => panic!("unexpected {other:?}"),
    }
}

#[test]
fn a_bitcoin_address_is_not_a_tron_address() {
    // Valid base58check, but version 0x00 rather than 0x41.
    match to_hex("1BvBMSEYstWetqTFn5Au4m4GFg7xJaNVN2").unwrap_err() {
        Error::InvalidAddress { reason, .. } => assert_eq!(reason, "the version byte is not 0x41"),
        other => panic!("unexpected {other:?}"),
    }
}
