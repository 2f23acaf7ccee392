//! Bitcoin coin selection and P2WPKH transfers.

use tinywallet::tx::btc::{select_coins, Transfer, Utxo, DUST_THRESHOLD};
use tinywallet::tx::Error;

use std::str::FromStr;

const VECTOR_SEED: &str = "5eb00bbddcf069084889a8ab9155568165f5c453ccb85e70811aaed6f6da5fc19a5ac40b389cd370d086206dec8aa6c43daea6690f20ad3d8d48b2d2ce9e38e4";
/// BIP-84 account 0, first receive address of the vector mnemonic.
const SENDER: &str = "bc1qcr8te4kr609gcawutmrza0j4xv80jy8z306fyu";
const RECIPIENT: &str = "1BvBMSEYstWetqTFn5Au4m4GFg7xJaNVN2";

fn seed() -> Vec<u8> {
    (0..VECTOR_SEED.len())
        .step_by(2)
        .map(|i| u8::from_str_radix(&VECTOR_SEED[i..i + 2], 16).unwrap())
        .collect()
}

fn sender_key() -> Vec<u8> {
    tinywallet::key::bip32::derive(&seed(), "m/84'/0'/0'/0/0").unwrap().secret.to_vec()
}

fn utxo(txid_byte: &str, vout: u32, value: u64) -> Utxo {
    Utxo { txid: txid_byte.repeat(32), vout, value }
}

fn transfer(amount: u64, fee: u64) -> Transfer {
    Transfer { from: SENDER.to_string(), to: RECIPIENT.to_string(), amount, fee }
}

#[test]
fn selection_takes_the_largest_coin_first() {
    let coins = [utxo("01", 0, 5_000), utxo("02", 0, 20_000), utxo("03", 0, 10_000)];
    let sel = select_coins(&coins, 12_000).unwrap();
    assert_eq!(sel.inputs, vec![coins[1].clone()]);
    assert_eq!(sel.change, 8_000);
}

#[test]
fn selection_stops_as_soon_as_the_target_is_covered() {
    let coins = [utxo("01", 0, 5_000), utxo("02", 0, 20_000), utxo("03", 0, 10_000)];
    let sel = select_coins(&coins, 25_000).unwrap();
    assert_eq!(sel.inputs, vec![coins[1].clone(), coins[2].clone()]);
    assert_eq!(sel.change, 5_000);
}

#[test]
fn dust_change_is_folded_into_the_fee() {
    let coins = [utxo("01", 0, 10_000)];
    // A surplus of exactly the threshold is not dust: it comes back as change.
    assert_eq!(select_coins(&coins, 10_000 - DUST_THRESHOLD).unwrap().change, DUST_THRESHOLD);
    assert_eq!(select_coins(&coins, 10_000 - DUST_THRESHOLD + 1).unwrap().change, 0);
    assert_eq!(select_coins(&coins, 9_600).unwrap().change, 0);
    let one = [utxo("aa", 0, 1_546)];
    let sel = select_coins(&one, 1_000).unwrap();
    assert_eq!(sel.inputs, one.to_vec());
    assert_eq!(sel.change, 546);
}

#[test]
fn equal_values_keep_their_order() {
    let coins = [utxo("01", 0, 7), utxo("02", 1, 9), utxo("03", 2, 7), utxo("04", 3, 9)];
    let sel = select_coins(&coins, 32).unwrap();
    assert_eq!(
        sel.inputs,
        vec![coins[1].clone(), coins[3].clone(), coins[0].clone(), coins[2].clone()]
    );
}

#[test]
fn insufficient_funds_report_what_is_available() {
    let coins = [utxo("01", 0, 1_000), utxo("02", 0, 2_000)];
    assert_eq!(
        select_coins(&coins, 5_000).unwrap_err(),
        Error::InsufficientFunds { available: 3_000, required: 5_000 }
    );
    assert_eq!(
        select_coins(&[], 1).unwrap_err(),
        Error::InsufficientFunds { available: 0, required: 1 }
    );
}

#[test]
fn a_zero_target_still_spends_one_coin() {
    let coins = [utxo("01", 0, 1_000), utxo("02", 0, 2_000)];
    let sel = select_coins(&coins, 0).unwrap();
    assert_eq!(sel.inputs, vec![coins[1].clone()]);
    assert_eq!(sel.change, 2_000);
    // With no coins at all, a zero target is still covered.
    let sel = select_coins(&[], 0).unwrap();
    assert!(sel.inputs.is_empty());
    assert_eq!(sel.change, 0);
}

#[test]
fn an_overflowing_total_is_rejected() {
    let coins = [utxo("01", 0, u64::MAX - 1), utxo("02", 0, u64::MAX - 1)];
    match select_coins(&coins, u64::MAX).unwrap_err() {
        Error::InvalidField { field, reason } => {
            assert_eq!(field, "utxos");
            assert_eq!(reason, "total value overflows");
        }
        other => panic!("unexpected {other:?}"),
    }
    // A single coin that covers the target never overflows.
    assert!(select_coins(&[utxo("01", 0, u64::MAX)], u64::MAX).is_ok());
}

#[test]
fn a_plan_pays_the_recipient_then_the_change() {
    let coins = [utxo("aa", 0, 50_000), utxo("bb", 1, 30_000)];
    let plan = transfer(60_000, 1_000).plan(&coins).unwrap();
    assert_eq!(plan.inputs.len(), 2);
    assert_eq!(plan.inputs[1].vout, 1);
    assert_eq!(plan.inputs[0].txid, [0xaa; 32]);
    assert_eq!(plan.outputs.len(), 2);
    assert_eq!(plan.outputs[0].value, 60_000);
    assert_eq!(plan.outputs[1].value, 19_000);
    // The change goes back to the sender's P2WPKH script.
    assert_eq!(plan.outputs[1].script_pubkey.len(), 22);
    assert_eq!(&plan.outputs[1].script_pubkey[..2], &[0x00, 0x14]);
    // A legacy recipient gets a P2PKH script.
    assert_eq!(plan.outputs[0].script_pubkey[0], 0x76);
}

#[test]
fn a_plan_without_change_has_one_output() {
    let coins = [utxo("aa", 0, 61_200)];
    let plan = transfer(60_000, 1_000).plan(&coins).unwrap();
    assert_eq!(plan.outputs.len(), 1);
    assert_eq!(plan.selection.change, 0);
}

#[test]
fn a_non_p2wpkh_sender_is_rejected() {
    let t = Transfer { from: RECIPIENT.to_string(), to: SENDER.to_string(), amount: 1, fee: 1 };
    assert!(matches!(
        t.plan(&[utxo("aa", 0, 10)]).unwrap_err(),
        Error::Address(tinywallet::error::Error::UnsupportedAddressType { .. })
    ));
}

#[test]
fn an_invalid_recipient_is_rejected() {
    let t = Transfer { from: SENDER.to_string(), to: "nope".to_string(), amount: 1, fee: 1 };
    assert!(matches!(
        t.plan(&[utxo("aa", 0, 10)]).unwrap_err(),
        Error::Address(tinywallet::error::Error::InvalidAddress { .. })
    ));
}

#[test]
fn amount_plus_fee_overflow_is_rejected() {
    match transfer(u64::MAX, 1).plan(&[utxo("aa", 0, 10)]).unwrap_err() {
        Error::InvalidField { field, reason } => {
            assert_eq!(field, "amount");
            assert_eq!(reason, "amount + fee overflows");
        }
        other => panic!("unexpected {other:?}"),
    }
}

#[test]
fn a_malformed_txid_is_reported_with_the_txid() {
    let coins = [Utxo { txid: "xyz".to_string(), vout: 0, value: 10_000 }];
    match transfer(1_000, 100).plan(&coins).unwrap_err() {
        Error::InvalidField { field, reason } => {
            assert_eq!(field, "utxo.txid");
            assert!(reason.starts_with("xyz: "));
        }
        other => panic!("unexpected {other:?}"),
    }
}

#[test]
fn build_returns_the_transaction_and_the_selection() {
    let coins = [utxo("aa", 0, 50_000), utxo("bb", 1, 30_000)];
    let (tx, selection) = transfer(60_000, 1_000).build(&coins).unwrap();
    assert_eq!(tx.input.len(), 2);
    assert_eq!(tx.output.len(), 2);
    assert_eq!(tx.output[1].value.to_sat(), 19_000);
    assert_eq!(selection.change, 19_000);
    assert_eq!(tx.input[0].sequence.0, 0xFFFF_FFFD);
}

#[test]
fn signing_with_the_senders_key_produces_a_segwit_transaction() {
    let coins = [utxo("aa", 0, 50_000)];
    let hex = transfer(40_000, 1_000).sign(&coins, &sender_key()).unwrap();
    // Version 2, then the segwit marker and flag.
    assert!(hex.starts_with("0200000000010"), "{hex}");
    // Deterministic.
    assert_eq!(hex, transfer(40_000, 1_000).sign(&coins, &sender_key()).unwrap());
}

#[test]
fn signing_with_someone_elses_key_is_rejected() {
    let other = tinywallet::key::bip32::derive(&seed(), "m/84'/0'/0'/0/1").unwrap().secret.to_vec();
    match transfer(40_000, 1_000).sign(&[utxo("aa", 0, 50_000)], &other).unwrap_err() {
        Error::Signing { reason } => {
            assert_eq!(reason, "secret key does not control the `from` address")
        }
        other => panic!("unexpected {other:?}"),
    }
    assert!(matches!(
        transfer(40_000, 1_000).sign(&[utxo("aa", 0, 50_000)], &[0u8; 32]).unwrap_err(),
        Error::Signing { .. }
    ));
}

#[test]
fn signing_reports_insufficient_funds_after_the_key_check() {
    assert_eq!(
        transfer(40_000, 1_000).sign(&[utxo("aa", 0, 500)], &sender_key()).unwrap_err(),
        Error::InsufficientFunds { available: 500, required: 41_000 }
    );
}

#[test]
fn largest_first_spends_no_more_coins_than_any_other_choice() {
    // Three small coins also cover the target, but one large coin does.
    let coins = [utxo("01", 0, 4), utxo("02", 0, 4), utxo("03", 0, 4), utxo("04", 0, 10)];
    let sel = select_coins(&coins, 10).unwrap();
    assert_eq!(sel.inputs.len(), 1);
    assert_eq!(sel.inputs[0].value, 10);
}

#[test]
fn the_implicit_fee_is_the_fee_asked_for_plus_less_than_dust() {
    for (coin, amount, fee) in [(61_200u64, 60_000u64, 1_000u64), (70_000, 60_000, 1_000), (61_546, 60_000, 1_000)] {
        let plan = transfer(amount, fee).plan(&[utxo("aa", 0, coin)]).unwrap();
        let spent: u64 = plan.selection.inputs.iter().map(|u| u.value).sum();
        let paid: u64 = plan.outputs.iter().map(|o| o.value).sum();
        let implicit_fee = spent - paid;
        assert!(implicit_fee >= fee && implicit_fee < fee + DUST_THRESHOLD, "{implicit_fee}");
        assert_eq!(plan.outputs.len() == 1, plan.selection.change == 0);
    }
}

#[test]
fn build_lays_out_version_lock_time_outpoints_and_outputs() {
    let t = Transfer {
        from: "bc1qw508d6qejxtdg4y5r3zarvary0c5xw7kv8f3t4".to_string(),
        to: "bc1qrp33g0q5c5txsp9arysrx4k6zdkfs4nce4xj0gdcccefvpysxf3qccfmv3".to_string(),
        amount: 10_000,
        fee: 1_000,
    };
    let coins = [utxo("aa", 0, 5_000), utxo("bb", 1, 20_000)];
    let (tx, sel) = t.build(&coins).unwrap();
    assert_eq!(sel.inputs, vec![coins[1].clone()]);
    assert_eq!(sel.change, 9_000);
    assert_eq!(tx.version, bitcoin::transaction::Version::TWO);
    assert_eq!(tx.lock_time, bitcoin::absolute::LockTime::ZERO);
    assert_eq!(tx.input.len(), 1);
    assert_eq!(tx.input[0].previous_output.vout, 1);
    assert_eq!(tx.input[0].previous_output.txid.to_string(), "bb".repeat(32));
    assert_eq!(tx.input[0].sequence, bitcoin::Sequence::ENABLE_RBF_NO_LOCKTIME);
    assert!(tx.input[0].script_sig.is_empty());
    assert!(tx.input[0].witness.is_empty());
    assert_eq!(tx.output.len(), 2);
    assert_eq!(tx.output[0].value.to_sat(), 10_000);
    assert!(tx.output[0].script_pubkey.is_p2wsh());
    assert_eq!(tx.output[1].value.to_sat(), 9_000);
    assert_eq!(
        tx.output[1].script_pubkey.to_hex_string(),
        "0014751e76e8199196d454941c45d1b3a323f1433bd6"
    );
}

#[test]
fn an_upper_case_sender_signs_as_its_lower_case_form() {
    let coins = [utxo("aa", 0, 50_000)];
    let lower = transfer(40_000, 1_000).sign(&coins, &sender_key()).unwrap();
    let upper = Transfer { from: SENDER.to_uppercase(), to: RECIPIENT.to_string(), amount: 40_000, fee: 1_000 }
        .sign(&coins, &sender_key())
        .unwrap();
    assert_eq!(upper, lower);
}

#[test]
fn each_input_is_signed_and_carries_the_public_key() {
    let coins = [utxo("aa", 0, 30_000), utxo("bb", 1, 20_000)];
    let hex = transfer(45_000, 1_000).sign(&coins, &sender_key()).unwrap();
    let bytes: Vec<u8> = (0..hex.len()).step_by(2).map(|i| u8::from_str_radix(&hex[i..i + 2], 16).unwrap()).collect();
    let tx: bitcoin::Transaction = bitcoin::consensus::encode::deserialize(&bytes).unwrap();
    assert_eq!(tx.input.len(), 2);
    let public = tinywallet::key::bip32::derive(&seed(), "m/84'/0'/0'/0/0").unwrap();
    for input in &tx.input {
        let items: Vec<&[u8]> = input.witness.iter().collect();
        assert_eq!(items.len(), 2);
        assert_eq!(*items[0].last().unwrap(), 0x01, "SIGHASH_ALL");
        assert_eq!(items[1].len(), 33);
        assert_eq!(&items[1][1..], &public.public[1..33]);
    }
    // The signatures differ: each commits to its own input.
    assert_ne!(tx.input[0].witness.to_vec()[0], tx.input[1].witness.to_vec()[0]);
}

#[test]
fn the_derived_bitcoin_key_controls_the_bip84_address() {
    let (address, secret) = tinywallet::key::btc::derive(&seed(), "m/84'/0'/0'/0/0").unwrap();
    assert_eq!(address, SENDER);
    assert_eq!(secret.to_vec(), sender_key());
    // The address is one that sender validation accepts as it stands.
    assert_eq!(tinywallet::address::btc::validate_sender(&address).unwrap(), address);
    assert_eq!(
        tinywallet::address::btc::validate_sender(&address.to_uppercase()).unwrap(),
        address.to_uppercase()
    );
    let (other, _) = tinywallet::key::btc::derive(&seed(), "m/84'/0'/0'/0/1").unwrap();
    assert_ne!(other, SENDER);
    assert!(matches!(
        tinywallet::key::btc::derive(&seed(), "not a path").unwrap_err(),
        tinywallet::key::Error::InvalidPath { .. }
    ));
}

#[test]
fn each_signature_verifies_over_its_inputs_value() {
    let coins = [utxo("aa", 0, 30_000), utxo("bb", 1, 20_000)];
    let hex = transfer(45_000, 1_000).sign(&coins, &sender_key()).unwrap();
    let bytes: Vec<u8> = (0..hex.len()).step_by(2).map(|i| u8::from_str_radix(&hex[i..i + 2], 16).unwrap()).collect();
    let tx: bitcoin::Transaction = bitcoin::consensus::encode::deserialize(&bytes).unwrap();
    let script = bitcoin::Address::from_str(SENDER).unwrap().assume_checked().script_pubkey();
    let secp = bitcoin::secp256k1::Secp256k1::verification_only();
    let mut cache = bitcoin::sighash::SighashCache::new(&tx);
    for (index, value) in [(0usize, 30_000u64), (1, 20_000)] {
        let items = tx.input[index].witness.to_vec();
        let der = &items[0][..items[0].len() - 1];
        let signature = bitcoin::secp256k1::ecdsa::Signature::from_der(der).unwrap();
        let public = bitcoin::secp256k1::PublicKey::from_slice(&items[1]).unwrap();
        let digest = |v: u64, cache: &mut bitcoin::sighash::SighashCache<&bitcoin::Transaction>| {
            let h = cache
                .p2wpkh_signature_hash(index, &script, bitcoin::Amount::from_sat(v), bitcoin::EcdsaSighashType::All)
                .unwrap();
            bitcoin::secp256k1::Message::from_digest(bitcoin::hashes::Hash::to_byte_array(h))
        };
        assert!(secp.verify_ecdsa(&digest(value, &mut cache), &signature, &public).is_ok());
        // The signature commits to the coin's value: another value does not verify.
        assert!(secp.verify_ecdsa(&digest(value + 1, &mut cache), &signature, &public).is_err());
    }
}
