//! secp256k1 keys and ECDSA signatures, from the `secp256k1` crate that
//! `bitcoin` re-exports.
use vstd::prelude::*;

use bitcoin::key::{CompressedPublicKey, PrivateKey};
use bitcoin::secp256k1::{Message, Secp256k1, SecretKey};
use bitcoin::Network;

verus! {

/// The order of the secp256k1 group.
pub open spec fn secp256k1_order() -> int {
    0xFFFFFFFFFFFFFFFFFFFFFFFFFFFFFFFEBAAEDCE6AF48A03BBFD25E8CD0364141int
}

/// The big-endian unsigned integer that `bytes` encode.
pub open spec fn be_value(bytes: Seq<u8>) -> int
    decreases bytes.len(),
{
    if bytes.len() == 0 {
        0
    } else {
        be_value(bytes.drop_last()) * 256 + bytes.last()
    }
}

/// A valid secp256k1 secret key: 32 bytes encoding a nonzero integer below
/// the group order.
pub open spec fn valid_secret_key(bytes: Seq<u8>) -> bool {
    bytes.len() == 32 && 0 < be_value(bytes) < secp256k1_order()
}

/// Whether `bytes` is a valid secp256k1 secret key.
///
/// Trusted: calls `SecretKey::from_slice`, which accepts exactly 32 bytes that
/// `secp256k1_ec_seckey_verify` accepts, documented by libsecp256k1 as a
/// nonzero value below the curve order. That is what the contract states.
#[verifier::external_body]
pub(crate) fn is_valid_secret_key(bytes: &[u8]) -> (valid: bool)
    ensures
        valid == valid_secret_key(bytes@),
{
    SecretKey::from_slice(bytes).is_ok()
}

/// The compact recoverable ECDSA signature (`r || s`) of a 32-byte digest
/// under a secret key, with its recovery id, as libsecp256k1 computes it with
/// RFC 6979 nonces.
pub uninterp spec fn ecdsa_recoverable(digest: Seq<u8>, secret: Seq<u8>) -> (Seq<u8>, i32);

/// Signs a digest, returning the compact signature and its recovery id.
///
/// Trusted: calls `Secp256k1::sign_ecdsa_recoverable` and
/// `RecoverableSignature::serialize_compact`. The contract claims that the
/// result is [`ecdsa_recoverable`] of the digest and key (signing uses
/// deterministic RFC 6979 nonces), and that the recovery id is 0 to 3, the
/// only values `RecoveryId` can hold.
#[verifier::external_body]
pub(crate) fn sign_recoverable(digest: &[u8; 32], secret: &[u8]) -> (sig: ([u8; 64], i32))
    requires
        valid_secret_key(secret@),
    ensures
        (sig.0@, sig.1) == ecdsa_recoverable(digest@, secret@),
        0 <= sig.1 <= 3,
{
    let key = SecretKey::from_slice(secret).expect("the caller checked the key");
    let message = Message::from_digest(*digest);
    let (recovery_id, compact) = Secp256k1::signing_only().sign_ecdsa_recoverable(&message, &key).serialize_compact();
    (compact, recovery_id.to_i32())
}

/// The 33-byte compressed SEC1 public key of a secret key.
pub uninterp spec fn secp_compressed_public_key(secret: Seq<u8>) -> Seq<u8>;

/// The compressed public key of a secret key.
///
/// Trusted: calls `CompressedPublicKey::from_private_key` on
/// `PrivateKey::new(key, Network::Bitcoin)`, which is compressed by
/// construction, so the call cannot fail, and returns `to_bytes()`. The
/// contract claims only that the 33 bytes are [`secp_compressed_public_key`]
/// of the secret.
#[verifier::external_body]
pub(crate) fn compressed_public_key(secret: &[u8]) -> (public: [u8; 33])
    requires
        valid_secret_key(secret@),
    ensures
        public@ == secp_compressed_public_key(secret@),
{
    let key = SecretKey::from_slice(secret).expect("the caller checked the key");
    let private = PrivateKey::new(key, Network::Bitcoin);
    CompressedPublicKey::from_private_key(&Secp256k1::new(), &private).expect("a new private key is compressed").to_bytes()
}

/// The DER encoding of the ECDSA signature of a 32-byte digest under a secret
/// key, as libsecp256k1 computes it with RFC 6979 nonces (low-S).
pub uninterp spec fn ecdsa_der(digest: Seq<u8>, secret: Seq<u8>) -> Seq<u8>;

/// Whether the DER-encoded ECDSA signature `der` of a 32-byte digest verifies
/// under the 33-byte compressed public key `public`, as
/// `Secp256k1::verify_ecdsa` decides it.
pub uninterp spec fn ecdsa_verifies(public: Seq<u8>, digest: Seq<u8>, der: Seq<u8>) -> bool;

/// Signs a digest, returning the DER-encoded signature.
///
/// Trusted: calls `Secp256k1::sign_ecdsa` and `Signature::serialize_der`. The
/// contract claims that the bytes are [`ecdsa_der`] of the digest and key
/// (signing uses deterministic RFC 6979 nonces), and that the signature
/// verifies under the key's compressed public key: libsecp256k1 documents
/// `secp256k1_ecdsa_sign` as creating an ECDSA signature of the message hash
/// with the secret key, in the lower-S form that `secp256k1_ecdsa_verify`
/// accepts as a correct signature.
#[verifier::external_body]
pub(crate) fn sign_der(digest: &[u8; 32], secret: &[u8]) -> (der: Vec<u8>)
    requires
        valid_secret_key(secret@),
    ensures
        der@ == ecdsa_der(digest@, secret@),
        ecdsa_verifies(secp_compressed_public_key(secret@), digest@, der@),
{
    let key = SecretKey::from_slice(secret).expect("the caller checked the key");
    let message = Message::from_digest(*digest);
    Secp256k1::signing_only().sign_ecdsa(&message, &key).serialize_der().to_vec()
}

} // verus!
