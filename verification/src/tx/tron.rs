//! Tron transaction signing.
//!
//! Tron inverts the usual split: the node builds the transaction and the client
//! signs its `raw_data`. Signing whatever a node hands back would trust it to
//! have built the transfer that was asked for, so [`verify_transfer`] checks
//! that the `txID` is `sha256(raw_data)` and that the recipient appears in the
//! bytes before anything is signed.
use vstd::prelude::*;
use vstd::string::StringSliceAdditionalSpecFns;

use super::Error;
use crate::digest::sha256_digest;
use crate::secp::{is_valid_secret_key, sign_recoverable};
use crate::text::{bytes_contain, str_eq_ignore_ascii_case, to_hex_lower, trim_str};

verus! {

broadcast use vstd::string::group_string_axioms;

/// The 65-byte signature Tron expects: `r || s || recovery_id`, with a bare
/// recovery id (0 to 3), not EIP-155's `v`.
pub type Signature = [u8; 65];

/// The value of a hex digit byte (`0-9`, `a-f`, `A-F`).
pub open spec fn hex_value(b: u8) -> Option<u8> {
    if 0x30 <= b && b <= 0x39 {
        Some((b - 0x30) as u8)
    } else if 0x61 <= b && b <= 0x66 {
        Some((b - 0x57) as u8)
    } else if 0x41 <= b && b <= 0x46 {
        Some((b - 0x37) as u8)
    } else {
        None
    }
}

/// The byte two hex digits encode, most significant first.
pub open spec fn hex_pair(hi: u8, lo: u8) -> Option<u8> {
    match (hex_value(hi), hex_value(lo)) {
        (Some(h), Some(l)) => Some((16 * h + l) as u8),
        _ => None,
    }
}

/// The `k`-th two-byte chunk of `b`, decoded.
pub open spec fn pair_at(b: Seq<u8>, k: int) -> Option<u8> {
    hex_pair(b[2 * k], b[2 * k + 1])
}

/// The bytes that are decoded: the UTF-8 encoding of the trimmed text.
pub open spec fn hex_body(raw: Seq<char>) -> Seq<u8> {
    vstd::utf8::encode_utf8(crate::text::trim(raw))
}

/// Every two-byte chunk of `b` decodes.
pub open spec fn pairs_valid(b: Seq<u8>) -> bool {
    forall|k: int| 0 <= k < b.len() / 2 ==> #[trigger] pair_at(b, k) is Some
}

/// `raw` is hex that decodes: an even number of bytes, every chunk valid.
pub open spec fn hex_decodes(raw: Seq<char>) -> bool {
    hex_body(raw).len() % 2 == 0 && pairs_valid(hex_body(raw))
}

/// The bytes that `raw` decodes to.
pub open spec fn hex_bytes(raw: Seq<char>) -> Seq<u8> {
    let b = hex_body(raw);
    Seq::new((b.len() / 2) as nat, |k: int| pair_at(b, k)->0)
}

/// The error returned for `raw` when it does not decode.
pub open spec fn hex_error(raw: Seq<char>, res: Result<Seq<u8>, Error>) -> bool {
    match res {
        Err(Error::InvalidField { field, reason }) => {
            &&& field@ == "raw_data_hex"@
            &&& if hex_body(raw).len() % 2 == 1 {
                reason@ == "odd length"@
            } else {
                reason@ == "invalid digit found in string"@
            }
        },
        _ => false,
    }
}

/// A `Result` with its `Ok` value replaced by unit-free ghost bytes, for
/// stating errors independently of the success type.
pub open spec fn error_part<T>(res: Result<T, Error>) -> Result<Seq<u8>, Error> {
    match res {
        Ok(_) => Ok(Seq::empty()),
        Err(e) => Err(e),
    }
}

/// The `txID` of a Tron `raw_data`: lowercase hex of its SHA-256.
pub open spec fn txid_of(data: Seq<u8>) -> Seq<char> {
    crate::text::hex_lower(crate::digest::sha256(data))
}

/// The Tron signature of `raw_data` under `secret`: the recoverable ECDSA
/// signature of its SHA-256, with the recovery id as the last byte.
pub open spec fn tron_signature(data: Seq<u8>, secret: Seq<u8>) -> Seq<u8> {
    let (compact, recovery_id) = crate::secp::ecdsa_recoverable(crate::digest::sha256(data), secret);
    compact.push(recovery_id as u8)
}

fn hex_value_of(b: u8) -> (v: Option<u8>)
    ensures
        v == hex_value(b),
{
    if 0x30 <= b && b <= 0x39 {
        Some(b - 0x30)
    } else if 0x61 <= b && b <= 0x66 {
        Some(b - 0x57)
    } else if 0x41 <= b && b <= 0x46 {
        Some(b - 0x37)
    } else {
        None
    }
}

fn hex_pair_of(hi: u8, lo: u8) -> (v: Option<u8>)
    ensures
        v == hex_pair(hi, lo),
{
    match (hex_value_of(hi), hex_value_of(lo)) {
        (Some(h), Some(l)) => Some(16 * h + l),
        _ => None,
    }
}

/// Decodes the trimmed text as hex, two digits per byte. Anything that is not
/// an even number of hex digits is rejected.
fn decode_hex(raw: &str) -> (res: Result<Vec<u8>, Error>)
    ensures
        hex_decodes(raw@) ==> (res matches Ok(bytes) && bytes@ == hex_bytes(raw@)),
        !hex_decodes(raw@) ==> hex_error(raw@, error_part(res)),
{
    let body = trim_str(raw);
    let bytes = body.as_bytes();
    let n = bytes.len();
    let ghost b = hex_body(raw@);
    assert(bytes@ == b);
    if n % 2 != 0 {
        return Err(Error::InvalidField { field: "raw_data_hex", reason: "odd length".to_string() });
    }
    let half = n / 2;
    let mut out: Vec<u8> = Vec::new();
    let mut k: usize = 0;
    while k < half
        invariant
            b == hex_body(raw@),
            bytes@ == b,
            n == b.len(),
            n % 2 == 0,
            half == n / 2,
            k <= half,
            out@ == Seq::new(k as nat, |i: int| pair_at(b, i)->0),
            forall|i: int| 0 <= i < k ==> #[trigger] pair_at(b, i) is Some,
        decreases half - k,
    {
        match hex_pair_of(bytes[2 * k], bytes[2 * k + 1]) {
            None => {
                assert(pair_at(b, k as int) is None);
                return Err(
                    Error::InvalidField {
                        field: "raw_data_hex",
                        reason: "invalid digit found in string".to_string(),
                    },
                );
            },
            Some(v) => {
                out.push(v);
                assert(out@ =~= Seq::new((k + 1) as nat, |i: int| pair_at(b, i)->0));
            },
        }
        k += 1;
    }
    Ok(out)
}

/// Recompute a transaction's `txID` from its `raw_data`: lowercase hex of
/// `sha256(raw_data)`.
///
/// # Errors
///
/// [`Error::InvalidField`] if `raw_data_hex` is not valid hex.
pub fn recompute_txid(raw_data_hex: &str) -> (res: Result<String, Error>)
    ensures
        hex_decodes(raw_data_hex@) ==> (res matches Ok(id) && id@ == txid_of(hex_bytes(raw_data_hex@))),
        !hex_decodes(raw_data_hex@) ==> hex_error(raw_data_hex@, error_part(res)),
        res matches Ok(id) ==> id@.len() == 64,
{
    let raw = decode_hex(raw_data_hex)?;
    let digest = sha256_digest(raw.as_slice());
    Ok(to_hex_lower(&digest))
}

/// What [`verify_transfer`] returns for the raw data of a transaction, the
/// requested recipient and the `txID` the node reported.
pub open spec fn verify_transfer_outcome(raw: Seq<char>, to: Seq<char>, txid: Seq<char>, res: Result<(), Error>) -> bool {
    if !hex_decodes(raw) {
        hex_error(raw, error_part(res))
    } else if !crate::text::eq_ignore_ascii_case(
        vstd::utf8::encode_utf8(txid_of(hex_bytes(raw))),
        vstd::utf8::encode_utf8(crate::text::trim(txid)),
    ) {
        res matches Err(Error::UntrustedResponse { reason }) && reason@
            == "txID does not match sha256(raw_data); the response was altered"@
    } else {
        match crate::address::tron::tron_hex(to) {
            None => res matches Err(Error::Address(e)) && crate::address::tron::tron_address_error(to, e),
            Some(h) => if crate::text::contains_bytes(hex_bytes(raw), hex_bytes(h)) {
                res is Ok
            } else {
                res matches Err(Error::UntrustedResponse { reason }) && reason@
                    == "the node's transaction does not pay the requested recipient"@
            },
        }
    }
}

/// Check that a node-built transaction really encodes the transfer requested.
///
/// The `txID` must be `sha256(raw_data)` (up to ASCII case, ignoring
/// surrounding whitespace), and the recipient's 21 address bytes must appear
/// in the decoded `raw_data` bytes.
///
/// # Errors
///
/// [`Error::InvalidField`] for malformed hex, [`Error::Address`] if `to` is
/// not a valid Tron address, or [`Error::UntrustedResponse`] if the id does not
/// match or the recipient does not appear in the bytes.
pub fn verify_transfer(raw_data_hex: &str, to: &str, txid: &str) -> (res: Result<(), Error>)
    ensures
        verify_transfer_outcome(raw_data_hex@, to@, txid@, res),
        res is Ok ==> {
            &&& hex_decodes(raw_data_hex@)
            &&& crate::text::eq_ignore_ascii_case(
                vstd::utf8::encode_utf8(txid_of(hex_bytes(raw_data_hex@))),
                vstd::utf8::encode_utf8(crate::text::trim(txid@)),
            )
            &&& crate::address::tron::tron_hex(to@) matches Some(h) && crate::text::contains_bytes(
                hex_bytes(raw_data_hex@),
                hex_bytes(h),
            )
        },
{
    let raw = decode_hex(raw_data_hex)?;
    let expected_id = to_hex_lower(&sha256_digest(raw.as_slice()));
    let given = trim_str(txid);
    if !str_eq_ignore_ascii_case(expected_id.as_str(), given) {
        return Err(
            Error::UntrustedResponse {
                reason: "txID does not match sha256(raw_data); the response was altered".to_string(),
            },
        );
    }
    let to_hex = match crate::address::tron::to_hex(to) {
        Ok(h) => h,
        Err(e) => {
            return Err(Error::Address(e));
        },
    };
    proof {
        let payload = crate::address::tron::bs58_check_payload(crate::text::trim(to@))->Ok_0;
        lemma_hex_roundtrip(payload);
    }
    let recipient = decode_hex(to_hex.as_str())?;
    if !bytes_contain(raw.as_slice(), recipient.as_slice()) {
        return Err(
            Error::UntrustedResponse {
                reason: "the node's transaction does not pay the requested recipient".to_string(),
            },
        );
    }
    Ok(())
}

/// The protobuf varint encoding of `v`: seven bits per byte, least significant
/// group first, the high bit set on every byte but the last.
pub open spec fn varint(v: nat) -> Seq<u8>
    decreases v,
{
    if v < 128 {
        seq![v as u8]
    } else {
        seq![(v % 128 + 128) as u8] + varint(v / 128)
    }
}

/// The protobuf varint encoding of `v`.
pub fn encode_varint(v: u64) -> (out: Vec<u8>)
    ensures
        out@ == varint(v as nat),
{
    let mut out: Vec<u8> = Vec::new();
    let mut rest = v;
    while rest >= 128
        invariant
            out@ + varint(rest as nat) == varint(v as nat),
        decreases rest,
    {
        let ghost before = out@;
        out.push((rest % 128 + 128) as u8);
        proof {
            assert(varint(rest as nat) == seq![(rest % 128 + 128) as u8] + varint((rest / 128) as nat));
            assert(out@ + varint((rest / 128) as nat) =~= before + varint(rest as nat));
        }
        rest = rest / 128;
    }
    let ghost before = out@;
    out.push(rest as u8);
    assert(out@ =~= before + varint(rest as nat));
    out
}

/// Check that a node-built transaction encodes the transfer requested, amount
/// included: everything [`verify_transfer`] checks, and that the amount's
/// protobuf varint appears in the decoded `raw_data` bytes, which catches a
/// node that substituted the amount.
///
/// # Errors
///
/// As [`verify_transfer`], and [`Error::UntrustedResponse`] if the amount does
/// not appear in the bytes.
pub fn verify_transfer_amount(raw_data_hex: &str, to: &str, amount: u64, txid: &str) -> (res: Result<(), Error>)
    ensures
        verify_transfer_outcome(raw_data_hex@, to@, txid@, Ok(())) ==> if crate::text::contains_bytes(
            hex_bytes(raw_data_hex@),
            varint(amount as nat),
        ) {
            res is Ok
        } else {
            res matches Err(Error::UntrustedResponse { reason }) && reason@
                == "the node's transaction does not carry the requested amount"@
        },
        !verify_transfer_outcome(raw_data_hex@, to@, txid@, Ok(())) ==> res is Err && verify_transfer_outcome(
            raw_data_hex@,
            to@,
            txid@,
            res,
        ),
{
    verify_transfer(raw_data_hex, to, txid)?;
    let raw = decode_hex(raw_data_hex)?;
    let encoded = encode_varint(amount);
    if !bytes_contain(raw.as_slice(), encoded.as_slice()) {
        return Err(
            Error::UntrustedResponse {
                reason: "the node's transaction does not carry the requested amount".to_string(),
            },
        );
    }
    Ok(())
}

/// Sign a Tron `raw_data` payload: the recoverable ECDSA signature of
/// `sha256(raw_data)`, the same value as the `txID`.
///
/// # Errors
///
/// [`Error::Signing`] for an invalid key (checked first), [`Error::InvalidField`]
/// for malformed hex.
pub fn sign(raw_data_hex: &str, secret_key: &[u8]) -> (res: Result<Signature, Error>)
    ensures
        !crate::secp::valid_secret_key(secret_key@) ==> (res matches Err(Error::Signing { reason })
            && reason@ == "not a valid secp256k1 secret key"@),
        crate::secp::valid_secret_key(secret_key@) && !hex_decodes(raw_data_hex@) ==> hex_error(
            raw_data_hex@,
            error_part(res),
        ),
        crate::secp::valid_secret_key(secret_key@) && hex_decodes(raw_data_hex@) ==> (res matches Ok(
            signature,
        ) && signature@ == tron_signature(hex_bytes(raw_data_hex@), secret_key@)),
        res matches Ok(signature) ==> signature[64] <= 3,
        res matches Ok(signature) ==> {
            let (compact, recovery_id) = crate::secp::ecdsa_recoverable(
                crate::digest::sha256(hex_bytes(raw_data_hex@)),
                secret_key@,
            );
            &&& signature@.subrange(0, 64) == compact
            &&& signature[64] == recovery_id as u8
        },
{
    if !is_valid_secret_key(secret_key) {
        return Err(Error::Signing { reason: "not a valid secp256k1 secret key".to_string() });
    }
    let raw = decode_hex(raw_data_hex)?;
    let digest = sha256_digest(raw.as_slice());
    let (compact, recovery_id) = sign_recoverable(&digest, secret_key);
    let mut out = [0u8; 65];
    let mut i: usize = 0;
    while i < 64
        invariant
            i <= 64,
            forall|j: int| 0 <= j < i ==> out@[j] == compact@[j],
        decreases 64 - i,
    {
        out[i] = compact[i];
        i += 1;
    }
    out[64] = recovery_id as u8;
    assert(out@ =~= compact@.push(recovery_id as u8));
    assert(out@.subrange(0, 64) =~= compact@);
    Ok(out)
}

/// Render a signature as the hex string TronGrid expects (130 digits).
pub fn signature_hex(signature: &Signature) -> (hex: String)
    ensures
        hex@ == crate::text::hex_lower(signature@),
        hex@.len() == 130,
{
    to_hex_lower(signature)
}

proof fn lemma_hex_lower_digits(b: Seq<u8>)
    ensures
        crate::text::hex_lower(b).len() == 2 * b.len(),
        forall|j: int|
            0 <= j < b.len() ==> crate::text::hex_lower(b)[2 * j] == crate::text::hex_digit(
                #[trigger] b[j] as int / 16,
            ) && crate::text::hex_lower(b)[2 * j + 1] == crate::text::hex_digit(b[j] as int % 16),
    decreases b.len(),
{
    crate::text::lemma_hex_lower_len(b);
    if b.len() > 0 {
        let rest = b.drop_last();
        lemma_hex_lower_digits(rest);
        crate::text::lemma_hex_lower_len(rest);
        assert forall|j: int| 0 <= j < b.len() implies crate::text::hex_lower(b)[2 * j]
            == crate::text::hex_digit(#[trigger] b[j] as int / 16) && crate::text::hex_lower(b)[2 * j
            + 1] == crate::text::hex_digit(b[j] as int % 16) by {
            if j < b.len() - 1 {
                assert(b[j] == rest[j]);
            }
        }
    }
}

/// Decoding undoes encoding: the lowercase hex of any bytes (such as a
/// recomputed txID) decodes back to those bytes.
pub proof fn lemma_hex_roundtrip(bytes: Seq<u8>)
    ensures
        hex_decodes(crate::text::hex_lower(bytes)),
        hex_bytes(crate::text::hex_lower(bytes)) == bytes,
{
    let h = crate::text::hex_lower(bytes);
    lemma_hex_lower_digits(bytes);
    assert forall|i: int| 0 <= i < h.len() implies (0x30 <= (#[trigger] h[i]) as u32 <= 0x39 || 0x61
        <= h[i] as u32 <= 0x66) && '\0' <= h[i] <= '\u{7f}' by {
        let j = i / 2;
        assert(0 <= j < bytes.len());
        if i % 2 == 0 {
            assert(i == 2 * j);
            assert(h[i] == crate::text::hex_digit(bytes[j] as int / 16));
        } else {
            assert(i == 2 * j + 1);
            assert(h[i] == crate::text::hex_digit(bytes[j] as int % 16));
        }
    }
    assert(crate::text::trim_start(h) == h);
    assert(crate::text::trim_end(h) == h);
    assert(vstd::utf8::is_ascii_chars(h));
    vstd::utf8::is_ascii_chars_encode_utf8(h);
    let e = hex_body(h);
    assert(e == vstd::utf8::encode_utf8(h));
    assert forall|k: int| 0 <= k < e.len() / 2 implies #[trigger] pair_at(e, k) == Some(bytes[k]) by {
        assert(e[2 * k] == h[2 * k] as u8);
        assert(e[2 * k + 1] == h[2 * k + 1] as u8);
        assert(h[2 * k] == crate::text::hex_digit(bytes[k] as int / 16));
        assert(h[2 * k + 1] == crate::text::hex_digit(bytes[k] as int % 16));
    }
    assert(hex_bytes(h) =~= bytes);
}

/// Decoding accepts uppercase digits too: the lowercase hex of any bytes,
/// turned to ASCII uppercase, decodes back to those bytes.
pub proof fn lemma_hex_upper_roundtrip(bytes: Seq<u8>)
    ensures
        hex_decodes(crate::text::ascii_upper(crate::text::hex_lower(bytes))),
        hex_bytes(crate::text::ascii_upper(crate::text::hex_lower(bytes))) == bytes,
{
    let l = crate::text::hex_lower(bytes);
    let h = crate::text::ascii_upper(l);
    lemma_hex_lower_digits(bytes);
    assert forall|i: int| 0 <= i < h.len() implies (0x30 <= (#[trigger] h[i]) as u32 <= 0x39 || 0x41
        <= h[i] as u32 <= 0x46) && '\0' <= h[i] <= '\u{7f}' by {
        let j = i / 2;
        assert(0 <= j < bytes.len());
        if i % 2 == 0 {
            assert(i == 2 * j);
            assert(l[i] == crate::text::hex_digit(bytes[j] as int / 16));
        } else {
            assert(i == 2 * j + 1);
            assert(l[i] == crate::text::hex_digit(bytes[j] as int % 16));
        }
    }
    assert(crate::text::trim_start(h) == h);
    assert(crate::text::trim_end(h) == h);
    assert(vstd::utf8::is_ascii_chars(h));
    vstd::utf8::is_ascii_chars_encode_utf8(h);
    let e = hex_body(h);
    assert(e == vstd::utf8::encode_utf8(h));
    assert forall|k: int| 0 <= k < e.len() / 2 implies #[trigger] pair_at(e, k) == Some(bytes[k]) by {
        assert(e[2 * k] == h[2 * k] as u8);
        assert(e[2 * k + 1] == h[2 * k + 1] as u8);
        assert(l[2 * k] == crate::text::hex_digit(bytes[k] as int / 16));
        assert(l[2 * k + 1] == crate::text::hex_digit(bytes[k] as int % 16));
    }
    assert(hex_bytes(h) =~= bytes);
}

/// A Tron signature is the compact `r || s` signature exactly as libsecp256k1
/// returns it, byte for byte and in order, followed by the bare recovery id.
pub proof fn lemma_tron_signature_is_compact_then_recovery_id(data: Seq<u8>, secret: Seq<u8>)
    ensures
        ({
            let (compact, recovery_id) = crate::secp::ecdsa_recoverable(crate::digest::sha256(data), secret);
            let signature = tron_signature(data, secret);
            &&& signature.len() == compact.len() + 1
            &&& forall|j: int| 0 <= j < compact.len() ==> #[trigger] signature[j] == compact[j]
            &&& signature[compact.len() as int] == recovery_id as u8
        }),
{
}

/// The value a little-endian base-128 byte string encodes: the low seven bits
/// of each byte, least significant group first.
pub open spec fn base128_value(bytes: Seq<u8>) -> nat
    decreases bytes.len(),
{
    if bytes.len() == 0 {
        0
    } else {
        (bytes[0] % 128) as nat + 128 * base128_value(bytes.drop_first())
    }
}

/// A well-formed varint: non-empty, the continuation bit set on every byte
/// but the last, and clear on the last.
pub open spec fn continuation_bits_ok(bytes: Seq<u8>) -> bool {
    &&& bytes.len() > 0
    &&& forall|i: int| 0 <= i < bytes.len() - 1 ==> #[trigger] bytes[i] >= 128
    &&& bytes[bytes.len() - 1] < 128
}

/// The varint of `v` is a well-formed protobuf varint that decodes back to
/// `v`.
pub proof fn lemma_varint_decodes_to_its_value(v: nat)
    ensures
        continuation_bits_ok(varint(v)),
        base128_value(varint(v)) == v,
    decreases v,
{
    if v < 128 {
        assert(varint(v) == seq![v as u8]);
        assert(varint(v).drop_first() =~= Seq::<u8>::empty());
        assert(base128_value(Seq::<u8>::empty()) == 0);
        assert(base128_value(varint(v)) == (varint(v)[0] % 128) as nat + 128 * base128_value(
            varint(v).drop_first(),
        ));
    } else {
        let rest = varint(v / 128);
        lemma_varint_decodes_to_its_value(v / 128);
        let b = (v % 128 + 128) as u8;
        let out = seq![b] + rest;
        assert(varint(v) == out);
        assert(out.drop_first() =~= rest);
        assert(b % 128 == v % 128);
        assert(v % 128 + 128 * (v / 128) == v);
        assert(base128_value(out) == (out[0] % 128) as nat + 128 * base128_value(out.drop_first()));
        assert(out[0] == b);
        assert forall|i: int| 0 <= i < out.len() - 1 implies #[trigger] out[i] >= 128 by {
            if i > 0 {
                assert(out[i] == rest[i - 1]);
            }
        }
        assert(out[out.len() - 1] == rest[rest.len() - 1]);
    }
}

} // verus!
