//! Tron balances from a TronGrid `wallet/getaccount` response.
use vstd::prelude::*;

verus! {

/// What a TronGrid `wallet/getaccount` body holds as its `balance`: the field
/// read as a `u64` (`None` when it is missing or not a `u64`), or the JSON
/// parser's error rendered when the body is not JSON.
pub uninterp spec fn trongrid_balance_field(body: Seq<char>) -> Result<Option<u64>, Seq<char>>;

/// Reads the `balance` field of a JSON body.
///
/// Trusted: calls `serde_json::from_str::<serde_json::Value>`, then
/// `Value::get("balance")` and `Value::as_u64`; a parse error is rendered by
/// its `Display`. The contract claims only that the outcome is
/// [`trongrid_balance_field`] of the body.
#[verifier::external_body]
fn balance_field(body: &str) -> (res: Result<Option<u64>, String>)
    ensures
        match res {
            Ok(f) => trongrid_balance_field(body@) == Ok::<Option<u64>, Seq<char>>(f),
            Err(m) => trongrid_balance_field(body@) == Err::<Option<u64>, Seq<char>>(m@),
        },
{
    match serde_json::from_str::<serde_json::Value>(body) {
        Ok(v) => Ok(v.get("balance").and_then(serde_json::Value::as_u64)),
        Err(e) => Err(e.to_string()),
    }
}

/// Native balance in sun (1 TRX = 1 000 000 sun) from the account's `balance`
/// field. TronGrid answers `{}` for an account that has never been funded, so
/// a missing field means zero here rather than a malformed response.
pub fn account_balance(balance: Option<u64>) -> (sun: u128)
    ensures
        sun == match balance {
            Some(b) => b as int,
            None => 0int,
        },
{
    match balance {
        Some(b) => b as u128,
        None => 0,
    }
}

/// Native balance in sun from a TronGrid `wallet/getaccount` body.
///
/// A missing `balance` field, or one that is not a `u64`, counts as zero (see
/// [`account_balance`]).
///
/// # Errors
///
/// The JSON parser's message when the body is not JSON.
pub fn balance_from_response(body: &str) -> (res: Result<u128, String>)
    ensures
        (res is Ok) == (trongrid_balance_field(body@) is Ok),
        res matches Ok(sun) ==> sun == match trongrid_balance_field(body@)->Ok_0 {
            Some(b) => b as int,
            None => 0int,
        },
        res matches Err(m) ==> m@ == trongrid_balance_field(body@)->Err_0,
{
    match balance_field(body) {
        Ok(field) => Ok(account_balance(field)),
        Err(message) => Err(message),
    }
}

} // verus!
