//! Bitcoin coin selection and P2WPKH transfers.
//!
//! On Bitcoin the fee is implicit: it is `sum(inputs) - sum(outputs)`. A
//! forgotten change output pays the whole remaining balance to miners, so
//! change is computed explicitly here and a surplus is only ever folded into
//! the fee when it is below the dust threshold, where a change output could
//! not be relayed anyway.
use vstd::prelude::*;

use std::str::FromStr;

use bitcoin::absolute::LockTime;
use bitcoin::sighash::{EcdsaSighashType, SighashCache};
use bitcoin::transaction::Version;
use bitcoin::{Amount, OutPoint, Script, ScriptBuf, Sequence, Transaction, TxIn, TxOut, Txid, Witness};

use super::Error;
use crate::address::btc::{address_script, parse_error, p2wpkh_address, validate, validate_sender};
use crate::secp::{compressed_public_key, is_valid_secret_key, sign_der};
use crate::text::{str_eq_ignore_ascii_case, trim_str};

verus! {

broadcast use vstd::string::group_string_axioms;

/// Outputs below this many satoshis are unspendable dust and get folded into
/// the fee. 546 is the standard relay threshold for a P2WPKH output.
pub const DUST_THRESHOLD: u64 = 546;

/// An unspent output available to fund a transfer.
#[derive(Debug, PartialEq, Eq)]
pub struct Utxo {
    /// Transaction id holding the output.
    pub txid: String,
    /// Index of the output within that transaction.
    pub vout: u32,
    /// Value in satoshis. Must be the real on-chain value: BIP-143 signs it.
    pub value: u64,
}

impl Clone for Utxo {
    fn clone(&self) -> (copy: Self)
        ensures
            copy == *self,
    {
        Utxo { txid: self.txid.clone(), vout: self.vout, value: self.value }
    }
}

/// A P2WPKH transfer, before coin selection.
#[derive(Debug, Clone, PartialEq, Eq)]
pub struct Transfer {
    /// Sender's `bc1q…` address. Must be P2WPKH.
    pub from: String,
    /// Recipient's address. Any mainnet type is fine.
    pub to: String,
    /// Amount to send, in satoshis.
    pub amount: u64,
    /// Absolute fee to pay, in satoshis.
    pub fee: u64,
}

/// The coins chosen to fund a transfer, and the change they leave.
#[derive(Debug, Clone, PartialEq, Eq)]
pub struct Selection {
    /// The UTXOs to spend, largest first.
    pub inputs: Vec<Utxo>,
    /// Change returning to the sender, in satoshis. Zero when the surplus was
    /// below [`DUST_THRESHOLD`] and folded into the fee.
    pub change: u64,
}

/// Coin `i` is spent before coin `j`: it is worth more, or as much and comes
/// earlier in the list.
pub open spec fn comes_before(s: Seq<Utxo>, i: int, j: int) -> bool {
    s[i].value > s[j].value || (s[i].value == s[j].value && i < j)
}

/// `order` lists every index of `s` exactly once, largest value first, with
/// equal values kept in input order (a stable descending sort).
pub open spec fn is_largest_first(s: Seq<Utxo>, order: Seq<usize>) -> bool {
    &&& order.len() == s.len()
    &&& forall|k: int| 0 <= k < order.len() ==> #[trigger] order[k] < s.len()
    &&& forall|j: int| 0 <= j < s.len() ==> #[trigger] order.contains(j as usize)
    &&& forall|k1: int, k2: int|
        0 <= k1 < k2 < order.len() ==> comes_before(s, #[trigger] order[k1] as int, #[trigger] order[k2] as int)
}

/// The largest-first order of `s` (unique, see [`lemma_largest_first_unique`]).
pub open spec fn largest_first(s: Seq<Utxo>) -> Seq<usize> {
    choose|order: Seq<usize>| is_largest_first(s, order)
}

/// Total value of the first `m` coins of `order`.
pub open spec fn prefix_value(s: Seq<Utxo>, order: Seq<usize>, m: int) -> int
    decreases m,
{
    if m <= 0 {
        0
    } else {
        prefix_value(s, order, m - 1) + s[order[m - 1] as int].value
    }
}

/// The least `m >= from` for which the first `m` coins of `order` cover
/// `target`; `s.len() + 1` when none does.
pub open spec fn cover_len_from(s: Seq<Utxo>, order: Seq<usize>, target: u64, from: int) -> int
    decreases s.len() + 1 - from,
{
    if from > s.len() {
        s.len() as int + 1
    } else if prefix_value(s, order, from) >= target {
        from
    } else {
        cover_len_from(s, order, target, from + 1)
    }
}

/// The fewest coins a selection takes: one when there are any, as even a zero
/// target is funded by a coin; none when there are none.
pub open spec fn cover_start(s: Seq<Utxo>) -> int {
    if s.len() == 0 {
        0
    } else {
        1
    }
}

/// How many coins, taken in `order`, it takes to cover `target` (at least one
/// when there are any); `s.len() + 1` when all of them do not.
pub open spec fn cover_len(s: Seq<Utxo>, order: Seq<usize>, target: u64) -> int {
    cover_len_from(s, order, target, cover_start(s))
}

/// The change left by a surplus: all of it, unless it is dust (below
/// [`DUST_THRESHOLD`]).
pub open spec fn change_for(surplus: int) -> int {
    if surplus >= DUST_THRESHOLD {
        surplus
    } else {
        0
    }
}

/// Total value of a list of coins.
pub open spec fn values_sum(s: Seq<Utxo>) -> int
    decreases s.len(),
{
    if s.len() == 0 {
        0
    } else {
        values_sum(s.drop_last()) + s.last().value
    }
}

/// What [`select_coins`] returns for `utxos` and `target`.
pub open spec fn select_coins_result(utxos: Seq<Utxo>, target: u64, res: Result<Selection, Error>) -> bool {
    let order = largest_first(utxos);
    let m = cover_len(utxos, order, target);
    match res {
        Ok(sel) => {
            &&& m <= utxos.len()
            &&& prefix_value(utxos, order, m) <= u64::MAX
            &&& sel.inputs@ == Seq::new(m as nat, |k: int| utxos[order[k] as int])
            &&& sel.change == change_for(prefix_value(utxos, order, m) - target)
        },
        Err(Error::InsufficientFunds { available, required }) => {
            &&& m > utxos.len()
            &&& available == prefix_value(utxos, order, utxos.len() as int)
            &&& required == target
        },
        Err(Error::InvalidField { field, reason }) => {
            &&& m <= utxos.len()
            &&& prefix_value(utxos, order, m) > u64::MAX
            &&& field@ == "utxos"@
            &&& reason@ == "total value overflows"@
        },
        Err(_) => false,
    }
}

proof fn lemma_orders_agree_upto(s: Seq<Utxo>, o1: Seq<usize>, o2: Seq<usize>, k: int)
    requires
        is_largest_first(s, o1),
        is_largest_first(s, o2),
        0 <= k <= o1.len(),
    ensures
        forall|j: int| 0 <= j < k ==> o1[j] == o2[j],
    decreases k,
{
    if k > 0 {
        lemma_orders_agree_upto(s, o1, o2, k - 1);
        let x = o1[k - 1];
        let y = o2[k - 1];
        if x != y {
            let yi = y as int;
            let xi = x as int;
            assert(o1.contains(yi as usize));
            let p = choose|p: int| 0 <= p < o1.len() && o1[p] == y;
            assert(o2.contains(xi as usize));
            let q = choose|q: int| 0 <= q < o2.len() && o2[q] == x;
            if p < k - 1 {
                assert(comes_before(s, o2[p] as int, o2[k - 1] as int));
            }
            if q < k - 1 {
                assert(comes_before(s, o1[q] as int, o1[k - 1] as int));
            }
            assert(comes_before(s, o1[k - 1] as int, o1[p] as int));
            assert(comes_before(s, o2[k - 1] as int, o2[q] as int));
        }
    }
}

/// There is only one largest-first order of a list of coins: ties are broken
/// by position, so coin selection is a function of its input.
pub proof fn lemma_largest_first_unique(s: Seq<Utxo>, o1: Seq<usize>, o2: Seq<usize>)
    requires
        is_largest_first(s, o1),
        is_largest_first(s, o2),
    ensures
        o1 == o2,
{
    lemma_orders_agree_upto(s, o1, o2, o1.len() as int);
    assert(o1 =~= o2);
}

proof fn lemma_cover_skip(s: Seq<Utxo>, order: Seq<usize>, target: u64, m: int)
    requires
        cover_start(s) <= m <= s.len() + 1,
        forall|j: int| cover_start(s) <= j < m ==> prefix_value(s, order, j) < target,
    ensures
        cover_len(s, order, target) == cover_len_from(s, order, target, m),
    decreases m,
{
    if m > cover_start(s) {
        lemma_cover_skip(s, order, target, m - 1);
    }
}

/// `order` is the largest-first order of the first `i` coins of `s`.
pub open spec fn is_largest_first_upto(s: Seq<Utxo>, order: Seq<usize>, i: int) -> bool {
    &&& order.len() == i
    &&& forall|k: int| 0 <= k < order.len() ==> #[trigger] order[k] < i
    &&& forall|j: int| 0 <= j < i ==> #[trigger] order.contains(j as usize)
    &&& forall|k1: int, k2: int|
        0 <= k1 < k2 < order.len() ==> comes_before(s, #[trigger] order[k1] as int, #[trigger] order[k2] as int)
}

/// Inserting coin `i` where the coins stop being worth at least as much keeps
/// the order largest-first.
proof fn lemma_insert_next(s: Seq<Utxo>, order: Seq<usize>, i: int, p: int)
    requires
        is_largest_first_upto(s, order, i),
        0 <= i < s.len(),
        i <= usize::MAX,
        0 <= p <= order.len(),
        forall|k: int| 0 <= k < p ==> s[#[trigger] order[k] as int].value >= s[i].value,
        p < order.len() ==> s[order[p] as int].value < s[i].value,
    ensures
        is_largest_first_upto(s, order.insert(p, i as usize), i + 1),
{
    let v = s[i].value;
    let new_order = order.insert(p, i as usize);
    assert forall|k: int| p <= k < order.len() implies s[#[trigger] order[k] as int].value < v by {
        if k > p {
            assert(comes_before(s, order[p] as int, order[k] as int));
        }
    }
    assert forall|k1: int, k2: int| 0 <= k1 < k2 < new_order.len() implies comes_before(
        s,
        #[trigger] new_order[k1] as int,
        #[trigger] new_order[k2] as int,
    ) by {
        if k1 < p && k2 < p {
            assert(new_order[k1] == order[k1] && new_order[k2] == order[k2]);
        } else if k1 < p && k2 == p {
            assert(new_order[k1] == order[k1]);
        } else if k1 < p {
            assert(new_order[k1] == order[k1] && new_order[k2] == order[k2 - 1]);
        } else if k1 == p {
            assert(new_order[k2] == order[k2 - 1]);
        } else {
            assert(new_order[k1] == order[k1 - 1] && new_order[k2] == order[k2 - 1]);
        }
    }
    assert forall|k: int| 0 <= k < new_order.len() implies #[trigger] new_order[k] < i + 1 by {
        if k < p {
            assert(new_order[k] == order[k]);
        } else if k > p {
            assert(new_order[k] == order[k - 1]);
        }
    }
    assert forall|j: int| 0 <= j < i + 1 implies #[trigger] new_order.contains(j as usize) by {
        if j < i {
            assert(order.contains(j as usize));
            let q = choose|q: int| 0 <= q < order.len() && order[q] == j as usize;
            if q < p {
                assert(new_order[q] == j as usize);
            } else {
                assert(new_order[q + 1] == j as usize);
            }
        } else {
            assert(new_order[p] == i as usize);
        }
    }
}

/// Where coin value `v` goes in `order`: the first position from `from` on
/// whose coin is worth less.
spec fn insertion_point(s: Seq<Utxo>, order: Seq<usize>, v: u64, from: int) -> int
    decreases order.len() - from,
{
    if from >= order.len() {
        order.len() as int
    } else if s[order[from] as int].value < v {
        from
    } else {
        insertion_point(s, order, v, from + 1)
    }
}

proof fn lemma_insertion_point(s: Seq<Utxo>, order: Seq<usize>, v: u64, from: int)
    requires
        0 <= from <= order.len(),
    ensures
        from <= insertion_point(s, order, v, from) <= order.len(),
        forall|k: int|
            from <= k < insertion_point(s, order, v, from) ==> s[#[trigger] order[k] as int].value >= v,
        insertion_point(s, order, v, from) < order.len() ==> s[order[insertion_point(
            s,
            order,
            v,
            from,
        )] as int].value < v,
    decreases order.len() - from,
{
    if from < order.len() && s[order[from] as int].value >= v {
        lemma_insertion_point(s, order, v, from + 1);
    }
}

/// The largest-first order of the first `i` coins, built by insertion.
proof fn build_largest_first(s: Seq<Utxo>, i: int) -> (order: Seq<usize>)
    requires
        0 <= i <= s.len(),
        s.len() <= usize::MAX,
    ensures
        is_largest_first_upto(s, order, i),
    decreases i,
{
    if i == 0 {
        Seq::empty()
    } else {
        let prev = build_largest_first(s, i - 1);
        let p = insertion_point(s, prev, s[i - 1].value, 0);
        lemma_insertion_point(s, prev, s[i - 1].value, 0);
        lemma_insert_next(s, prev, i - 1, p);
        prev.insert(p, (i - 1) as usize)
    }
}

/// Every list of coins has a largest-first order, so [`largest_first`] is one.
pub proof fn lemma_largest_first_exists(s: Seq<Utxo>)
    requires
        s.len() <= usize::MAX,
    ensures
        is_largest_first(s, largest_first(s)),
{
    let order = build_largest_first(s, s.len() as int);
    assert(is_largest_first(s, order));
}

/// Total value of the coins of `s` at positions `picked`.
pub open spec fn picked_value(s: Seq<Utxo>, picked: Seq<int>) -> int
    decreases picked.len(),
{
    if picked.len() == 0 {
        0
    } else {
        picked_value(s, picked.drop_last()) + s[picked.last()].value
    }
}

/// `picked` names distinct coins of `s`.
pub open spec fn picks_distinct(s: Seq<Utxo>, picked: Seq<int>) -> bool {
    &&& picked.no_duplicates()
    &&& forall|j: int| 0 <= j < picked.len() ==> 0 <= #[trigger] picked[j] < s.len()
}

proof fn lemma_picked_value_remove(s: Seq<Utxo>, picked: Seq<int>, q: int)
    requires
        0 <= q < picked.len(),
    ensures
        picked_value(s, picked) == picked_value(s, picked.remove(q)) + s[picked[q]].value,
    decreases picked.len(),
{
    if q == picked.len() - 1 {
        assert(picked.remove(q) =~= picked.drop_last());
    } else {
        lemma_picked_value_remove(s, picked.drop_last(), q);
        assert(picked.remove(q).drop_last() =~= picked.drop_last().remove(q));
        assert(picked.remove(q).last() == picked.last());
    }
}

/// Where coin `x` stands in `order`.
spec fn position_of(order: Seq<usize>, x: int) -> int {
    choose|p: int| 0 <= p < order.len() && order[p] as int == x
}

/// The index of a largest element of a non-empty sequence.
spec fn argmax(p: Seq<int>) -> int
    decreases p.len(),
{
    if p.len() <= 1 {
        0
    } else {
        let rest = argmax(p.drop_last());
        if p.last() > p[rest] {
            p.len() - 1
        } else {
            rest
        }
    }
}

proof fn lemma_argmax(p: Seq<int>)
    requires
        p.len() > 0,
    ensures
        0 <= argmax(p) < p.len(),
        forall|j: int| 0 <= j < p.len() ==> #[trigger] p[j] <= p[argmax(p)],
    decreases p.len(),
{
    if p.len() > 1 {
        lemma_argmax(p.drop_last());
        assert forall|j: int| 0 <= j < p.len() implies #[trigger] p[j] <= p[argmax(p)] by {
            if j < p.len() - 1 {
                assert(p[j] == p.drop_last()[j]);
            }
        }
    }
}

/// `k` distinct non-negative integers cannot all be below `k - 1`: the largest
/// of them is at least `k - 1`.
proof fn lemma_distinct_max(p: Seq<int>, m: int)
    requires
        m >= -1,
        p.no_duplicates(),
        forall|j: int| 0 <= j < p.len() ==> 0 <= #[trigger] p[j] <= m,
    ensures
        p.len() <= m + 1,
{
    p.unique_seq_to_set();
    vstd::set_lib::lemma_int_range(0, m + 1);
    assert(p.to_set().subset_of(vstd::set_lib::set_int_range(0, m + 1)));
    vstd::set_lib::lemma_len_subset(p.to_set(), vstd::set_lib::set_int_range(0, m + 1));
}

/// Any `k` distinct coins are worth at most the first `k` coins in
/// largest-first order.
proof fn lemma_top_coins_bound(s: Seq<Utxo>, order: Seq<usize>, picked: Seq<int>)
    requires
        s.len() <= usize::MAX,
        is_largest_first(s, order),
        picks_distinct(s, picked),
    ensures
        picked_value(s, picked) <= prefix_value(s, order, picked.len() as int),
    decreases picked.len(),
{
    let k = picked.len() as int;
    if k > 0 {
        let positions = Seq::new(k as nat, |j: int| position_of(order, picked[j]));
        assert forall|j: int| 0 <= j < k implies 0 <= #[trigger] positions[j] < order.len() && order[positions[j]] as int == picked[j] by {
            let x = picked[j];
            assert(order.contains(x as usize));
        }
        assert(positions.no_duplicates()) by {
            assert forall|a: int, b: int| 0 <= a < k && 0 <= b < k && a != b implies positions[a] != positions[b] by {
                assert(order[positions[a]] as int == picked[a]);
                assert(order[positions[b]] as int == picked[b]);
            }
        }
        lemma_argmax(positions);
        let q = argmax(positions);
        let top = positions[q];
        lemma_distinct_max(positions, top);
        // The picked coin with the latest position is worth no more than the
        // k-th coin in order.
        if top > k - 1 {
            assert(comes_before(s, order[k - 1] as int, order[top] as int));
        }
        assert(s[picked[q]].value <= s[order[k - 1] as int].value);
        let rest = picked.remove(q);
        assert(picks_distinct(s, rest)) by {
            assert forall|a: int, b: int| 0 <= a < rest.len() && 0 <= b < rest.len() && a != b implies rest[a] != rest[b] by {
                let a2 = if a < q { a } else { a + 1 };
                let b2 = if b < q { b } else { b + 1 };
                assert(rest[a] == picked[a2] && rest[b] == picked[b2]);
            }
            assert forall|j: int| 0 <= j < rest.len() implies 0 <= #[trigger] rest[j] < s.len() by {
                if j < q {
                    assert(rest[j] == picked[j]);
                } else {
                    assert(rest[j] == picked[j + 1]);
                }
            }
        }
        lemma_top_coins_bound(s, order, rest);
        lemma_picked_value_remove(s, picked, q);
    }
}

proof fn lemma_cover_len_minimal(s: Seq<Utxo>, order: Seq<usize>, target: u64, from: int, j: int)
    requires
        0 <= from <= j,
        j < cover_len_from(s, order, target, from),
        j <= s.len(),
    ensures
        prefix_value(s, order, j) < target,
    decreases j - from,
{
    if from < j {
        lemma_cover_len_minimal(s, order, target, from + 1, j);
    }
}

/// Largest-first takes the fewest coins: any non-empty selection of distinct
/// coins that covers `target` has at least as many coins as [`select_coins`]
/// takes. (For a zero target the empty selection covers it, while
/// [`select_coins`] still spends one coin when there is one.)
pub proof fn lemma_largest_first_takes_fewest_coins(s: Seq<Utxo>, target: u64, picked: Seq<int>)
    requires
        s.len() <= usize::MAX,
        picks_distinct(s, picked),
        picked_value(s, picked) >= target,
        picked.len() > 0 || s.len() == 0,
    ensures
        selection_len(s, target) <= picked.len(),
{
    lemma_largest_first_exists(s);
    let order = largest_first(s);
    let k = picked.len() as int;
    lemma_distinct_max(picked, s.len() - 1);
    lemma_top_coins_bound(s, order, picked);
    if selection_len(s, target) > k {
        lemma_cover_len_minimal(s, order, target, cover_start(s), k);
    }
}

/// Indices of `utxos`, largest value first, ties in input order.
fn largest_first_order(utxos: &[Utxo]) -> (order: Vec<usize>)
    ensures
        is_largest_first(utxos@, order@),
{
    let n = utxos.len();
    let mut order: Vec<usize> = Vec::new();
    let mut i: usize = 0;
    while i < n
        invariant
            n == utxos@.len(),
            i <= n,
            is_largest_first_upto(utxos@, order@, i as int),
        decreases n - i,
    {
        let v = utxos[i].value;
        let mut p: usize = 0;
        while p < order.len() && utxos[order[p]].value >= v
            invariant
                n == utxos@.len(),
                i < n,
                is_largest_first_upto(utxos@, order@, i as int),
                p <= order@.len(),
                v == utxos@[i as int].value,
                forall|k: int| 0 <= k < p ==> utxos@[#[trigger] order@[k] as int].value >= v,
            decreases order@.len() - p,
        {
            p += 1;
        }
        proof {
            lemma_insert_next(utxos@, order@, i as int, p as int);
        }
        order.insert(p, i);
        i += 1;
    }
    order
}

/// Choose UTXOs to cover `target`, largest first.
///
/// Largest-first keeps the input count, and so the transaction size and the
/// fee, small. Coins are taken in that order until their total reaches
/// `target`, at least one when there are any (with none, a zero target is
/// covered by no coins); the surplus becomes change unless it is dust, below
/// [`DUST_THRESHOLD`].
///
/// # Errors
///
/// [`Error::InsufficientFunds`] when the available total cannot cover
/// `target`, and [`Error::InvalidField`] when the running total overflows
/// before it does.
pub fn select_coins(utxos: &[Utxo], target: u64) -> (res: Result<Selection, Error>)
    ensures
        select_coins_result(utxos@, target, res),
        res matches Ok(sel) ==> {
            &&& values_sum(sel.inputs@) >= target
            &&& sel.change >= DUST_THRESHOLD ==> values_sum(sel.inputs@) == target + sel.change
            &&& sel.change < DUST_THRESHOLD ==> sel.change == 0 && values_sum(sel.inputs@) - target
                < DUST_THRESHOLD
        },
{
    let order = largest_first_order(utxos);
    let ghost s = utxos@;
    proof {
        lemma_largest_first_unique(s, order@, largest_first(s));
    }
    let n = order.len();
    let mut total: u64 = 0;
    let mut chosen: Vec<Utxo> = Vec::new();
    if n == 0 && target == 0 {
        proof {
            assert(chosen@ =~= Seq::new(0, |j: int| s[order@[j] as int]));
        }
        return Ok(Selection { inputs: chosen, change: 0 });
    }
    let mut k: usize = 0;
    while k < n
        invariant
            s == utxos@,
            n == s.len(),
            order@ == largest_first(s),
            is_largest_first(s, order@),
            k <= n,
            total == prefix_value(s, order@, k as int),
            chosen@ == Seq::new(k as nat, |j: int| s[order@[j] as int]),
            values_sum(chosen@) == total,
            forall|j: int| cover_start(s) <= j <= k ==> prefix_value(s, order@, j) < target,
        decreases n - k,
    {
        let coin = &utxos[order[k]];
        assert(prefix_value(s, order@, k + 1) == total + coin.value);
        match total.checked_add(coin.value) {
            None => {
                proof {
                    lemma_cover_skip(s, order@, target, k + 1);
                }
                return Err(
                    Error::InvalidField { field: "utxos", reason: "total value overflows".to_string() },
                );
            },
            Some(t) => {
                total = t;
            },
        }
        let ghost before = chosen@;
        chosen.push(coin.clone());
        proof {
            assert(chosen@.drop_last() == before);
            assert(chosen@ =~= Seq::new((k + 1) as nat, |j: int| s[order@[j] as int]));
        }
        k += 1;
        if total >= target {
            proof {
                lemma_cover_skip(s, order@, target, k as int);
            }
            let surplus = total - target;
            let change = if surplus >= DUST_THRESHOLD {
                surplus
            } else {
                0
            };
            return Ok(Selection { inputs: chosen, change });
        }
    }
    proof {
        lemma_cover_skip(s, order@, target, n + 1);
    }
    Err(Error::InsufficientFunds { available: total, required: target })
}

#[verifier::external_type_specification]
#[verifier::external_body]
pub struct ExTransaction(bitcoin::Transaction);

/// A coin to spend, in the form the transaction needs it.
#[derive(Debug, Clone, PartialEq, Eq)]
pub struct PlannedInput {
    /// The id of the transaction holding the coin, as `Txid` stores it.
    pub txid: [u8; 32],
    /// The coin's index within that transaction.
    pub vout: u32,
}

/// An output of the transaction.
#[derive(Debug, Clone, PartialEq, Eq)]
pub struct PlannedOutput {
    /// Value in satoshis.
    pub value: u64,
    /// The scriptPubKey it pays to.
    pub script_pubkey: Vec<u8>,
}

/// Everything a P2WPKH transfer's transaction is made of: the coins it spends,
/// in selection order, and its outputs, the payment first and change (if any)
/// second.
#[derive(Debug, Clone, PartialEq, Eq)]
pub struct TransferPlan {
    /// The coins spent, in selection order.
    pub inputs: Vec<PlannedInput>,
    /// The payment, then the change if there is any.
    pub outputs: Vec<PlannedOutput>,
    /// The coin selection the inputs come from.
    pub selection: Selection,
}

/// What `Txid::from_str` makes of `text`: the id's bytes, or its error
/// rendered.
pub uninterp spec fn txid_parse(text: Seq<char>) -> Result<Seq<u8>, Seq<char>>;

/// Parses a transaction id.
///
/// Trusted: calls `<Txid as FromStr>::from_str` and returns the id's bytes
/// (`to_byte_array`) or the error rendered by its `Display`. The contract
/// claims only that this is [`txid_parse`] of the text.
#[verifier::external_body]
fn parse_txid(text: &str) -> (res: Result<[u8; 32], String>)
    ensures
        match res {
            Ok(bytes) => txid_parse(text@) == Ok::<Seq<u8>, Seq<char>>(bytes@),
            Err(message) => txid_parse(text@) == Err::<Seq<u8>, Seq<char>>(message@),
        },
{
    match Txid::from_str(text) {
        Ok(txid) => Ok(bitcoin::hashes::Hash::to_byte_array(txid)),
        Err(e) => Err(e.to_string()),
    }
}

/// How many coins the largest-first selection for `target` takes.
pub open spec fn selection_len(utxos: Seq<Utxo>, target: u64) -> int {
    cover_len(utxos, largest_first(utxos), target)
}

/// The value of the coins the largest-first selection for `target` takes.
pub open spec fn selection_total(utxos: Seq<Utxo>, target: u64) -> int {
    prefix_value(utxos, largest_first(utxos), selection_len(utxos, target))
}

/// Coin selection for `target` succeeds.
pub open spec fn selection_succeeds(utxos: Seq<Utxo>, target: u64) -> bool {
    selection_len(utxos, target) <= utxos.len() && selection_total(utxos, target) <= u64::MAX
}

/// The coins the largest-first selection for `target` takes, in order.
pub open spec fn selected_coins(utxos: Seq<Utxo>, target: u64) -> Seq<Utxo> {
    Seq::new(selection_len(utxos, target) as nat, |k: int| utxos[largest_first(utxos)[k] as int])
}

/// The first coin from `from` on whose txid does not parse; `coins.len()`
/// when all of them parse.
pub open spec fn first_bad_txid_from(coins: Seq<Utxo>, from: int) -> int
    decreases coins.len() - from,
{
    if from >= coins.len() {
        coins.len() as int
    } else if txid_parse(coins[from].txid@) is Err {
        from
    } else {
        first_bad_txid_from(coins, from + 1)
    }
}

/// The first coin whose txid does not parse; `coins.len()` when all parse.
pub open spec fn first_bad_txid(coins: Seq<Utxo>) -> int {
    first_bad_txid_from(coins, 0)
}

/// What [`Transfer::plan`] returns for a transfer and the coins offered.
pub open spec fn transfer_plan_outcome(t: Transfer, utxos: Seq<Utxo>, res: Result<TransferPlan, Error>) -> bool {
    if !crate::address::btc::btc_sender_accepts(t.from@) {
        match res {
            Err(Error::Address(e)) => crate::address::btc::btc_sender_error(t.from@, e),
            _ => false,
        }
    } else if !crate::address::btc::btc_accepts(t.to@) {
        match res {
            Err(Error::Address(e)) => crate::address::btc::btc_validate_error(t.to@, e),
            _ => false,
        }
    } else if t.amount + t.fee > u64::MAX {
        match res {
            Err(Error::InvalidField { field, reason }) => field@ == "amount"@ && reason@
                == "amount + fee overflows"@,
            _ => false,
        }
    } else {
        let target = (t.amount + t.fee) as u64;
        if !selection_succeeds(utxos, target) {
            match res {
                Err(e) => select_coins_result(utxos, target, Err(e)),
                Ok(_) => false,
            }
        } else {
            let coins = selected_coins(utxos, target);
            let bad = first_bad_txid(coins);
            let change = change_for(selection_total(utxos, target) - target);
            if bad < coins.len() {
                match res {
                    Err(Error::InvalidField { field, reason }) => field@ == "utxo.txid"@ && reason@
                        == coins[bad].txid@ + ": "@ + txid_parse(coins[bad].txid@)->Err_0,
                    _ => false,
                }
            } else {
                match res {
                    Ok(p) => {
                        &&& p.selection.inputs@ == coins
                        &&& p.selection.change == change
                        &&& p.inputs@.len() == coins.len()
                        &&& forall|k: int|
                            0 <= k < coins.len() ==> #[trigger] p.inputs@[k].txid@ == txid_parse(
                                coins[k].txid@,
                            )->Ok_0 && p.inputs@[k].vout == coins[k].vout
                        &&& p.outputs@.len() == if change > 0 {
                            2int
                        } else {
                            1int
                        }
                        &&& p.outputs@[0].value == t.amount
                        &&& p.outputs@[0].script_pubkey@ == crate::address::btc::btc_address_script(
                            crate::text::trim(t.to@),
                        )
                        &&& change > 0 ==> p.outputs@[1].value == change
                            && p.outputs@[1].script_pubkey@ == crate::address::btc::btc_address_script(
                            crate::text::trim(t.from@),
                        )
                    },
                    _ => false,
                }
            }
        }
    }
}

/// The scriptPubKey that pays to `address`.
fn script_pubkey(address: &str) -> (res: Result<Vec<u8>, Error>)
    ensures
        match crate::address::btc::btc_address_parse_error(address@) {
            None => res matches Ok(script) && script@ == crate::address::btc::btc_address_script(address@),
            Some(message) => res matches Err(Error::InvalidField { field, reason }) && field@ == "address"@
                && reason@ == message,
        },
{
    match parse_error(address) {
        Some(reason) => Err(Error::InvalidField { field: "address", reason }),
        None => Ok(address_script(address)),
    }
}

/// The version every transaction built here carries (BIP-68 relative lock
/// times need version 2).
pub const TX_VERSION: i32 = 2;

/// The lock time every transaction built here carries: none.
pub const TX_LOCK_TIME: u32 = 0;

/// The sequence every input built here carries: `0xFFFFFFFD`, which opts into
/// replace-by-fee (BIP-125) without enabling a relative lock time, so a
/// transfer stuck at a low fee can be bumped.
pub const RBF_SEQUENCE: u32 = 0xFFFF_FFFD;

/// An input as a transaction holds it: the txid bytes and output index it
/// spends, its scriptSig bytes, its sequence number and its witness items.
pub type TxInputView = (Seq<u8>, u32, Seq<u8>, u32, Seq<Seq<u8>>);

/// An output as a transaction holds it: its value in satoshis and the bytes of
/// its scriptPubKey.
pub type TxOutputView = (u64, Seq<u8>);

/// The version a transaction carries.
pub uninterp spec fn tx_version(tx: Transaction) -> i32;

/// The lock time a transaction carries, as its consensus `u32`.
pub uninterp spec fn tx_lock_time(tx: Transaction) -> u32;

/// The inputs a transaction holds, in order.
pub uninterp spec fn tx_inputs(tx: Transaction) -> Seq<TxInputView>;

/// The outputs a transaction holds, in order.
pub uninterp spec fn tx_outputs(tx: Transaction) -> Seq<TxOutputView>;

/// The BIP-143 `SIGHASH_ALL` digest for spending input `index` of the
/// transaction with the given version, lock time, inputs and outputs, where
/// the coin spent pays `value` satoshis to the P2WPKH scriptPubKey `script`.
/// It commits to that value.
pub uninterp spec fn bip143_p2wpkh_sighash(
    version: i32,
    lock_time: u32,
    inputs: Seq<TxInputView>,
    outputs: Seq<TxOutputView>,
    index: int,
    script: Seq<u8>,
    value: u64,
) -> Seq<u8>;

/// The consensus serialization, in lowercase hex, of the transaction with the
/// given version, lock time, inputs and outputs.
pub uninterp spec fn consensus_hex(
    version: i32,
    lock_time: u32,
    inputs: Seq<TxInputView>,
    outputs: Seq<TxOutputView>,
) -> Seq<char>;

/// Witness items as byte sequences.
pub open spec fn witness_items(witness: Seq<Vec<u8>>) -> Seq<Seq<u8>> {
    witness.map_values(|item: Vec<u8>| item@)
}

/// A list of witnesses as byte sequences.
pub open spec fn witness_list(witnesses: Seq<Vec<Vec<u8>>>) -> Seq<Seq<Seq<u8>>> {
    witnesses.map_values(|w: Vec<Vec<u8>>| witness_items(w@))
}

/// An empty transaction with the given version and lock time.
///
/// Trusted: builds a `Transaction` with `Version(version)`,
/// `LockTime::from_consensus(lock_time)` and no inputs or outputs. The
/// contract claims that it carries that version and lock time (`from_consensus`
/// and `to_consensus_u32` round-trip) and holds no inputs and no outputs.
#[verifier::external_body]
fn empty_transaction(version: i32, lock_time: u32) -> (tx: Transaction)
    ensures
        tx_version(tx) == version,
        tx_lock_time(tx) == lock_time,
        tx_inputs(tx) == Seq::<TxInputView>::empty(),
        tx_outputs(tx) == Seq::<TxOutputView>::empty(),
{
    Transaction { version: Version(version), lock_time: LockTime::from_consensus(lock_time), input: Vec::new(), output: Vec::new() }
}

/// Appends an input spending `txid:vout`.
///
/// Trusted: pushes a `TxIn` onto `tx.input`, built from the given outpoint,
/// scriptSig, sequence and witness items. The contract claims that the input
/// list gains exactly that input at its end, and that nothing else changes.
#[verifier::external_body]
fn push_input(tx: &mut Transaction, txid: &[u8; 32], vout: u32, script_sig: &Vec<u8>, sequence: u32, witness: &Vec<Vec<u8>>)
    ensures
        tx_inputs(*final(tx)) == tx_inputs(*old(tx)).push((txid@, vout, script_sig@, sequence, witness_items(witness@))),
        tx_outputs(*final(tx)) == tx_outputs(*old(tx)),
        tx_version(*final(tx)) == tx_version(*old(tx)),
        tx_lock_time(*final(tx)) == tx_lock_time(*old(tx)),
{
    tx.input.push(TxIn {
        previous_output: OutPoint { txid: bitcoin::hashes::Hash::from_byte_array(*txid), vout },
        script_sig: ScriptBuf::from_bytes(script_sig.clone()),
        sequence: Sequence(sequence),
        witness: Witness::from_slice(witness),
    });
}

/// Appends an output paying `value` satoshis to `script`.
///
/// Trusted: pushes a `TxOut` onto `tx.output`. The contract claims that the
/// output list gains exactly that output at its end, and that nothing else
/// changes.
#[verifier::external_body]
fn push_output(tx: &mut Transaction, value: u64, script: &Vec<u8>)
    ensures
        tx_outputs(*final(tx)) == tx_outputs(*old(tx)).push((value, script@)),
        tx_inputs(*final(tx)) == tx_inputs(*old(tx)),
        tx_version(*final(tx)) == tx_version(*old(tx)),
        tx_lock_time(*final(tx)) == tx_lock_time(*old(tx)),
{
    tx.output.push(TxOut { value: Amount::from_sat(value), script_pubkey: ScriptBuf::from_bytes(script.clone()) });
}

/// The BIP-143 sighash (`SIGHASH_ALL`) of input `index` of `tx`, spending a
/// P2WPKH output with scriptPubKey `script` worth `value` satoshis.
///
/// Trusted: calls `SighashCache::p2wpkh_signature_hash` and returns the hash's
/// bytes, or its error rendered. The source fails only when `script` is not
/// P2WPKH (`NotP2wpkhScript`) or `index` is not an input of `tx`; otherwise the
/// digest is [`bip143_p2wpkh_sighash`] of the transaction's parts. That is what
/// the contract claims.
#[verifier::external_body]
fn p2wpkh_sighash(tx: &Transaction, index: usize, script: &Vec<u8>, value: u64) -> (res: Result<[u8; 32], String>)
    ensures
        res is Ok == (crate::address::btc::is_p2wpkh(script@) && index < tx_inputs(*tx).len()),
        res matches Ok(hash) ==> hash@ == bip143_p2wpkh_sighash(
            tx_version(*tx),
            tx_lock_time(*tx),
            tx_inputs(*tx),
            tx_outputs(*tx),
            index as int,
            script@,
            value,
        ),
{
    let mut cache = SighashCache::new(tx);
    match cache.p2wpkh_signature_hash(index, Script::from_bytes(script), Amount::from_sat(value), EcdsaSighashType::All) {
        Ok(hash) => Ok(bitcoin::hashes::Hash::to_byte_array(hash)),
        Err(e) => Err(e.to_string()),
    }
}

/// Consensus serialization of a transaction, in hex.
///
/// Trusted: calls `bitcoin::consensus::encode::serialize_hex`. The contract
/// claims only that the text is [`consensus_hex`] of the transaction's parts.
#[verifier::external_body]
fn transaction_hex(tx: &Transaction) -> (hex: String)
    ensures
        hex@ == consensus_hex(tx_version(*tx), tx_lock_time(*tx), tx_inputs(*tx), tx_outputs(*tx)),
{
    bitcoin::consensus::encode::serialize_hex(tx)
}

/// The inputs of the transaction a plan describes: each planned coin with an
/// empty scriptSig, the replace-by-fee sequence and the given witness (none
/// when `witnesses` is empty).
pub open spec fn planned_tx_inputs(plan: TransferPlan, witnesses: Seq<Seq<Seq<u8>>>) -> Seq<TxInputView> {
    Seq::new(
        plan.inputs@.len(),
        |k: int|
            (
                plan.inputs@[k].txid@,
                plan.inputs@[k].vout,
                Seq::<u8>::empty(),
                RBF_SEQUENCE,
                if witnesses.len() == 0 {
                    Seq::<Seq<u8>>::empty()
                } else {
                    witnesses[k]
                },
            ),
    )
}

/// The outputs of the transaction a plan describes, in order.
pub open spec fn planned_tx_outputs(plan: TransferPlan) -> Seq<TxOutputView> {
    Seq::new(plan.outputs@.len(), |j: int| (plan.outputs@[j].value, plan.outputs@[j].script_pubkey@))
}

/// The P2WPKH address of `secret` is the sender `from`, trimmed, up to ASCII
/// case.
pub open spec fn key_matches_sender(secret: Seq<u8>, from: Seq<char>) -> bool {
    crate::text::eq_ignore_ascii_case(
        vstd::utf8::encode_utf8(
            crate::address::btc::p2wpkh_address_text(crate::secp::secp_compressed_public_key(secret)),
        ),
        vstd::utf8::encode_utf8(crate::text::trim(from)),
    )
}

/// The BIP-143 sighash of input `k` of a plan's unsigned transaction, for
/// the P2WPKH scriptPubKey `script`; it commits to the value of the coin the
/// input spends.
pub open spec fn input_sighash(plan: TransferPlan, script: Seq<u8>, k: int) -> Seq<u8> {
    bip143_p2wpkh_sighash(
        TX_VERSION,
        TX_LOCK_TIME,
        planned_tx_inputs(plan, Seq::empty()),
        planned_tx_outputs(plan),
        k,
        script,
        plan.selection.inputs@[k].value,
    )
}

/// The witness that signs input `k` of a plan's transaction: the DER ECDSA
/// signature of the input's BIP-143 sighash (which commits to the coin's
/// value) with `SIGHASH_ALL` appended, then the compressed public key.
pub open spec fn input_witness(plan: TransferPlan, secret: Seq<u8>, script: Seq<u8>, k: int) -> Seq<Seq<u8>> {
    seq![
        crate::secp::ecdsa_der(input_sighash(plan, script, k), secret).push(1u8),
        crate::secp::secp_compressed_public_key(secret),
    ]
}

/// Every input's signature verifies, under the public key its witness
/// carries, over that input's sighash.
pub open spec fn signatures_verify(plan: TransferPlan, secret: Seq<u8>, script: Seq<u8>) -> bool {
    forall|k: int|
        0 <= k < plan.inputs@.len() ==> crate::secp::ecdsa_verifies(
            crate::secp::secp_compressed_public_key(secret),
            input_sighash(plan, script, k),
            #[trigger] crate::secp::ecdsa_der(input_sighash(plan, script, k), secret),
        )
}

/// Input `k` of a plan's transaction spends the `k`-th selected coin, the one
/// whose value the `k`-th sighash commits to: its outpoint is that coin's
/// parsed txid and output index, with an empty scriptSig and the
/// replace-by-fee sequence, whatever witnesses are filled in.
pub proof fn lemma_input_k_spends_the_kth_selected_coin(
    t: Transfer,
    utxos: Seq<Utxo>,
    p: TransferPlan,
    witnesses: Seq<Seq<Seq<u8>>>,
    script: Seq<u8>,
)
    requires
        transfer_plan_outcome(t, utxos, Ok(p)),
    ensures
        planned_tx_inputs(p, witnesses).len() == p.selection.inputs@.len(),
        forall|k: int|
            0 <= k < p.selection.inputs@.len() ==> {
                &&& (#[trigger] planned_tx_inputs(p, witnesses)[k]).0 == txid_parse(
                    p.selection.inputs@[k].txid@,
                )->Ok_0
                &&& planned_tx_inputs(p, witnesses)[k].1 == p.selection.inputs@[k].vout
                &&& planned_tx_inputs(p, witnesses)[k].2 == Seq::<u8>::empty()
                &&& planned_tx_inputs(p, witnesses)[k].3 == RBF_SEQUENCE
                &&& input_sighash(p, script, k) == bip143_p2wpkh_sighash(
                    TX_VERSION,
                    TX_LOCK_TIME,
                    planned_tx_inputs(p, Seq::empty()),
                    planned_tx_outputs(p),
                    k,
                    script,
                    p.selection.inputs@[k].value,
                )
            },
{
}

/// The hex of a plan's transaction, every input signed with `secret` for
/// the P2WPKH scriptPubKey `script`.
pub open spec fn signed_transfer_hex(plan: TransferPlan, secret: Seq<u8>, script: Seq<u8>) -> Seq<char> {
    consensus_hex(
        TX_VERSION,
        TX_LOCK_TIME,
        planned_tx_inputs(plan, Seq::new(plan.inputs@.len(), |k: int| input_witness(plan, secret, script, k))),
        planned_tx_outputs(plan),
    )
}

/// Signing signs the transaction that building lays out: for a transaction
/// [`Transfer::build`] returns with plan `plan`, each input's witness in
/// [`signed_transfer_hex`] holds the signature of that very transaction's
/// BIP-143 sighash for the input, over the value of the coin it spends, and the
/// signed hex is that transaction with those witnesses filled in.
pub proof fn lemma_sign_signs_the_built_transaction(
    plan: TransferPlan,
    tx: Transaction,
    secret: Seq<u8>,
    script: Seq<u8>,
)
    requires
        tx_version(tx) == TX_VERSION,
        tx_lock_time(tx) == TX_LOCK_TIME,
        tx_inputs(tx) == planned_tx_inputs(plan, Seq::empty()),
        tx_outputs(tx) == planned_tx_outputs(plan),
    ensures
        forall|k: int|
            0 <= k < tx_inputs(tx).len() ==> #[trigger] input_witness(plan, secret, script, k)[0]
                == crate::secp::ecdsa_der(
                bip143_p2wpkh_sighash(
                    tx_version(tx),
                    tx_lock_time(tx),
                    tx_inputs(tx),
                    tx_outputs(tx),
                    k,
                    script,
                    plan.selection.inputs@[k].value,
                ),
                secret,
            ).push(1u8),
        signed_transfer_hex(plan, secret, script) == consensus_hex(
            tx_version(tx),
            tx_lock_time(tx),
            Seq::new(
                tx_inputs(tx).len(),
                |k: int|
                    {
                        let input = tx_inputs(tx)[k];
                        (input.0, input.1, input.2, input.3, input_witness(plan, secret, script, k))
                    },
            ),
            tx_outputs(tx),
        ),
{
    let signed = Seq::new(plan.inputs@.len(), |k: int| input_witness(plan, secret, script, k));
    assert(planned_tx_inputs(plan, signed) =~= Seq::new(
        tx_inputs(tx).len(),
        |k: int|
            {
                let input = tx_inputs(tx)[k];
                (input.0, input.1, input.2, input.3, input_witness(plan, secret, script, k))
            },
    ));
}

/// The transaction a plan describes, with the given witness for each input
/// (none when `witnesses` is empty).
fn assemble(plan: &TransferPlan, witnesses: &Vec<Vec<Vec<u8>>>) -> (tx: Transaction)
    requires
        witnesses@.len() == 0 || witnesses@.len() == plan.inputs@.len(),
    ensures
        tx_version(tx) == TX_VERSION,
        tx_lock_time(tx) == TX_LOCK_TIME,
        tx_inputs(tx) == planned_tx_inputs(*plan, witness_list(witnesses@)),
        tx_outputs(tx) == planned_tx_outputs(*plan),
{
    let empty: Vec<Vec<u8>> = Vec::new();
    let no_script: Vec<u8> = Vec::new();
    let mut tx = empty_transaction(TX_VERSION, TX_LOCK_TIME);
    let ghost inputs = planned_tx_inputs(*plan, witness_list(witnesses@));
    let ghost outputs = planned_tx_outputs(*plan);
    let mut k: usize = 0;
    while k < plan.inputs.len()
        invariant
            witnesses@.len() == 0 || witnesses@.len() == plan.inputs@.len(),
            k <= plan.inputs@.len(),
            inputs == planned_tx_inputs(*plan, witness_list(witnesses@)),
            tx_version(tx) == TX_VERSION,
            tx_lock_time(tx) == TX_LOCK_TIME,
            tx_inputs(tx) == inputs.take(k as int),
            tx_outputs(tx) == Seq::<TxOutputView>::empty(),
            empty@ == Seq::<Vec<u8>>::empty(),
            no_script@ == Seq::<u8>::empty(),
        decreases plan.inputs@.len() - k,
    {
        let coin = &plan.inputs[k];
        let witness = if witnesses.len() == 0 {
            &empty
        } else {
            &witnesses[k]
        };
        push_input(&mut tx, &coin.txid, coin.vout, &no_script, RBF_SEQUENCE, witness);
        proof {
            assert(witness_items(empty@) =~= Seq::<Seq<u8>>::empty());
            assert(inputs.take(k + 1) =~= inputs.take(k as int).push(inputs[k as int]));
        }
        k += 1;
    }
    let mut j: usize = 0;
    while j < plan.outputs.len()
        invariant
            j <= plan.outputs@.len(),
            outputs == planned_tx_outputs(*plan),
            tx_version(tx) == TX_VERSION,
            tx_lock_time(tx) == TX_LOCK_TIME,
            tx_inputs(tx) == planned_tx_inputs(*plan, witness_list(witnesses@)),
            tx_outputs(tx) == outputs.take(j as int),
        decreases plan.outputs@.len() - j,
    {
        push_output(&mut tx, plan.outputs[j].value, &plan.outputs[j].script_pubkey);
        proof {
            assert(outputs.take(j + 1) =~= outputs.take(j as int).push(outputs[j as int]));
        }
        j += 1;
    }
    proof {
        assert(inputs.take(plan.inputs@.len() as int) =~= inputs);
        assert(outputs.take(plan.outputs@.len() as int) =~= outputs);
    }
    tx
}

/// What [`Transfer::sign`] returns for a transfer, the coins offered and a
/// secret key, together with what signing learns of the key's P2WPKH address
/// (see [`crate::address::btc::p2wpkh_text_facts`]).
pub open spec fn transfer_sign_outcome(t: Transfer, utxos: Seq<Utxo>, secret: Seq<u8>, res: Result<String, Error>) -> bool {
    if !crate::secp::valid_secret_key(secret) {
        res matches Err(Error::Signing { reason }) && reason@ == "not a valid secp256k1 secret key"@
    } else {
        &&& crate::address::btc::p2wpkh_text_facts(
            crate::address::btc::p2wpkh_address_text(crate::secp::secp_compressed_public_key(secret)),
        )
        &&& if !key_matches_sender(secret, t.from@) {
            res matches Err(Error::Signing { reason }) && reason@
                == "secret key does not control the `from` address"@
        } else {
            match res {
                Ok(hex) => exists|p: TransferPlan|
                    #[trigger] transfer_plan_outcome(t, utxos, Ok(p)) && hex@ == signed_transfer_hex(
                        p,
                        secret,
                        crate::address::btc::btc_address_script(crate::text::trim(t.from@)),
                    ) && signatures_verify(
                        p,
                        secret,
                        crate::address::btc::btc_address_script(crate::text::trim(t.from@)),
                    ),
                Err(e) => transfer_plan_outcome(t, utxos, Err(e)),
            }
        }
    }
}

/// Two successful plans of one transfer sign to the same hex.
proof fn lemma_plans_sign_alike(t: Transfer, utxos: Seq<Utxo>, p1: TransferPlan, p2: TransferPlan, secret: Seq<u8>, script: Seq<u8>)
    requires
        transfer_plan_outcome(t, utxos, Ok(p1)),
        transfer_plan_outcome(t, utxos, Ok(p2)),
    ensures
        signed_transfer_hex(p1, secret, script) == signed_transfer_hex(p2, secret, script),
{
    let n = p1.inputs@.len();
    assert(planned_tx_inputs(p1, Seq::empty()) =~= planned_tx_inputs(p2, Seq::empty()));
    assert(planned_tx_outputs(p1) =~= planned_tx_outputs(p2));
    let w1 = Seq::new(n, |k: int| input_witness(p1, secret, script, k));
    let w2 = Seq::new(p2.inputs@.len(), |k: int| input_witness(p2, secret, script, k));
    assert(w1 =~= w2);
    assert(planned_tx_inputs(p1, w1) =~= planned_tx_inputs(p2, w2));
}

/// Two transfers that differ only in how an accepted sender is written, with
/// the same script, plan alike.
proof fn lemma_plan_outcome_follows_the_script(t1: Transfer, t2: Transfer, utxos: Seq<Utxo>, r: Result<TransferPlan, Error>)
    requires
        crate::address::btc::btc_sender_accepts(t1.from@),
        crate::address::btc::btc_sender_accepts(t2.from@),
        crate::address::btc::btc_address_script(crate::text::trim(t1.from@))
            == crate::address::btc::btc_address_script(crate::text::trim(t2.from@)),
        t1.to@ == t2.to@,
        t1.amount == t2.amount,
        t1.fee == t2.fee,
        transfer_plan_outcome(t1, utxos, r),
    ensures
        transfer_plan_outcome(t2, utxos, r),
{
    if crate::address::btc::btc_accepts(t1.to@) && t1.amount + t1.fee <= u64::MAX {
        let target = (t1.amount + t1.fee) as u64;
        if selection_succeeds(utxos, target) {
            let coins = selected_coins(utxos, target);
            if !(first_bad_txid(coins) < coins.len()) {
                if let Ok(p) = r {
                    let change = change_for(selection_total(utxos, target) - target);
                    assert(p.selection.inputs@ == coins);
                    assert(p.selection.change == change);
                    assert(change > 0 ==> p.outputs@[1].script_pubkey@
                        == crate::address::btc::btc_address_script(crate::text::trim(t2.from@)));
                }
            }
        }
    }
}

/// Signing does not depend on the case the sender is written in: for a key
/// whose P2WPKH address is `t.from`, a transfer that writes the sender in
/// ASCII uppercase (as BIP-173 allows) signs to the same hex, and fails only
/// where `t` fails, with an error that `t`'s plan also gives.
pub proof fn lemma_sign_ignores_the_senders_case(
    t: Transfer,
    shouted: Transfer,
    utxos: Seq<Utxo>,
    secret: Seq<u8>,
    r1: Result<String, Error>,
    r2: Result<String, Error>,
)
    requires
        crate::secp::valid_secret_key(secret),
        t.from@ == crate::address::btc::p2wpkh_address_text(crate::secp::secp_compressed_public_key(secret)),
        shouted.from@ == crate::text::ascii_upper(t.from@),
        shouted.to@ == t.to@,
        shouted.amount == t.amount,
        shouted.fee == t.fee,
        transfer_sign_outcome(t, utxos, secret, r1),
        transfer_sign_outcome(shouted, utxos, secret, r2),
    ensures
        r1 is Ok <==> r2 is Ok,
        r1 matches Ok(h1) ==> r2 matches Ok(h2) && h1@ == h2@,
        r2 matches Err(e) ==> transfer_plan_outcome(t, utxos, Err(e)),
{
    let a = t.from@;
    crate::address::btc::lemma_p2wpkh_text_is_a_sender(a);
    crate::text::lemma_lower_alnum_text(a);
    let script = crate::address::btc::btc_address_script(a);
    assert(crate::text::trim(shouted.from@) == crate::text::ascii_upper(a));
    assert(crate::address::btc::btc_address_script(crate::text::trim(shouted.from@)) == script);
    assert(key_matches_sender(secret, t.from@));
    assert(key_matches_sender(secret, shouted.from@));
    assert(crate::address::btc::btc_sender_accepts(t.from@));
    assert(crate::address::btc::btc_sender_accepts(shouted.from@));
    assert(crate::address::btc::btc_address_script(crate::text::trim(shouted.from@))
        == crate::address::btc::btc_address_script(crate::text::trim(t.from@)));
    assert forall|r: Result<TransferPlan, Error>| #[trigger] transfer_plan_outcome(shouted, utxos, r)
        implies transfer_plan_outcome(t, utxos, r) by {
        lemma_plan_outcome_follows_the_script(shouted, t, utxos, r);
    }
    assert forall|r: Result<TransferPlan, Error>| #[trigger] transfer_plan_outcome(t, utxos, r)
        implies transfer_plan_outcome(shouted, utxos, r) by {
        lemma_plan_outcome_follows_the_script(t, shouted, utxos, r);
    }
    if r1 is Ok && r2 is Ok {
        let p1 = choose|p: TransferPlan|
            #[trigger] transfer_plan_outcome(t, utxos, Ok(p)) && r1->Ok_0@ == signed_transfer_hex(p, secret, script);
        let p2 = choose|p: TransferPlan|
            #[trigger] transfer_plan_outcome(shouted, utxos, Ok(p)) && r2->Ok_0@ == signed_transfer_hex(
                p,
                secret,
                script,
            );
        lemma_plans_sign_alike(t, utxos, p1, p2, secret, script);
    }
}

impl Transfer {
    /// Validate the addresses, select coins and lay out the transaction.
    ///
    /// # Errors
    ///
    /// [`Error::Address`] for an invalid or non-P2WPKH sender or an invalid
    /// recipient, [`Error::InvalidField`] when amount plus fee overflows,
    /// [`select_coins`]'s errors for the coins, and [`Error::InvalidField`] for
    /// a selected coin whose txid is malformed.
    pub fn plan(&self, utxos: &[Utxo]) -> (res: Result<TransferPlan, Error>)
        ensures
            transfer_plan_outcome(*self, utxos@, res),
            res matches Ok(p) ==> {
                &&& p.selection.change == 0 <==> p.outputs@.len() == 1
                &&& self.fee <= values_sum(p.selection.inputs@) - self.amount - p.selection.change
                &&& values_sum(p.selection.inputs@) - self.amount - p.selection.change < self.fee
                    + DUST_THRESHOLD
            },
    {
        let from = match validate_sender(self.from.as_str()) {
            Ok(a) => a,
            Err(e) => {
                return Err(Error::Address(e));
            },
        };
        let to = match validate(self.to.as_str()) {
            Ok(a) => a,
            Err(e) => {
                return Err(Error::Address(e));
            },
        };
        let target = match self.amount.checked_add(self.fee) {
            Some(t) => t,
            None => {
                return Err(
                    Error::InvalidField { field: "amount", reason: "amount + fee overflows".to_string() },
                );
            },
        };
        let selection = select_coins(utxos, target)?;
        let ghost coins = selected_coins(utxos@, target);
        assert(selection.inputs@ == coins);
        let from_spk = script_pubkey(from.as_str())?;
        let to_spk = script_pubkey(to.as_str())?;
        let mut inputs: Vec<PlannedInput> = Vec::new();
        let mut k: usize = 0;
        while k < selection.inputs.len()
            invariant
                crate::address::btc::btc_sender_accepts(self.from@),
                crate::address::btc::btc_accepts(self.to@),
                self.amount + self.fee <= u64::MAX,
                target == self.amount + self.fee,
                selection_succeeds(utxos@, target),
                coins == selected_coins(utxos@, target),
                selection.inputs@ == coins,
                values_sum(selection.inputs@) >= target,
                selection.change >= DUST_THRESHOLD ==> values_sum(selection.inputs@) == target + selection.change,
                selection.change < DUST_THRESHOLD ==> selection.change == 0 && values_sum(selection.inputs@)
                    - target < DUST_THRESHOLD,
                k <= coins.len(),
                inputs@.len() == k,
                forall|i: int| 0 <= i < k ==> txid_parse(#[trigger] coins[i].txid@) is Ok,
                forall|i: int|
                    0 <= i < k ==> #[trigger] inputs@[i].txid@ == txid_parse(coins[i].txid@)->Ok_0
                        && inputs@[i].vout == coins[i].vout,
                first_bad_txid(coins) == first_bad_txid_from(coins, k as int),
            decreases coins.len() - k,
        {
            let coin = &selection.inputs[k];
            match parse_txid(coin.txid.as_str()) {
                Ok(txid) => {
                    inputs.push(PlannedInput { txid, vout: coin.vout });
                },
                Err(message) => {
                    let mut reason = coin.txid.clone();
                    reason.append(": ");
                    reason.append(message.as_str());
                    return Err(Error::InvalidField { field: "utxo.txid", reason });
                },
            }
            k += 1;
        }
        let mut outputs: Vec<PlannedOutput> = Vec::new();
        outputs.push(PlannedOutput { value: self.amount, script_pubkey: to_spk });
        if selection.change > 0 {
            outputs.push(PlannedOutput { value: selection.change, script_pubkey: from_spk });
        }
        Ok(TransferPlan { inputs, outputs, selection })
    }

    /// Select coins and build the unsigned transaction.
    ///
    /// # Errors
    ///
    /// As [`Transfer::plan`].
    pub fn build(&self, utxos: &[Utxo]) -> (res: Result<(Transaction, Selection), Error>)
        ensures
            match res {
                Ok((tx, selection)) => exists|p: TransferPlan| {
                    &&& #[trigger] transfer_plan_outcome(*self, utxos@, Ok(p))
                    &&& p.selection == selection
                    &&& tx_version(tx) == TX_VERSION
                    &&& tx_lock_time(tx) == TX_LOCK_TIME
                    &&& tx_inputs(tx) == planned_tx_inputs(p, Seq::empty())
                    &&& tx_outputs(tx) == planned_tx_outputs(p)
                },
                Err(e) => transfer_plan_outcome(*self, utxos@, Err(e)),
            },
    {
        let plan = self.plan(utxos)?;
        let no_witnesses: Vec<Vec<Vec<u8>>> = Vec::new();
        let tx = assemble(&plan, &no_witnesses);
        assert(witness_list(no_witnesses@) =~= Seq::<Seq<Seq<u8>>>::empty());
        Ok((tx, plan.selection))
    }

    /// Build and sign, returning the raw transaction hex for broadcast.
    ///
    /// Each input is signed over its BIP-143 sighash, which commits to the
    /// coin's value, and gets the witness `[DER signature || 0x01, public key]`.
    /// The key controls `from` when its P2WPKH address is `from`, trimmed, up
    /// to ASCII case (a bech32 address may be written all upper case).
    ///
    /// # Errors
    ///
    /// [`Error::Signing`] if the key is invalid or does not control `from`
    /// (checked before anything else), then [`Transfer::plan`]'s errors.
    pub fn sign(&self, utxos: &[Utxo], secret_key: &[u8]) -> (res: Result<String, Error>)
        ensures
            transfer_sign_outcome(*self, utxos@, secret_key@, res),
    {
        if !is_valid_secret_key(secret_key) {
            return Err(Error::Signing { reason: "not a valid secp256k1 secret key".to_string() });
        }
        let public = compressed_public_key(secret_key);
        let derived = p2wpkh_address(&public);
        if !str_eq_ignore_ascii_case(derived.as_str(), trim_str(self.from.as_str())) {
            return Err(
                Error::Signing { reason: "secret key does not control the `from` address".to_string() },
            );
        }
        let plan = self.plan(utxos)?;
        let no_witnesses: Vec<Vec<Vec<u8>>> = Vec::new();
        let unsigned = assemble(&plan, &no_witnesses);
        assert(witness_list(no_witnesses@) =~= Seq::<Seq<Seq<u8>>>::empty());
        let from_spk = address_script(trim_str(self.from.as_str()));
        let ghost script = from_spk@;
        let mut witnesses: Vec<Vec<Vec<u8>>> = Vec::new();
        let mut k: usize = 0;
        while k < plan.inputs.len()
            invariant
                witnesses@.len() == k,
                k <= plan.inputs@.len(),
                plan.selection.inputs@.len() == plan.inputs@.len(),
                crate::secp::valid_secret_key(secret_key@),
                public@ == crate::secp::secp_compressed_public_key(secret_key@),
                crate::address::btc::is_p2wpkh(script),
                from_spk@ == script,
                tx_version(unsigned) == TX_VERSION,
                tx_lock_time(unsigned) == TX_LOCK_TIME,
                tx_inputs(unsigned) == planned_tx_inputs(plan, Seq::empty()),
                tx_outputs(unsigned) == planned_tx_outputs(plan),
                forall|i: int|
                    0 <= i < k ==> witness_items(#[trigger] witnesses@[i]@) == input_witness(
                        plan,
                        secret_key@,
                        script,
                        i,
                    ),
                forall|i: int|
                    0 <= i < k ==> crate::secp::ecdsa_verifies(
                        crate::secp::secp_compressed_public_key(secret_key@),
                        input_sighash(plan, script, i),
                        #[trigger] crate::secp::ecdsa_der(input_sighash(plan, script, i), secret_key@),
                    ),
            decreases plan.inputs@.len() - k,
        {
            let value = plan.selection.inputs[k].value;
            let sighash = match p2wpkh_sighash(&unsigned, k, &from_spk, value) {
                Ok(h) => h,
                Err(message) => {
                    // Unreachable: the script is P2WPKH and `k` is an input.
                    let mut reason = "sighash failed: ".to_string();
                    reason.append(message.as_str());
                    return Err(Error::Signing { reason });
                },
            };
            let mut der = sign_der(&sighash, secret_key);
            der.push(0x01);
            let mut witness: Vec<Vec<u8>> = Vec::new();
            witness.push(der);
            witness.push(vstd::slice::slice_to_vec(&public));
            proof {
                assert(witness_items(witness@) =~= input_witness(plan, secret_key@, script, k as int));
            }
            witnesses.push(witness);
            k += 1;
        }
        proof {
            assert(witness_list(witnesses@) =~= Seq::new(
                plan.inputs@.len(),
                |i: int| input_witness(plan, secret_key@, script, i),
            ));
        }
        let signed = assemble(&plan, &witnesses);
        Ok(transaction_hex(&signed))
    }
}

} // verus!
