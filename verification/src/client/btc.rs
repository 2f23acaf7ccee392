//! Bitcoin balances from an Esplora address response.
use vstd::prelude::*;

verus! {

/// Esplora's funded and spent totals, in satoshis, for confirmed or mempool
/// activity.
#[derive(Debug, Clone, Copy, PartialEq, Eq)]
pub struct Stats {
    /// Total value of outputs paid to the address.
    pub funded_txo_sum: u64,
    /// Total value of those outputs that were spent.
    pub spent_txo_sum: u64,
}

/// `funded - spent`, clamped at zero.
pub open spec fn stats_net(s: Stats) -> int {
    if s.spent_txo_sum <= s.funded_txo_sum {
        s.funded_txo_sum - s.spent_txo_sum
    } else {
        0
    }
}

impl Stats {
    /// Funded minus spent, saturating: a spent total above the funded one is
    /// a malformed or hostile response, and clamping to zero is far better
    /// than underflowing to a balance near `u64::MAX`.
    pub fn net(&self) -> (net: u64)
        ensures
            net == stats_net(*self),
            net <= self.funded_txo_sum,
    {
        self.funded_txo_sum.saturating_sub(self.spent_txo_sum)
    }
}

/// An Esplora `address/{address}` response: confirmed and mempool totals.
#[derive(Debug, Clone, Copy, PartialEq, Eq)]
pub struct AddressInfo {
    /// Confirmed activity.
    pub chain_stats: Stats,
    /// Unconfirmed activity.
    pub mempool_stats: Stats,
}

impl AddressInfo {
    /// Native balance in satoshis, including unconfirmed mempool activity,
    /// which is what a block explorer shows as spendable.
    pub fn balance(&self) -> (sats: u128)
        ensures
            sats == stats_net(self.chain_stats) + stats_net(self.mempool_stats),
    {
        self.chain_stats.net() as u128 + self.mempool_stats.net() as u128
    }
}

} // verus!
