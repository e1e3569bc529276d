//! The values the oracle stores and hands out.

use vstd::prelude::*;
use crate::bytes::copy_bytes;

verus! {

/// An account or contract address, carried as the bytes of its strkey form.
pub type Address = Vec<u8>;

/// An asset symbol, carried as the bytes of its characters.
pub type Symbol = Vec<u8>;

/// Canonical storage format for a price entry.
#[derive(Debug, PartialEq, Eq)]
pub struct PriceData {
    /// The price value stored as a scaled integer.
    pub price: i128,
    /// Ledger timestamp when this price was written.
    pub timestamp: u64,
    /// Address that provided the price update.
    pub provider: Address,
    /// Number of decimals for the price value.
    pub decimals: u32,
    /// Confidence score (0-100, higher is more confident).
    pub confidence_score: u32,
    /// Time-to-live in seconds for this price (per-asset expiration).
    pub ttl: u64,
}

/// The mathematical value of a [`PriceData`].
pub struct PriceDataView {
    pub price: i128,
    pub timestamp: u64,
    pub provider: Seq<u8>,
    pub decimals: u32,
    pub confidence_score: u32,
    pub ttl: u64,
}

impl View for PriceData {
    type V = PriceDataView;

    open spec fn view(&self) -> PriceDataView {
        PriceDataView {
            price: self.price,
            timestamp: self.timestamp,
            provider: self.provider@,
            decimals: self.decimals,
            confidence_score: self.confidence_score,
            ttl: self.ttl,
        }
    }
}

impl PriceData {
    /// A copy of this entry.
    pub fn duplicate(&self) -> (r: PriceData)
        ensures
            r@ == self@,
    {
        PriceData {
            price: self.price,
            timestamp: self.timestamp,
            provider: copy_bytes(&self.provider),
            decimals: self.decimals,
            confidence_score: self.confidence_score,
            ttl: self.ttl,
        }
    }
}

/// A simplified price entry for external consumers.
#[derive(Clone, Copy, Debug, PartialEq, Eq)]
pub struct PriceEntry {
    pub price: i128,
    pub timestamp: u64,
    pub decimals: u32,
}

/// The consumer-facing summary of a stored price.
pub open spec fn entry_of(d: PriceDataView) -> PriceEntry {
    PriceEntry { price: d.price, timestamp: d.timestamp, decimals: d.decimals }
}

/// Inclusive bounds that accepted price updates for an asset must lie within.
#[derive(Clone, Copy, Debug, PartialEq, Eq)]
pub struct PriceBounds {
    /// The minimum acceptable price (inclusive).
    pub min_price: i128,
    /// The maximum acceptable price (inclusive).
    pub max_price: i128,
}

impl View for PriceBounds {
    type V = PriceBounds;

    open spec fn view(&self) -> PriceBounds {
        *self
    }
}

/// The event announced after an accepted price update.
#[derive(Debug, PartialEq, Eq)]
pub struct PriceUpdatedEvent {
    pub asset: Symbol,
    pub price: i128,
}

/// The views of a list of byte strings.
pub open spec fn bytes_list(v: Seq<Vec<u8>>) -> Seq<Seq<u8>> {
    v.map_values(|b: Vec<u8>| b@)
}

/// A deep copy of a list of byte strings.
pub fn copy_bytes_list(v: &Vec<Vec<u8>>) -> (r: Vec<Vec<u8>>)
    ensures
        bytes_list(r@) == bytes_list(v@),
{
    let mut r: Vec<Vec<u8>> = Vec::new();
    let mut i: usize = 0;
    while i < v.len()
        invariant
            i <= v.len(),
            r.len() == i,
            forall|j: int| 0 <= j < i ==> #[trigger] r@[j]@ == v@[j]@,
        decreases v.len() - i,
    {
        r.push(copy_bytes(&v[i]));
        i = i + 1;
    }
    assert(bytes_list(r@) =~= bytes_list(v@));
    r
}

} // verus!
