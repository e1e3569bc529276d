//! The oracle contract: its storage and its entry points.
//!
//! Each entry point takes what the ledger host supplies (the ledger time, the
//! calling address, the contract's own address) as arguments, and reads and
//! changes the storage held in [`PriceOracle`].

use vstd::prelude::*;
use crate::asset_symbol::{approved_symbol, is_approved_asset_symbol};
use crate::auth::{InstanceStorage, InstanceView, authorized, provider, _has_admin, _is_provider};
use crate::bytes::{lex_lt, copy_bytes};
use crate::error::Error;
use crate::keymap::KeyMap;
use crate::pricing::{abs, calculate_percentage_difference_bps, fits_i128, is_stale, is_valid, percentage_difference_bps, stale};
use crate::types::{
    Address, Symbol, PriceBounds, PriceData, PriceDataView, PriceEntry, PriceUpdatedEvent,
    bytes_list, copy_bytes_list, entry_of,
};

verus! {

/// The contract's storage: instance entries and the per-asset price and bounds tables.
pub struct PriceOracle {
    /// Admin list, provider whitelist, pause flag and base currency pairs.
    pub instance: InstanceStorage,
    /// The latest price data of each tracked asset.
    pub prices: KeyMap<PriceData>,
    /// Configured min/max bounds per asset.
    pub bounds: KeyMap<PriceBounds>,
}

/// The mathematical value of [`PriceOracle`].
pub struct OracleView {
    pub instance: InstanceView,
    pub prices: Map<Seq<u8>, PriceDataView>,
    pub bounds: Map<Seq<u8>, PriceBounds>,
}

impl View for PriceOracle {
    type V = OracleView;

    open spec fn view(&self) -> OracleView {
        OracleView { instance: self.instance@, prices: self.prices@, bounds: self.bounds@ }
    }
}

/// The stored price of `asset` if there is one and it has not expired at `now`.
pub open spec fn fresh_price(prices: Map<Seq<u8>, PriceDataView>, asset: Seq<u8>, now: u64) -> Option<
    PriceDataView,
> {
    if prices.contains_key(asset) && !stale(now, prices[asset].timestamp, prices[asset].ttl) {
        Some(prices[asset])
    } else {
        None
    }
}

/// The price an update is measured against: the stored price, or 0 when none is stored.
pub open spec fn previous_price(v: OracleView, asset: Seq<u8>) -> i128 {
    if v.prices.contains_key(asset) {
        v.prices[asset].price
    } else {
        0
    }
}

/// A change of at most this many price units is always within the delta limit.
pub const MAX_PRICE_DELTA: i128 = 50;

/// A change of at most this many basis points of the stored price (50.00%) is
/// within the delta limit, however many units it spans.
pub const MAX_PRICE_MOVE_BPS: i128 = 5000;

/// An update from `previous` to `price` moves the price by more than the delta
/// limit allows: by more than [`MAX_PRICE_DELTA`] units either way, and by more
/// than [`MAX_PRICE_MOVE_BPS`] basis points of `previous` (a move too large to be
/// measured in basis points within `i128` counts as more). A zero previous price
/// (first write) is exempt.
///
/// The limit is a spike detector: small absolute corrections always pass, and so
/// do moves of up to half the stored price, such as a 20% move from 1,000,000 to
/// 1,200,000.
pub open spec fn exceeds_delta_limit(previous: i128, price: i128) -> bool {
    &&& previous != 0
    &&& abs(price - previous) > MAX_PRICE_DELTA
    &&& !(percentage_difference_bps(previous as int, price as int) matches Some(d) && d <= MAX_PRICE_MOVE_BPS)
}

/// An update to `price` reaches the delta check: it passes the symbol, price and
/// provider checks and a nonzero price is stored.
pub open spec fn reaches_delta_check(v: OracleView, source: Seq<u8>, asset: Seq<u8>, price: i128) -> bool {
    &&& approved_symbol(asset)
    &&& price > 0
    &&& provider(v.instance, source)
    &&& previous_price(v, asset) != 0
}

/// The difference between the new and the stored price, which the delta check
/// computes in `i128`, does not overflow wherever it is computed.
pub open spec fn delta_representable(v: OracleView, source: Seq<u8>, asset: Seq<u8>, price: i128) -> bool {
    reaches_delta_check(v, source, asset, price) ==> fits_i128(price - previous_price(v, asset))
}

/// Which error, if any, a price update from `source` for `asset` at `price` meets,
/// in the order the checks are made.
pub open spec fn update_price_error(v: OracleView, source: Seq<u8>, asset: Seq<u8>, price: i128) -> Option<
    Error,
> {
    if !approved_symbol(asset) {
        Some(Error::InvalidAssetSymbol)
    } else if !(price > 0) {
        Some(Error::InvalidPrice)
    } else if !provider(v.instance, source) {
        Some(Error::NotAuthorized)
    } else if exceeds_delta_limit(previous_price(v, asset), price) {
        Some(Error::PriceDeltaExceeded)
    } else if v.bounds.contains_key(asset) && (price < v.bounds[asset].min_price || price
        > v.bounds[asset].max_price) {
        Some(Error::PriceOutOfBounds)
    } else {
        None
    }
}

/// The record an accepted update stores.
pub open spec fn updated_record(
    source: Seq<u8>,
    price: i128,
    decimals: u32,
    confidence_score: u32,
    ttl: u64,
    now: u64,
) -> PriceDataView {
    PriceDataView { price, timestamp: now, provider: source, decimals, confidence_score, ttl }
}

impl PriceOracle {
    /// The storage tables are well formed.
    pub open spec fn wf(&self) -> bool {
        &&& self.instance.wf()
        &&& self.prices.wf()
        &&& self.bounds.wf()
    }

    /// The storage of a freshly deployed contract.
    pub fn new() -> (r: Self)
        ensures
            r.wf(),
            r@.instance.admins is None,
            r@.instance.base_currency_pairs is None,
            r@.instance.providers == Map::<Seq<u8>, bool>::empty(),
            !r@.instance.paused,
            r@.prices == Map::<Seq<u8>, PriceDataView>::empty(),
            r@.bounds == Map::<Seq<u8>, PriceBounds>::empty(),
    {
        PriceOracle { instance: InstanceStorage::new(), prices: KeyMap::new(), bounds: KeyMap::new() }
    }

    /// Initialize the contract with admin and base currency pairs.
    /// Can only be called once: an admin list must not be stored yet.
    pub fn initialize(&mut self, admin: Address, base_currency_pairs: &Vec<Symbol>)
        requires
            old(self).wf(),
            old(self)@.instance.admins is None,
        ensures
            final(self).wf(),
            final(self)@ == (OracleView {
                instance: InstanceView {
                    admins: Some(seq![admin@]),
                    base_currency_pairs: Some(bytes_list(base_currency_pairs@)),
                    ..old(self)@.instance
                },
                ..old(self)@
            }),
    {
        let ghost a = admin@;
        let mut admins: Vec<Address> = Vec::new();
        admins.push(admin);
        assert(bytes_list(admins@) =~= seq![a]);
        self.instance.admins = Some(admins);
        self.instance.base_currency_pairs = Some(copy_bytes_list(base_currency_pairs));
    }

    /// Store `admin` as the sole admin. Can only be called once: an admin list must
    /// not be stored yet.
    pub fn init_admin(&mut self, admin: Address)
        requires
            old(self).wf(),
            old(self)@.instance.admins is None,
        ensures
            final(self).wf(),
            final(self)@ == (OracleView {
                instance: InstanceView { admins: Some(seq![admin@]), ..old(self)@.instance },
                ..old(self)@
            }),
    {
        let ghost a = admin@;
        let mut admins: Vec<Address> = Vec::new();
        admins.push(admin);
        assert(bytes_list(admins@) =~= seq![a]);
        self.instance.admins = Some(admins);
    }

    /// Whether an admin list is stored.
    pub fn has_admin(&self) -> (r: bool)
        ensures
            r == self@.instance.admins is Some,
    {
        _has_admin(&self.instance)
    }

    /// Return the first address of the admin list.
    pub fn get_admin(&self) -> (r: Address)
        requires
            self@.instance.admins matches Some(l) && l.len() > 0,
    ensures
            r@ == self@.instance.admins->0[0],
    {
        match &self.instance.admins {
            Some(l) => {
                assert(bytes_list(l@)[0] == l@[0]@);
                copy_bytes(&l[0])
            },
            None => vstd::pervasive::unreached(),
        }
    }

    /// Get the price data for a specific asset.
    /// Returns `Error::AssetNotFound` if the asset does not exist or the price is
    /// stale at `ledger_timestamp`.
    pub fn get_price(&self, asset: &Symbol, ledger_timestamp: u64) -> (r: Result<PriceData, Error>)
        requires
            self.wf(),
        ensures
            match r {
                Ok(d) => fresh_price(self@.prices, asset@, ledger_timestamp) == Some(d@),
                Err(e) => e == Error::AssetNotFound && fresh_price(
                    self@.prices,
                    asset@,
                    ledger_timestamp,
                ) is None,
            },
    {
        match self.prices.get(asset) {
            Some(price_data) => {
                if is_stale(ledger_timestamp, price_data.timestamp, price_data.ttl) {
                    return Err(Error::AssetNotFound);
                }
                Ok(price_data.duplicate())
            },
            None => Err(Error::AssetNotFound),
        }
    }

    /// Get the price data for a specific asset, or `None` if none is stored.
    /// Unlike `get_price`, this returns stale prices too.
    pub fn get_price_safe(&self, asset: &Symbol) -> (r: Option<PriceData>)
        requires
            self.wf(),
        ensures
            match r {
                Some(d) => self@.prices.contains_key(asset@) && d@ == self@.prices[asset@],
                None => !self@.prices.contains_key(asset@),
            },
    {
        match self.prices.get(asset) {
            Some(price_data) => Some(price_data.duplicate()),
            None => None,
        }
    }

    /// Get the most recent price value for a specific asset, or
    /// `Error::AssetNotFound` if it is missing or stale.
    pub fn get_last_price(&self, asset: &Symbol, ledger_timestamp: u64) -> (r: Result<i128, Error>)
        requires
            self.wf(),
        ensures
            match r {
                Ok(p) => fresh_price(self@.prices, asset@, ledger_timestamp) matches Some(d)
                    && d.price == p,
                Err(e) => e == Error::AssetNotFound && fresh_price(
                    self@.prices,
                    asset@,
                    ledger_timestamp,
                ) is None,
            },
    {
        let price_data = self.get_price(asset, ledger_timestamp)?;
        Ok(price_data.price)
    }

    /// Get prices for a batch of assets, in the same order as `assets`: each entry
    /// is `Some` when the asset is tracked and not stale, `None` otherwise.
    pub fn get_prices(&self, assets: &Vec<Symbol>, ledger_timestamp: u64) -> (r: Vec<Option<PriceEntry>>)
        requires
            self.wf(),
        ensures
            r.len() == assets.len(),
            forall|i: int|
                0 <= i < assets.len() ==> #[trigger] r[i] == match fresh_price(
                    self@.prices,
                    assets[i]@,
                    ledger_timestamp,
                ) {
                    Some(d) => Some(entry_of(d)),
                    None => None,
                },
    {
        let mut result: Vec<Option<PriceEntry>> = Vec::new();
        let mut i: usize = 0;
        while i < assets.len()
            invariant
                self.wf(),
                i <= assets.len(),
                result.len() == i,
                forall|j: int|
                    0 <= j < i ==> #[trigger] result[j] == match fresh_price(
                        self@.prices,
                        assets[j]@,
                        ledger_timestamp,
                    ) {
                        Some(d) => Some(entry_of(d)),
                        None => None,
                    },
            decreases assets.len() - i,
        {
            let entry = match self.prices.get(&assets[i]) {
                Some(pd) => {
                    if is_stale(ledger_timestamp, pd.timestamp, pd.ttl) {
                        None
                    } else {
                        Some(PriceEntry { price: pd.price, timestamp: pd.timestamp, decimals: pd.decimals })
                    }
                },
                None => None,
            };
            result.push(entry);
            i = i + 1;
        }
        result
    }

    /// All tracked asset symbols, in ascending byte order, each once.
    pub fn get_all_assets(&self) -> (r: Vec<Symbol>)
        requires
            self.wf(),
        ensures
            forall|i: int, j: int| 0 <= i < j < r.len() ==> lex_lt(#[trigger] r[i]@, #[trigger] r[j]@),
            forall|k: Seq<u8>|
                self@.prices.contains_key(k) <==> exists|i: int| 0 <= i < r.len() && #[trigger] r[i]@ == k,
    {
        self.prices.keys()
    }

    /// Set the price data for a specific asset, recording the ledger time and this
    /// contract's address as the provider, with confidence score 100.
    pub fn set_price(
        &mut self,
        asset: Symbol,
        val: i128,
        decimals: u32,
        ttl: u64,
        ledger_timestamp: u64,
        contract_address: Address,
    )
        requires
            old(self).wf(),
        ensures
            final(self).wf(),
            final(self)@ == (OracleView {
                prices: old(self)@.prices.insert(
                    asset@,
                    PriceDataView {
                        price: val,
                        timestamp: ledger_timestamp,
                        provider: contract_address@,
                        decimals,
                        confidence_score: 100,
                        ttl,
                    },
                ),
                ..old(self)@
            }),
    {
        let price_data = PriceData {
            price: val,
            timestamp: ledger_timestamp,
            provider: contract_address,
            decimals,
            confidence_score: 100,
            ttl,
        };
        self.prices.set(asset, price_data);
    }

    /// Remove an asset from the oracle, deleting its price entry.
    ///
    /// Only an admin may call this. Returns `Error::AssetNotFound` if the asset is
    /// not currently tracked, leaving storage unchanged.
    pub fn remove_asset(&mut self, admin: &Address, asset: &Symbol) -> (r: Result<(), Error>)
        requires
            old(self).wf(),
            authorized(old(self)@.instance, admin@),
        ensures
            final(self).wf(),
            match r {
                Ok(()) => old(self)@.prices.contains_key(asset@) && final(self)@ == (OracleView {
                    prices: old(self)@.prices.remove(asset@),
                    ..old(self)@
                }),
                Err(e) => e == Error::AssetNotFound && !old(self)@.prices.contains_key(asset@)
                    && final(self)@ == old(self)@,
            },
    {
        if !self.prices.contains_key(asset) {
            return Err(Error::AssetNotFound);
        }
        self.prices.remove(asset);
        Ok(())
    }

    /// Update the price for a specific asset (authorized backend relayer function).
    ///
    /// Checks, in order: the symbol is approved (NGN, KES, GHS), the price is
    /// positive, `source` is a whitelisted provider (otherwise `Error::NotAuthorized`,
    /// which makes a client call of the contract fail), the change from a stored
    /// nonzero price is within the delta limit (at most [`MAX_PRICE_DELTA`] units or
    /// at most [`MAX_PRICE_MOVE_BPS`] basis points, see [`exceeds_delta_limit`]), and the price
    /// lies within the asset's bounds if any are configured. On success the new
    /// record is stored and the event to announce is returned; on failure storage
    /// is unchanged.
    ///
    /// The contract must not be paused, and the difference between the new and the
    /// stored price must fit in `i128` where the delta check computes it (see
    /// [`PriceOracle::update_delta_overflows`]).
    pub fn update_price(
        &mut self,
        source: &Address,
        asset: Symbol,
        price: i128,
        decimals: u32,
        confidence_score: u32,
        ttl: u64,
        ledger_timestamp: u64,
    ) -> (r: Result<PriceUpdatedEvent, Error>)
        requires
            old(self).wf(),
            !old(self)@.instance.paused,
            delta_representable(old(self)@, source@, asset@, price),
        ensures
            final(self).wf(),
            match r {
                Ok(event) => update_price_error(old(self)@, source@, asset@, price) is None
                    && event.asset@ == asset@ && event.price == price && final(self)@ == (
                OracleView {
                    prices: old(self)@.prices.insert(
                        asset@,
                        updated_record(source@, price, decimals, confidence_score, ttl, ledger_timestamp),
                    ),
                    ..old(self)@
                }),
                Err(e) => update_price_error(old(self)@, source@, asset@, price) == Some(e)
                    && final(self)@ == old(self)@,
            },
    {
        if !is_approved_asset_symbol(&asset) {
            return Err(Error::InvalidAssetSymbol);
        }
        if !is_valid(price) {
            return Err(Error::InvalidPrice);
        }
        if !_is_provider(&self.instance, source) {
            return Err(Error::NotAuthorized);
        }
        let old_price: i128 = match self.prices.get(&asset) {
            Some(existing) => existing.price,
            None => 0,
        };
        // Delta limit circuit breaker: reject a move of more than 50 units that is
        // also more than 50% of the stored price, except on the first write (old
        // price 0).
        if old_price != 0 {
            let delta = price - old_price;
            if delta > MAX_PRICE_DELTA || delta < -MAX_PRICE_DELTA {
                match calculate_percentage_difference_bps(old_price, price) {
                    Some(move_bps) => {
                        if move_bps > MAX_PRICE_MOVE_BPS {
                            return Err(Error::PriceDeltaExceeded);
                        }
                    },
                    None => {
                        return Err(Error::PriceDeltaExceeded);
                    },
                }
            }
        }
        if let Some(bounds) = self.bounds.get(&asset) {
            if price < bounds.min_price || price > bounds.max_price {
                return Err(Error::PriceOutOfBounds);
            }
        }
        let price_data = PriceData {
            price,
            timestamp: ledger_timestamp,
            provider: copy_bytes(source),
            decimals,
            confidence_score,
            ttl,
        };
        let event = PriceUpdatedEvent { asset: copy_bytes(&asset), price };
        self.prices.set(asset, price_data);
        Ok(event)
    }

    /// Whether an update from `source` for `asset` at `price` would compute a
    /// difference from the stored price that overflows `i128`, so that
    /// [`PriceOracle::update_price`] may not be called with these arguments.
    pub fn update_delta_overflows(&self, source: &Address, asset: &Symbol, price: i128) -> (r: bool)
        requires
            self.wf(),
        ensures
            r == !delta_representable(self@, source@, asset@, price),
    {
        if !is_approved_asset_symbol(asset) || !is_valid(price) || !_is_provider(&self.instance, source) {
            return false;
        }
        match self.prices.get(asset) {
            Some(existing) => existing.price != 0 && price.checked_sub(existing.price).is_none(),
            None => false,
        }
    }

    /// Set the min/max price bounds for an asset.
    ///
    /// Only an admin may call this; both bounds must be positive and
    /// `min_price <= max_price`.
    pub fn set_price_bounds(&mut self, admin: &Address, asset: Symbol, min_price: i128, max_price: i128)
        requires
            old(self).wf(),
            authorized(old(self)@.instance, admin@),
            min_price > 0 && max_price > 0,
            min_price <= max_price,
        ensures
            final(self).wf(),
            final(self)@ == (OracleView {
                bounds: old(self)@.bounds.insert(asset@, PriceBounds { min_price, max_price }),
                ..old(self)@
            }),
    {
        self.bounds.set(asset, PriceBounds { min_price, max_price });
    }

    /// Get the current min/max price bounds for an asset, if configured.
    pub fn get_price_bounds(&self, asset: &Symbol) -> (r: Option<PriceBounds>)
        requires
            self.wf(),
        ensures
            match r {
                Some(b) => self@.bounds.contains_key(asset@) && b == self@.bounds[asset@],
                None => !self@.bounds.contains_key(asset@),
            },
    {
        match self.bounds.get(asset) {
            Some(b) => Some(*b),
            None => None,
        }
    }
}

} // verus!
