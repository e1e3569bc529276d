//! Properties that relate the oracle's operations to one another.

use vstd::prelude::*;
use crate::asset_symbol::approved_symbol;
use crate::auth::{InstanceView, authorized, provider};
use crate::error::Error;
use crate::oracle::{OracleView, exceeds_delta_limit, fresh_price, previous_price, update_price_error, updated_record};
use crate::pricing::{abs, div_toward_zero, expiry, percentage_change_bps, percentage_difference_bps, stale};
use crate::types::{PriceBounds, PriceDataView, PriceEntry, entry_of};

verus! {

/// The percentage difference is the absolute value of the percentage change, and so
/// never negative; both are undefined for a zero baseline.
pub proof fn lemma_difference_is_absolute_change(old_price: int, new_price: int)
    ensures
        percentage_difference_bps(old_price, new_price) is Some <==> percentage_change_bps(
            old_price,
            new_price,
        ) is Some,
        percentage_difference_bps(old_price, new_price) matches Some(d) ==> d >= 0 && d == abs(
            percentage_change_bps(old_price, new_price)->0,
        ),
        old_price == 0 ==> percentage_change_bps(old_price, new_price) is None,
{
}

/// Once a price is stale it stays stale as the ledger time advances.
pub proof fn lemma_staleness_persists(t1: u64, t2: u64, stored_timestamp: u64, ttl: u64)
    requires
        t1 <= t2,
        stale(t1, stored_timestamp, ttl),
    ensures
        stale(t2, stored_timestamp, ttl),
{
}

/// A price written at `now` with time-to-live `ttl` is read back unchanged at any
/// ledger time from `now` until its expiry, and is reported missing from then on;
/// in particular a price written with `ttl == 0` is never read back.
pub proof fn lemma_read_after_write(
    prices: Map<Seq<u8>, PriceDataView>,
    asset: Seq<u8>,
    record: PriceDataView,
    t: u64,
)
    requires
        record.timestamp <= t,
    ensures
        fresh_price(prices.insert(asset, record), asset, t) == if t < expiry(record.timestamp, record.ttl) {
            Some(record)
        } else {
            None
        },
        record.ttl == 0 ==> fresh_price(prices.insert(asset, record), asset, t) is None,
{
}

/// Writing or deleting one asset's price leaves every other asset's reading unchanged.
pub proof fn lemma_other_assets_unaffected(
    prices: Map<Seq<u8>, PriceDataView>,
    asset: Seq<u8>,
    other: Seq<u8>,
    record: PriceDataView,
    t: u64,
)
    requires
        asset != other,
    ensures
        fresh_price(prices.insert(asset, record), other, t) == fresh_price(prices, other, t),
        fresh_price(prices.remove(asset), other, t) == fresh_price(prices, other, t),
{
}

/// Whatever the strict read returns is also what the lenient read returns: a fresh
/// price is a stored price, and a missing asset is missing for both.
pub proof fn lemma_fresh_price_is_stored(prices: Map<Seq<u8>, PriceDataView>, asset: Seq<u8>, t: u64)
    ensures
        fresh_price(prices, asset, t) matches Some(d) ==> prices.contains_key(asset) && prices[asset] == d,
        !prices.contains_key(asset) ==> fresh_price(prices, asset, t) is None,
{
}

/// After an asset is removed, reading it reports it missing.
pub proof fn lemma_removed_asset_not_found(prices: Map<Seq<u8>, PriceDataView>, asset: Seq<u8>, t: u64)
    ensures
        fresh_price(prices.remove(asset), asset, t) is None,
        !prices.remove(asset).contains_key(asset),
{
}

/// An accepted update came from a whitelisted provider, for an approved symbol,
/// with a positive price that differs from a stored nonzero price by at most 50
/// units or by at most 50% (5000 basis points) of it and lies within the asset's configured bounds.
pub proof fn lemma_accepted_update_within_limits(
    v: OracleView,
    source: Seq<u8>,
    asset: Seq<u8>,
    price: i128,
)
    requires
        update_price_error(v, source, asset, price) is None,
    ensures
        approved_symbol(asset),
        price > 0,
        provider(v.instance, source),
        previous_price(v, asset) != 0 ==> (-50 <= price - previous_price(v, asset) <= 50 || (
        percentage_difference_bps(previous_price(v, asset) as int, price as int) matches Some(d) && 0
            <= d <= 5000)),
        v.bounds.contains_key(asset) ==> v.bounds[asset].min_price <= price <= v.bounds[asset].max_price,
{
}

/// After bounds are set for an asset, an update that passes the earlier checks is
/// rejected with `PriceOutOfBounds` exactly when its price lies outside them.
pub proof fn lemma_bounds_enforced(
    v: OracleView,
    source: Seq<u8>,
    asset: Seq<u8>,
    price: i128,
    min_price: i128,
    max_price: i128,
)
    requires
        approved_symbol(asset),
        price > 0,
        provider(v.instance, source),
        !exceeds_delta_limit(previous_price(v, asset), price),
    ensures
        ({
            let w = OracleView {
                bounds: v.bounds.insert(asset, PriceBounds { min_price, max_price }),
                ..v
            };
            update_price_error(w, source, asset, price) == if price < min_price || price > max_price {
                Some(Error::PriceOutOfBounds)
            } else {
                None::<Error>
            }
        }),
{
}

/// An accepted update is read back with the new price, the ledger time of the
/// update, the updating provider and the given decimals, confidence score and
/// time-to-live, at every ledger time before the update's time plus its
/// time-to-live.
pub proof fn lemma_update_then_read(
    v: OracleView,
    source: Seq<u8>,
    asset: Seq<u8>,
    price: i128,
    decimals: u32,
    confidence_score: u32,
    ttl: u64,
    now: u64,
    t: u64,
)
    requires
        now <= t,
        t < now + ttl,
        t < u64::MAX,
    ensures
        ({
            let rec = updated_record(source, price, decimals, confidence_score, ttl, now);
            fresh_price(v.prices.insert(asset, rec), asset, t) matches Some(d) && d.price == price
                && d.timestamp == now && d.provider == source && d.decimals == decimals
                && d.confidence_score == confidence_score && d.ttl == ttl
        }),
{
}

/// Adding an admin authorizes it, keeps every earlier admin authorized, and adds
/// nothing when it is already on the list.
pub proof fn lemma_add_admin(admins: Seq<Seq<u8>>, new_admin: Seq<u8>, other: Seq<u8>)
    ensures
        ({
            let l = if admins.contains(new_admin) { admins } else { admins.push(new_admin) };
            &&& l.contains(new_admin)
            &&& admins.contains(other) ==> l.contains(other)
            &&& admins.contains(new_admin) ==> l == admins
        }),
{
    if !admins.contains(new_admin) {
        let l = admins.push(new_admin);
        assert(l[admins.len() as int] == new_admin);
        if admins.contains(other) {
            let i = choose|i: int| 0 <= i < admins.len() && admins[i] == other;
            assert(l[i] == other);
        }
    }
}

/// Removing an admin revokes it and leaves every other admin as it was.
pub proof fn lemma_remove_admin(admins: Seq<Seq<u8>>, removed: Seq<u8>, other: Seq<u8>)
    ensures
        ({
            let l = admins.filter(|a: Seq<u8>| a != removed);
            &&& !l.contains(removed)
            &&& other != removed ==> (l.contains(other) <==> admins.contains(other))
        }),
{
    let pred = |a: Seq<u8>| a != removed;
    let l = admins.filter(pred);
    if l.contains(removed) {
        let i = choose|i: int| 0 <= i < l.len() && l[i] == removed;
        admins.lemma_filter_pred(pred, i);
    }
    if other != removed {
        if admins.contains(other) {
            let i = choose|i: int| 0 <= i < admins.len() && admins[i] == other;
            admins.lemma_filter_contains(pred, i);
        }
        if l.contains(other) {
            admins.lemma_filter_contains_rev(pred, other);
        }
    }
}

/// Whitelisting or removing one provider does not change any other address's
/// standing; a whitelisted provider is recognized and a removed one is not.
pub proof fn lemma_providers_independent(s: InstanceView, p: Seq<u8>, other: Seq<u8>)
    ensures
        provider(InstanceView { providers: s.providers.insert(p, true), ..s }, p),
        !provider(InstanceView { providers: s.providers.remove(p), ..s }, p),
        other != p ==> (provider(InstanceView { providers: s.providers.insert(p, true), ..s }, other)
            == provider(s, other)),
        other != p ==> (provider(InstanceView { providers: s.providers.remove(p), ..s }, other)
            == provider(s, other)),
{
}

/// Storing an admin list changes neither the provider whitelist nor who is a
/// provider: an admin is not thereby a provider.
pub proof fn lemma_admin_not_provider(s: InstanceView, admins: Seq<Seq<u8>>, a: Seq<u8>)
    ensures
        provider(InstanceView { admins: Some(admins), ..s }, a) == provider(s, a),
        admins.contains(a) ==> authorized(InstanceView { admins: Some(admins), ..s }, a),
{
}

} // verus!

verus! {

/// For a nonnegative `a` and a positive `b`, `q = a / b` is the unique integer with
/// `q * b <= a < (q + 1) * b`.
proof fn lemma_floor_bounds(a: int, b: int)
    requires
        a >= 0,
        b > 0,
    ensures
        a / b >= 0,
        (a / b) * b <= a < (a / b + 1) * b,
{
    vstd::arithmetic::div_mod::lemma_fundamental_div_mod(a, b);
    vstd::arithmetic::div_mod::lemma_mod_pos_bound(a, b);
    let q = a / b;
    let r = a % b;
    assert(q * b == b * q) by (nonlinear_arith);
    assert((q + 1) * b == q * b + b) by (nonlinear_arith);
    assert(q >= 0) by (nonlinear_arith)
        requires
            a == b * q + r,
            0 <= r < b,
            a >= 0,
            b > 0,
    ;
}

/// The magnitude of a quotient rounded toward zero is the floor quotient of the
/// magnitudes.
proof fn lemma_abs_div_toward_zero(a: int, b: int)
    requires
        b != 0,
    ensures
        abs(div_toward_zero(a, b)) == abs(a) / abs(b),
{
    if a == 0 {
        assert(0int / abs(b) == 0);
    } else if a > 0 && b > 0 {
        lemma_floor_bounds(a, b);
    } else if a < 0 && b < 0 {
        lemma_floor_bounds(-a, -b);
    } else if a < 0 {
        lemma_floor_bounds(-a, b);
    } else {
        lemma_floor_bounds(a, -b);
    }
}

/// The percentage change is the relative move `(new - old) * 10_000 / old` rounded
/// toward zero: its magnitude `m` satisfies `m * |old| <= |scaled| < (m + 1) * |old|`
/// for the scaled difference `scaled = (new - old) * 10_000`, a nonzero result has
/// the sign of `scaled / old`, and the difference is that magnitude. It is defined
/// exactly when the baseline is nonzero and both the difference and the scaled
/// difference fit in `i128`.
pub proof fn lemma_percentage_change_is_rounded_ratio(old_price: i128, new_price: i128)
    ensures
        ({
            let scaled: int = (new_price - old_price) * 10000;
            &&& (percentage_change_bps(old_price as int, new_price as int) is Some <==> (old_price != 0
                && i128::MIN <= new_price - old_price <= i128::MAX && i128::MIN <= scaled
                <= i128::MAX))
            &&& (percentage_change_bps(old_price as int, new_price as int) matches Some(c) ==> {
                let m: int = if c < 0 { -c } else { c };
                let o: int = if old_price < 0 { -old_price } else { old_price as int };
                let s: int = if scaled < 0 { -scaled } else { scaled };
                &&& m * o <= s < (m + 1) * o
                &&& c > 0 ==> ((scaled > 0) == (old_price > 0))
                &&& c < 0 ==> ((scaled > 0) != (old_price > 0))
                &&& percentage_difference_bps(old_price as int, new_price as int) == Some(m)
            })
        }),
{
    let scaled: int = (new_price - old_price) * 10000;
    if let Some(c) = percentage_change_bps(old_price as int, new_price as int) {
        lemma_abs_div_toward_zero(scaled, old_price as int);
        lemma_floor_bounds(abs(scaled), abs(old_price as int));
        if scaled > 0 && old_price > 0 {
            lemma_floor_bounds(scaled, old_price as int);
        } else if scaled < 0 && old_price < 0 {
            lemma_floor_bounds(-scaled, -old_price);
        } else if scaled < 0 {
            lemma_floor_bounds(-scaled, old_price as int);
        } else if scaled > 0 {
            lemma_floor_bounds(scaled, -old_price);
        }
    }
}

/// A price is stale exactly from `stored_timestamp + ttl` on (the full time-to-live,
/// with the sum capped at `u64::MAX`), and fresh at every earlier ledger time.
pub proof fn lemma_stale_exactly_after_ttl(t: u64, stored_timestamp: u64, ttl: u64)
    ensures
        stored_timestamp + ttl <= u64::MAX ==> (stale(t, stored_timestamp, ttl) <==> t
            >= stored_timestamp + ttl),
        stored_timestamp + ttl > u64::MAX ==> (stale(t, stored_timestamp, ttl) <==> t == u64::MAX),
        stored_timestamp <= t && t < stored_timestamp + ttl && t < u64::MAX ==> !stale(
            t,
            stored_timestamp,
            ttl,
        ),
{
}

/// A stored price is read back exactly while the ledger time is before the stored
/// timestamp plus its full time-to-live (capped at `u64::MAX`); what is read back is
/// the stored record, so a batch read reports its price, timestamp and decimals.
pub proof fn lemma_fresh_read_exact(prices: Map<Seq<u8>, PriceDataView>, asset: Seq<u8>, t: u64)
    ensures
        fresh_price(prices, asset, t) is Some <==> (prices.contains_key(asset) && t < prices[asset].timestamp
            + prices[asset].ttl && t < u64::MAX),
        fresh_price(prices, asset, t) matches Some(d) ==> d == prices[asset],
        fresh_price(prices, asset, t) matches Some(d) ==> entry_of(d) == (PriceEntry {
            price: prices[asset].price,
            timestamp: prices[asset].timestamp,
            decimals: prices[asset].decimals,
        }),
{
}

/// What a price update is answered, in terms of its inputs alone: the symbol must be
/// NGN, KES or GHS; the price positive; the source a whitelisted provider (whoever
/// wrote the stored price); a move from a stored nonzero price at most 50 units, or
/// at most 50% (its basis points `|move| * 10_000 / |stored|`, rounded down, at most
/// 5000, with `move * 10_000` in `i128`); and the price within the asset's bounds
/// when they are set. The first check that fails names the error; when none fails
/// the update is accepted.
pub proof fn lemma_update_price_outcome(v: OracleView, source: Seq<u8>, asset: Seq<u8>, price: i128)
    ensures
        ({
            let known = asset == seq![78u8, 71u8, 78u8] || asset == seq![75u8, 69u8, 83u8] || asset
                == seq![71u8, 72u8, 83u8];
            let whitelisted = v.instance.providers.contains_key(source)
                && v.instance.providers[source];
            let prev: int = if v.prices.contains_key(asset) {
                v.prices[asset].price as int
            } else {
                0
            };
            let d: int = price - prev;
            let ad: int = if d < 0 { -d } else { d };
            let ap: int = if prev < 0 { -prev } else { prev };
            let within_delta = prev == 0 || ad <= 50 || (i128::MIN <= d * 10000 <= i128::MAX && ad
                * 10000 < 5001 * ap);
            let within_bounds = v.bounds.contains_key(asset) ==> v.bounds[asset].min_price <= price
                <= v.bounds[asset].max_price;
            let e = update_price_error(v, source, asset, price);
            &&& !known ==> e == Some(Error::InvalidAssetSymbol)
            &&& known && price <= 0 ==> e == Some(Error::InvalidPrice)
            &&& known && price > 0 && !whitelisted ==> e == Some(Error::NotAuthorized)
            &&& known && price > 0 && whitelisted && !within_delta ==> e == Some(
                Error::PriceDeltaExceeded,
            )
            &&& known && price > 0 && whitelisted && within_delta && !within_bounds ==> e == Some(
                Error::PriceOutOfBounds,
            )
            &&& (e is None <==> known && price > 0 && whitelisted && within_delta && within_bounds)
        }),
{
    let prev: int = previous_price(v, asset) as int;
    let d: int = price - prev;
    let ad: int = if d < 0 { -d } else { d };
    let ap: int = if prev < 0 { -prev } else { prev };
    if prev != 0 {
        lemma_percentage_change_is_rounded_ratio(previous_price(v, asset), price);
        if i128::MIN <= d * 10000 <= i128::MAX {
            assert(ad * 10000 == abs(d * 10000)) by (nonlinear_arith)
                requires
                    ad == abs(d),
            ;
            let m = abs(percentage_change_bps(prev, price as int)->0);
            lemma_floor_bounds(ad * 10000, ap);
            assert(m * ap <= ad * 10000 < (m + 1) * ap);
            assert(m <= 5000 <==> ad * 10000 < 5001 * ap) by (nonlinear_arith)
                requires
                    m * ap <= ad * 10000 < (m + 1) * ap,
                    ap > 0,
                    m >= 0,
            ;
        } else {
            assert(!(i128::MIN <= d <= i128::MAX) || !(i128::MIN <= d * 10000 <= i128::MAX));
        }
    }
}

/// Any whitelisted provider may update any approved asset: whether an update is
/// accepted, and which error it meets, does not depend on which provider (or which
/// contract) wrote the stored price, nor on the stored record's other fields than
/// its price.
pub proof fn lemma_update_ignores_previous_writer(
    v: OracleView,
    source: Seq<u8>,
    asset: Seq<u8>,
    price: i128,
    other: PriceDataView,
)
    requires
        v.prices.contains_key(asset),
        other.price == v.prices[asset].price,
    ensures
        update_price_error(OracleView { prices: v.prices.insert(asset, other), ..v }, source, asset, price)
            == update_price_error(v, source, asset, price),
{
}

/// Only NGN, KES and GHS are approved symbols, each of them is, and an update for any
/// other symbol is refused with `InvalidAssetSymbol` before anything else is checked.
pub proof fn lemma_only_listed_symbols_approved(v: OracleView, source: Seq<u8>, asset: Seq<u8>, price: i128)
    ensures
        approved_symbol(asset) <==> (asset == seq![78u8, 71u8, 78u8] || asset == seq![75u8, 69u8, 83u8]
            || asset == seq![71u8, 72u8, 83u8]),
        !(asset == seq![78u8, 71u8, 78u8] || asset == seq![75u8, 69u8, 83u8] || asset == seq![
            71u8,
            72u8,
            83u8,
        ]) ==> update_price_error(v, source, asset, price) == Some(Error::InvalidAssetSymbol),
{
}

} // verus!
