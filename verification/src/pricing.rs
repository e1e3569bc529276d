//! Price arithmetic: percentage moves in basis points, validity and staleness.

use vstd::prelude::*;

verus! {

/// Whether an integer fits in an `i128`.
pub open spec fn fits_i128(x: int) -> bool {
    i128::MIN <= x <= i128::MAX
}

/// The quotient of `a` by `b` rounded toward zero (Rust's integer division).
pub open spec fn div_toward_zero(a: int, b: int) -> int {
    if a == 0 {
        0
    } else if a > 0 && b > 0 {
        a / b
    } else if a < 0 && b < 0 {
        (-a) / (-b)
    } else if a < 0 {
        -((-a) / b)
    } else {
        -(a / (-b))
    }
}

/// The signed change from `old_price` to `new_price` in basis points, or `None`
/// when the baseline is zero or an intermediate value leaves the `i128` range.
pub open spec fn percentage_change_bps(old_price: int, new_price: int) -> Option<int> {
    if old_price == 0 {
        None
    } else if !fits_i128(new_price - old_price) || !fits_i128((new_price - old_price) * 10000) {
        None
    } else {
        Some(div_toward_zero((new_price - old_price) * 10000, old_price))
    }
}

/// Absolute value.
pub open spec fn abs(x: int) -> int {
    if x < 0 { -x } else { x }
}

/// The unsigned size of the move from `old_price` to `new_price` in basis points.
pub open spec fn percentage_difference_bps(old_price: int, new_price: int) -> Option<int> {
    match percentage_change_bps(old_price, new_price) {
        Some(change) => Some(abs(change)),
        None => None,
    }
}

/// The instant at which a price written at `stored_timestamp` with `ttl` expires,
/// saturating at `u64::MAX`.
pub open spec fn expiry(stored_timestamp: u64, ttl: u64) -> int {
    if stored_timestamp + ttl > u64::MAX { u64::MAX as int } else { stored_timestamp + ttl }
}

/// A price is stale once the ledger time reaches its expiry.
pub open spec fn stale(current_time: u64, stored_timestamp: u64, ttl: u64) -> bool {
    current_time >= expiry(stored_timestamp, ttl)
}

/// `x * 10000` is never `i128::MIN`, since `i128::MIN` is not a multiple of 10000.
proof fn lemma_scaled_not_min(d: int)
    ensures
        d * 10000 != i128::MIN,
{
}

/// Division toward zero by a nonzero divisor never grows the magnitude.
proof fn lemma_div_toward_zero_bounded(a: int, b: int)
    requires
        b != 0,
    ensures
        abs(div_toward_zero(a, b)) <= abs(a),
{
    if a > 0 && b > 0 {
        assert(a / b <= a) by (nonlinear_arith)
            requires a > 0, b > 0;
        assert(a / b >= 0) by (nonlinear_arith)
            requires a > 0, b > 0;
    } else if a < 0 && b < 0 {
        assert((-a) / (-b) <= -a) by (nonlinear_arith)
            requires -a > 0, -b > 0;
        assert((-a) / (-b) >= 0) by (nonlinear_arith)
            requires -a > 0, -b > 0;
    } else if a < 0 {
        assert((-a) / b <= -a) by (nonlinear_arith)
            requires -a > 0, b > 0;
        assert((-a) / b >= 0) by (nonlinear_arith)
            requires -a > 0, b > 0;
    } else if a > 0 {
        assert(a / (-b) <= a) by (nonlinear_arith)
            requires a > 0, -b > 0;
        assert(a / (-b) >= 0) by (nonlinear_arith)
            requires a > 0, -b > 0;
    }
}

/// Returns the signed percentage change in basis points.
///
/// Example: 1_000_000 -> 1_200_000 returns 2_000 (20.00%).
/// Example: 1_000_000 -> 800_000 returns -2_000 (-20.00%).
/// Returns `None` when `old_price` is zero because the percentage change is undefined,
/// and when the difference or its scaling by 10_000 overflows `i128`.
pub fn calculate_percentage_change_bps(old_price: i128, new_price: i128) -> (r: Option<i128>)
    ensures
        r == (match percentage_change_bps(old_price as int, new_price as int) {
            Some(c) => Some(c as i128),
            None => None::<i128>,
        }),
        r matches Some(c) ==> c != i128::MIN,
{
    if old_price == 0 {
        return None;
    }
    let delta = match new_price.checked_sub(old_price) {
        Some(d) => d,
        None => return None,
    };
    let scaled = match delta.checked_mul(10_000) {
        Some(s) => s,
        None => return None,
    };
    proof {
        lemma_scaled_not_min(delta as int);
        lemma_div_toward_zero_bounded(scaled as int, old_price as int);
    }
    scaled.checked_div(old_price)
}

/// Returns the absolute percentage difference in basis points.
///
/// This is convenient for flash-crash or spike detection because the caller can
/// compare the result directly against a threshold without worrying about direction.
pub fn calculate_percentage_difference_bps(old_price: i128, new_price: i128) -> (r: Option<i128>)
    ensures
        r == (match percentage_difference_bps(old_price as int, new_price as int) {
            Some(c) => Some(c as i128),
            None => None::<i128>,
        }),
{
    match calculate_percentage_change_bps(old_price, new_price) {
        Some(change) => Some(if change < 0 { -change } else { change }),
        None => None,
    }
}

/// A price is valid when it is strictly positive.
pub fn is_valid(price: i128) -> (r: bool)
    ensures
        r == (price > 0),
{
    price > 0
}

/// Check if a price entry is stale based on its TTL.
///
/// A price is considered stale if the current ledger timestamp has passed
/// the expiration time (stored_timestamp + ttl, saturating at `u64::MAX`).
pub fn is_stale(current_time: u64, stored_timestamp: u64, ttl: u64) -> (r: bool)
    ensures
        r == stale(current_time, stored_timestamp, ttl),
{
    current_time >= stored_timestamp.saturating_add(ttl)
}

} // verus!
