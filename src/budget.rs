//! Request-weight budgeting against the exchange's advertised per-minute ceiling.
use vstd::prelude::*;

use crate::text::same_text;

verus! {

/// One rate-limit descriptor advertised by the exchange.
#[derive(Clone, Debug)]
pub struct RateLimit {
    /// Kind of limit, such as `REQUEST_WEIGHT` or `ORDERS`.
    pub limit_type: String,
    /// Window unit, such as `MINUTE`.
    pub interval: String,
    /// Ceiling within one window.
    pub limit: u32,
}

/// The descriptor is the per-minute request-weight limit.
pub open spec fn is_minute_weight(r: RateLimit) -> bool {
    r.limit_type@ == "REQUEST_WEIGHT"@ && r.interval@ == "MINUTE"@
}

/// The ceiling of the first per-minute request-weight descriptor, else the default.
pub open spec fn weight_ceiling_of(limits: Seq<RateLimit>) -> int
    decreases limits.len(),
{
    if limits.len() == 0 {
        DEFAULT_WEIGHT_CEILING as int
    } else if is_minute_weight(limits[0]) {
        limits[0].limit as int
    } else {
        weight_ceiling_of(limits.drop_first())
    }
}

/// Ceiling assumed when the exchange advertises no per-minute request-weight limit.
pub const DEFAULT_WEIGHT_CEILING: u32 = 2400;

/// Weight of one candle request, as a step function of the candle count asked for.
pub open spec fn weight_of(limit: int) -> int {
    if limit <= 99 {
        1
    } else if limit <= 499 {
        2
    } else if limit <= 1000 {
        5
    } else {
        10
    }
}

/// Ninety per cent of the ceiling, rounded down.
pub open spec fn safe_capacity_of(ceiling: int) -> int {
    ceiling * 9 / 10
}

/// How many requests of the given weight fit in one window: never fewer than one.
pub open spec fn batch_size_of(ceiling: int, weight: int) -> int {
    let n = safe_capacity_of(ceiling) / weight;
    if n < 1 {
        1
    } else {
        n
    }
}

/// The weight the exchange charges for one candle request of `limit` candles.
pub fn calculate_request_weight(limit: u32) -> (w: u32)
    ensures
        w as int == weight_of(limit as int),
        1 <= w <= 10,
{
    if limit <= 99 {
        1
    } else if limit <= 499 {
        2
    } else if limit <= 1000 {
        5
    } else {
        10
    }
}

/// The part of the ceiling that may be spent: a tenth is held back against clock skew
/// and overlapping windows.
pub fn safe_capacity(ceiling: u32) -> (c: u32)
    ensures
        c as int == safe_capacity_of(ceiling as int),
        c <= ceiling,
{
    ((ceiling as u64) * 9 / 10) as u32
}

/// Number of requests of weight `weight` dispatched together in one window.
pub fn batch_size(ceiling: u32, weight: u32) -> (n: usize)
    requires
        weight >= 1,
    ensures
        n as int == batch_size_of(ceiling as int, weight as int),
        n >= 1,
{
    let per_window = safe_capacity(ceiling) / weight;
    if per_window < 1 {
        1
    } else {
        per_window as usize
    }
}

/// Number of candle requests of `limit` candles dispatched together in one window.
pub fn batch_size_for_limit(ceiling: u32, limit: u32) -> (n: usize)
    ensures
        n as int == batch_size_of(ceiling as int, weight_of(limit as int)),
        n >= 1,
{
    batch_size(ceiling, calculate_request_weight(limit))
}

/// The per-minute request-weight ceiling among the advertised limits: the first matching
/// descriptor wins, and without one the default ceiling applies.
pub fn weight_ceiling(limits: &Vec<RateLimit>) -> (c: u32)
    ensures
        c as int == weight_ceiling_of(limits@),
{
    let mut i: usize = 0;
    assert(limits@.subrange(0, limits@.len() as int) =~= limits@);
    while i < limits.len()
        invariant
            i <= limits@.len(),
            weight_ceiling_of(limits@) == weight_ceiling_of(limits@.subrange(i as int, limits@.len() as int)),
        decreases limits.len() - i,
    {
        let r = &limits[i];
        assert(limits@.subrange(i as int, limits@.len() as int)[0] == limits@[i as int]);
        assert(limits@.subrange(i as int, limits@.len() as int).drop_first()
            =~= limits@.subrange(i + 1, limits@.len() as int));
        if same_text(r.limit_type.as_str(), "REQUEST_WEIGHT") && same_text(r.interval.as_str(), "MINUTE") {
            return r.limit;
        }
        i = i + 1;
    }
    DEFAULT_WEIGHT_CEILING
}

} // verus!
