//! Reduction of one instrument's candle series to the two candles that its movement
//! is computed from.
use vstd::prelude::*;

use crate::float_bits::{is_zero, is_zero_bits};

verus! {

/// The fields of one candle that the reduction reads. Prices are the bit patterns of
/// binary64 values; a field that was missing or blank is `None`.
#[derive(Clone, Copy, Debug)]
pub struct InputKline {
    pub open: Option<u64>,
    pub close: Option<u64>,
    /// Close time, in milliseconds since the epoch.
    pub close_time: Option<i64>,
}

/// The two candles a movement is computed from: the close of the first valid candle,
/// and the close and close time of the last.
#[derive(Clone, Copy, Debug, PartialEq, Eq, Structural)]
pub struct SeriesEndpoints {
    pub first_close: u64,
    pub last_close: u64,
    pub close_time: i64,
}

/// A candle is valid when its open, close and close time are all present.
pub open spec fn is_valid(k: InputKline) -> bool {
    k.open is Some && k.close is Some && k.close_time is Some
}

/// Index of the first valid candle at or after `i`.
pub open spec fn first_valid_from(s: Seq<InputKline>, i: int) -> Option<int>
    decreases s.len() - i,
{
    if i < 0 || i >= s.len() {
        None
    } else if is_valid(s[i]) {
        Some(i)
    } else {
        first_valid_from(s, i + 1)
    }
}

/// Index of the last valid candle before `j`.
pub open spec fn last_valid_before(s: Seq<InputKline>, j: int) -> Option<int>
    decreases j,
{
    if j <= 0 || j > s.len() {
        None
    } else if is_valid(s[j - 1]) {
        Some(j - 1)
    } else {
        last_valid_before(s, j - 1)
    }
}

/// The endpoints of a series: none when it has no valid candle, or when the first
/// valid close is zero, so that the movement would divide by zero.
pub open spec fn endpoints_of(s: Seq<InputKline>) -> Option<SeriesEndpoints> {
    match (first_valid_from(s, 0), last_valid_before(s, s.len() as int)) {
        (Some(i), Some(j)) => if is_zero_bits(s[i].close->Some_0) {
            None
        } else {
            Some(
                SeriesEndpoints {
                    first_close: s[i].close->Some_0,
                    last_close: s[j].close->Some_0,
                    close_time: s[j].close_time->Some_0,
                },
            )
        },
        _ => None,
    }
}

fn kline_is_valid(k: &InputKline) -> (r: bool)
    ensures
        r == is_valid(*k),
{
    k.open.is_some() && k.close.is_some() && k.close_time.is_some()
}

/// The endpoints of one instrument's candle series, oldest candle first.
pub fn analyze_klines_data(klines: &Vec<InputKline>) -> (r: Option<SeriesEndpoints>)
    ensures
        r == endpoints_of(klines@),
{
    let n = klines.len();
    let mut i: usize = 0;
    while i < n && !kline_is_valid(&klines[i])
        invariant
            n == klines@.len(),
            i <= n,
            first_valid_from(klines@, 0) == first_valid_from(klines@, i as int),
        decreases n - i,
    {
        i = i + 1;
    }
    if i == n {
        return None;
    }
    let mut j: usize = n;
    while j > 0 && !kline_is_valid(&klines[j - 1])
        invariant
            n == klines@.len(),
            j <= n,
            i < n,
            is_valid(klines@[i as int]),
            last_valid_before(klines@, n as int) == last_valid_before(klines@, j as int),
        decreases j,
    {
        j = j - 1;
    }
    if j == 0 {
        return None;
    }
    let first = &klines[i];
    let last = &klines[j - 1];
    match (first.close, last.close, last.close_time) {
        (Some(first_close), Some(last_close), Some(close_time)) => {
            if is_zero(first_close) {
                None
            } else {
                Some(SeriesEndpoints { first_close, last_close, close_time })
            }
        },
        _ => None,
    }
}

/// The closes that are present, in order.
pub open spec fn closes_of(s: Seq<InputKline>) -> Seq<u64>
    decreases s.len(),
{
    if s.len() == 0 {
        Seq::empty()
    } else {
        let rest = closes_of(s.drop_last());
        match s.last().close {
            Some(c) => rest.push(c),
            None => rest,
        }
    }
}

/// The closes an oscillator over `period` candles is fed: none when the period is zero
/// or fewer closes than the period are present.
pub open spec fn oscillator_input(s: Seq<InputKline>, period: int) -> Option<Seq<u64>> {
    if period == 0 || closes_of(s).len() < period {
        None
    } else {
        Some(closes_of(s))
    }
}

/// The present closes of the series, when there are enough of them for an oscillator
/// over `period` candles.
pub fn oscillator_closes(klines: &Vec<InputKline>, period: u32) -> (r: Option<Vec<u64>>)
    ensures
        match r {
            Some(v) => oscillator_input(klines@, period as int) == Some(v@),
            None => oscillator_input(klines@, period as int) is None,
        },
{
    if period == 0 {
        return None;
    }
    let mut closes: Vec<u64> = Vec::new();
    let mut i: usize = 0;
    assert(klines@.subrange(0, 0) =~= Seq::<InputKline>::empty());
    while i < klines.len()
        invariant
            i <= klines@.len(),
            closes@ == closes_of(klines@.subrange(0, i as int)),
        decreases klines.len() - i,
    {
        proof {
            let p = klines@.subrange(0, i + 1);
            assert(p.drop_last() =~= klines@.subrange(0, i as int));
            assert(p.last() == klines@[i as int]);
        }
        if let Some(c) = klines[i].close {
            closes.push(c);
        }
        i = i + 1;
    }
    assert(klines@.subrange(0, i as int) =~= klines@);
    if closes.len() < period as usize {
        None
    } else {
        Some(closes)
    }
}

} // verus!
