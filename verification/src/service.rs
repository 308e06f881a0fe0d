//! Decisions of the market-data service that involve no I/O: the canonical
//! form of a candle request, the Binance request weights, the exact-timestamp
//! join of two candle series and the assembly of the cross-venue ticker catalog.
use vstd::prelude::*;
use vstd::arithmetic::div_mod::{lemma_fundamental_div_mod, lemma_fundamental_div_mod_converse};
use crate::error::AppError;
use crate::model::{CandleRequest, Venue};

verus! {

/// How long venue catalogs stay cached, in seconds.
pub const TICKER_CACHE_TTL_SECONDS: u64 = 300;

/// The default local budget of Binance request weight per minute.
pub const DEFAULT_BINANCE_REQUEST_WEIGHT_PER_MINUTE: u32 = 300;

/// The largest multiple of `step` that is at most `t`.
pub open spec fn floor_to(t: int, step: int) -> int {
    t - t % step
}

/// The smallest multiple of `step` that is at least `t`, saturated at `i64::MAX`.
pub open spec fn ceil_to_saturating(t: int, step: int) -> int {
    if floor_to(t, step) == t {
        t
    } else if floor_to(t, step) + step > i64::MAX {
        i64::MAX as int
    } else {
        floor_to(t, step) + step
    }
}

/// The largest multiple of `step` that is at most `t` (`t.div_euclid(step) * step`).
pub fn floor_to_step(t: i64, step: i64) -> (res: i64)
    requires
        step > 0,
        floor_to(t as int, step as int) >= i64::MIN,
    ensures
        res == floor_to(t as int, step as int),
{
    if t >= 0 {
        let m = t % step;
        t - m
    } else {
        let p: i64 = -(t + 1);
        let m: i64 = p % step;
        proof {
            lemma_fundamental_div_mod(p as int, step as int);
            let q = (p as int) / (step as int);
            assert(t == (-q - 1) * step + (step - 1 - m)) by (nonlinear_arith)
                requires
                    p == step * q + m,
                    t == -(p + 1),
            ;
            lemma_fundamental_div_mod_converse(t as int, step as int, -q - 1, step - 1 - m);
        }
        t - (step - 1 - m)
    }
}

/// The request with `from` raised to the first opening time at or after it
/// and `to` lowered to the last opening time at or before it, so that windows
/// that select the same candles share one cache key.
pub open spec fn canonical_request(r: CandleRequest) -> CandleRequest {
    CandleRequest {
        from: ceil_to_saturating(r.from as int, r.interval.millis as int) as i64,
        to: floor_to(r.to as int, r.interval.millis as int) as i64,
        ..r
    }
}

/// The canonical form of a candle request.
pub fn canonical_candle_request(request: CandleRequest) -> (res: CandleRequest)
    requires
        request.interval.millis > 0,
        floor_to(request.from as int, request.interval.millis as int) >= i64::MIN,
        floor_to(request.to as int, request.interval.millis as int) >= i64::MIN,
    ensures
        res == canonical_request(request),
{
    let mut request = request;
    let step = request.interval.millis;
    let from_floor = floor_to_step(request.from, step);
    request.from = if from_floor == request.from {
        from_floor
    } else {
        if from_floor > i64::MAX - step {
            i64::MAX
        } else {
            from_floor + step
        }
    };
    request.to = floor_to_step(request.to, step);
    request
}

/// Whether a (canonical) candle request selects no opening time: its start
/// lies after its end, so no upstream request is needed.
pub fn candle_window_is_empty(request: &CandleRequest) -> (res: bool)
    ensures
        res == (request.from > request.to),
{
    request.from > request.to
}

/// The request weight that Binance charges for a candle request, for the
/// two Binance venues; `None` for the others.
pub open spec fn binance_candle_weight_of(venue: Venue, limit: usize) -> Option<u32> {
    match venue {
        Venue::BinanceSpot => Some(2),
        Venue::BinancePerp => {
            let l = if limit < 1500 { limit } else { 1500 };
            Some(
                if l < 100 {
                    1
                } else if l < 500 {
                    2
                } else if l <= 1000 {
                    5
                } else {
                    10
                },
            )
        },
        _ => None,
    }
}

/// The request weight that Binance charges for a candle request.
pub fn binance_candle_weight(request: &CandleRequest) -> (res: Option<u32>)
    ensures
        res == binance_candle_weight_of(request.venue, request.limit),
{
    match request.venue {
        Venue::BinanceSpot => Some(2),
        Venue::BinancePerp => {
            let l = if request.limit < 1500 { request.limit } else { 1500 };
            Some(
                if l < 100 {
                    1
                } else if l < 500 {
                    2
                } else if l <= 1000 {
                    5
                } else {
                    10
                },
            )
        },
        _ => None,
    }
}

/// The request weight that Binance charges for a market listing.
pub open spec fn binance_market_weight_of(venue: Venue) -> Option<u32> {
    match venue {
        Venue::BinanceSpot => Some(4),
        Venue::BinancePerp => Some(1),
        _ => None,
    }
}

/// The request weight that Binance charges for a market listing.
pub fn binance_market_weight(venue: Venue) -> (res: Option<u32>)
    ensures
        res == binance_market_weight_of(venue),
{
    match venue {
        Venue::BinanceSpot => Some(4),
        Venue::BinancePerp => Some(1),
        _ => None,
    }
}

} // verus!
