//! Properties that hold across the library's functions, stated over the
//! specifications their contracts use and proved from them.
use vstd::prelude::*;
use vstd::arithmetic::div_mod::lemma_fundamental_div_mod_converse;
use crate::adapters::{bybit_interval_text, mexc_interval_text, mexc_spot_interval_text, ondo_resolution_text, okx_bar_text};
use crate::urls::{decimal_text, digits_text};
use crate::model::{
    CandleRequest, Venue, interval_millis_by_name, venue_by_id, venue_id, venue_intervals, venue_label,
};
use crate::service::{binance_candle_weight_of, canonical_request, floor_to};
use crate::series::{joined_pairs, time_index};
use crate::text::{ascii_upper, compact_text, contains_text, is_ascii_alnum, is_ascii_char, is_ascii_control, upper_text};
use crate::model::{Market, TickerListing, canonical_asset_text, normalized_text, search_key_text};
use crate::api::{market_matches_text, search_rank_of};
use crate::adapters::{binance_quotes, infer_pair_from, okx_next};
use crate::catalog::{RankedMarket, dedup_symbols, first_results, market_hits, ticker_found, ticker_hits};
use crate::order::{ListOrder, is_sorted, lemma_text_less_total, lemma_text_less_transitive, text_less};
use crate::api::{market_is_valid, search_problem, window_problem};
use crate::error::AppError;

verus! {

/// Parsing a venue's identifier gives back that venue: identifiers are
/// distinct, and `Venue::from_id` inverts `Venue::id`.
pub proof fn law_venue_id_round_trip(v: Venue)
    ensures
        venue_by_id(venue_id(v)) == Some(v),
{
    reveal_strlit("binance_spot");
    reveal_strlit("binance_perp");
    reveal_strlit("bybit_spot");
    reveal_strlit("bybit_perp");
    reveal_strlit("hyperliquid_perp");
    reveal_strlit("lighter_perp");
    reveal_strlit("aster_perp");
    reveal_strlit("ondo_perp");
    reveal_strlit("mexc_spot");
    reveal_strlit("mexc_perp");
    reveal_strlit("okx_spot");
    reveal_strlit("okx_perp");
    assert("binance_spot"@[8] == 's' && "binance_perp"@[8] == 'p' && "lighter_perp"@[0] == 'l');
    assert("binance_spot"@[0] == 'b' && "binance_perp"@[0] == 'b');
    assert("bybit_spot"@[6] == 's' && "bybit_perp"@[6] == 'p' && "aster_perp"@[0] == 'a');
    assert("bybit_spot"@[0] == 'b' && "bybit_perp"@[0] == 'b');
    assert("mexc_spot"@[5] == 's' && "mexc_perp"@[5] == 'p' && "ondo_perp"@[0] == 'o');
    assert("mexc_spot"@[0] == 'm' && "mexc_perp"@[0] == 'm');
    assert("okx_spot"@[4] == 's' && "okx_perp"@[4] == 'p');
}

/// Different venues have different identifiers.
pub proof fn law_venue_ids_distinct(a: Venue, b: Venue)
    requires
        a != b,
    ensures
        venue_id(a) != venue_id(b),
{
    law_venue_id_round_trip(a);
    law_venue_id_round_trip(b);
}

/// An identifier character: an ASCII lower-case letter or `_`.
pub open spec fn is_id_char(c: char) -> bool {
    ('a' <= c && c <= 'z') || c == '_'
}

/// Every venue identifier is written in lower-case ASCII letters and `_`
/// and ends in `_spot` or `_perp`, the kind of market the venue lists.
pub proof fn law_venue_id_form(v: Venue)
    ensures
        venue_id(v).len() > 5,
        forall|i: int| 0 <= i < venue_id(v).len() ==> is_id_char(#[trigger] venue_id(v)[i]),
        venue_id(v).skip(venue_id(v).len() - 5) == "_spot"@ || venue_id(v).skip(venue_id(v).len() - 5) == "_perp"@,
{
    reveal_strlit("_spot");
    reveal_strlit("_perp");
    match v {
        Venue::BinanceSpot => { reveal_strlit("binance_spot"); assert(venue_id(v).skip(7) =~= "_spot"@); },
        Venue::BinancePerp => { reveal_strlit("binance_perp"); assert(venue_id(v).skip(7) =~= "_perp"@); },
        Venue::BybitSpot => { reveal_strlit("bybit_spot"); assert(venue_id(v).skip(5) =~= "_spot"@); },
        Venue::BybitPerp => { reveal_strlit("bybit_perp"); assert(venue_id(v).skip(5) =~= "_perp"@); },
        Venue::HyperliquidPerp => { reveal_strlit("hyperliquid_perp"); assert(venue_id(v).skip(11) =~= "_perp"@); },
        Venue::LighterPerp => { reveal_strlit("lighter_perp"); assert(venue_id(v).skip(7) =~= "_perp"@); },
        Venue::AsterPerp => { reveal_strlit("aster_perp"); assert(venue_id(v).skip(5) =~= "_perp"@); },
        Venue::OndoPerp => { reveal_strlit("ondo_perp"); assert(venue_id(v).skip(4) =~= "_perp"@); },
        Venue::MexcSpot => { reveal_strlit("mexc_spot"); assert(venue_id(v).skip(4) =~= "_spot"@); },
        Venue::MexcPerp => { reveal_strlit("mexc_perp"); assert(venue_id(v).skip(4) =~= "_perp"@); },
        Venue::OkxSpot => { reveal_strlit("okx_spot"); assert(venue_id(v).skip(3) =~= "_spot"@); },
        Venue::OkxPerp => { reveal_strlit("okx_perp"); assert(venue_id(v).skip(3) =~= "_perp"@); },
    }
}

/// Venues carry distinct display labels.
pub proof fn law_venue_labels_distinct(a: Venue, b: Venue)
    requires
        a != b,
    ensures
        venue_label(a) != venue_label(b),
{
    reveal_strlit("Binance Spot");
    reveal_strlit("Binance Perpetual");
    reveal_strlit("Bybit Spot");
    reveal_strlit("Bybit Perpetual");
    reveal_strlit("Hyperliquid");
    reveal_strlit("Lighter");
    reveal_strlit("Aster");
    reveal_strlit("Ondo Perps");
    reveal_strlit("MEXC Spot");
    reveal_strlit("MEXC Perpetual");
    reveal_strlit("OKX Spot");
    reveal_strlit("OKX Perpetual");
    assert("Bybit Spot"@[0] == 'B' && "Ondo Perps"@[0] == 'O');
    assert(label_key(venue_label(a)) != label_key(venue_label(b))) by {
        assert(label_key(venue_label(Venue::BinanceSpot)) == 12 * 256 + 66);
        assert(label_key(venue_label(Venue::BinancePerp)) == 17 * 256 + 66);
        assert(label_key(venue_label(Venue::BybitSpot)) == 10 * 256 + 66);
        assert(label_key(venue_label(Venue::BybitPerp)) == 15 * 256 + 66);
        assert(label_key(venue_label(Venue::HyperliquidPerp)) == 11 * 256 + 72);
        assert(label_key(venue_label(Venue::LighterPerp)) == 7 * 256 + 76);
        assert(label_key(venue_label(Venue::AsterPerp)) == 5 * 256 + 65);
        assert(label_key(venue_label(Venue::OndoPerp)) == 10 * 256 + 79);
        assert(label_key(venue_label(Venue::MexcSpot)) == 9 * 256 + 77);
        assert(label_key(venue_label(Venue::MexcPerp)) == 14 * 256 + 77);
        assert(label_key(venue_label(Venue::OkxSpot)) == 8 * 256 + 79);
        assert(label_key(venue_label(Venue::OkxPerp)) == 13 * 256 + 79);
    }
}

/// A label's length and first character, as one number.
spec fn label_key(l: Seq<char>) -> int {
    l.len() * 256 + (l[0] as int)
}

proof fn reveal_interval_names() {
    reveal_strlit("1m");
    reveal_strlit("3m");
    reveal_strlit("5m");
    reveal_strlit("15m");
    reveal_strlit("30m");
    reveal_strlit("1h");
    reveal_strlit("2h");
    reveal_strlit("4h");
    reveal_strlit("1d");
    assert("1m"@[0] == '1' && "1m"@[1] == 'm');
    assert("3m"@[0] == '3' && "3m"@[1] == 'm');
    assert("5m"@[0] == '5' && "5m"@[1] == 'm');
    assert("1h"@[0] == '1' && "1h"@[1] == 'h');
    assert("2h"@[0] == '2' && "2h"@[1] == 'h');
    assert("4h"@[0] == '4' && "4h"@[1] == 'h');
    assert("1d"@[0] == '1' && "1d"@[1] == 'd');
    assert("15m"@[0] == '1' && "15m"@[1] == '5');
    assert("30m"@[0] == '3' && "30m"@[1] == '0');
}

/// Every interval a venue lists is one of the supported intervals, so a
/// request the venue accepts has a known interval length.
pub proof fn law_venue_intervals_are_supported(v: Venue, k: int)
    requires
        0 <= k < venue_intervals(v).len(),
    ensures
        interval_millis_by_name(venue_intervals(v)[k]) is Some,
{
    reveal_interval_names();
}

/// Each adapter can spell every interval its venue lists: once
/// `ensure_interval` accepts an interval, the interval mappings of Bybit,
/// Ondo, MEXC futures and OKX never meet a name they lack.
pub proof fn law_adapter_intervals_cover_venue_intervals(name: Seq<char>)
    ensures
        venue_intervals(Venue::BybitSpot).contains(name) ==> bybit_interval_text(name) is Some,
        venue_intervals(Venue::BybitPerp).contains(name) ==> bybit_interval_text(name) is Some,
        venue_intervals(Venue::OndoPerp).contains(name) ==> ondo_resolution_text(name) is Some,
        venue_intervals(Venue::MexcPerp).contains(name) ==> mexc_interval_text(name) is Some,
        venue_intervals(Venue::OkxSpot).contains(name) ==> okx_bar_text(name) is Some,
        venue_intervals(Venue::OkxPerp).contains(name) ==> okx_bar_text(name) is Some,
{
    reveal_interval_names();
    if venue_intervals(Venue::BybitSpot).contains(name) {
        let k = choose|k: int| 0 <= k < venue_intervals(Venue::BybitSpot).len() && venue_intervals(Venue::BybitSpot)[k] == name;
    }
    if venue_intervals(Venue::MexcPerp).contains(name) {
        let k = choose|k: int| 0 <= k < venue_intervals(Venue::MexcPerp).len() && venue_intervals(Venue::MexcPerp)[k] == name;
    }
}

proof fn lemma_floor_to(t: int, step: int)
    requires
        step > 0,
    ensures
        floor_to(t, step) <= t,
        t - floor_to(t, step) < step,
        floor_to(floor_to(t, step), step) == floor_to(t, step),
        floor_to(floor_to(t, step) + step, step) == floor_to(t, step) + step,
{
    let q = t / step;
    vstd::arithmetic::div_mod::lemma_fundamental_div_mod(t, step);
    lemma_fundamental_div_mod_converse(q * step, step, q, 0);
    assert(q * step + step == (q + 1) * step) by (nonlinear_arith);
    lemma_fundamental_div_mod_converse(q * step + step, step, q + 1, 0);
    assert(floor_to(t, step) == step * q);
    assert(step * q == q * step) by (nonlinear_arith);
}

/// The canonical form of a candle request starts at the first opening time
/// at or after the requested start (or at `i64::MAX` when none fits), ends at
/// the last opening time at or before the requested end, and is its own
/// canonical form.
pub proof fn law_canonical_request_aligns(r: CandleRequest)
    requires
        r.interval.millis > 0,
        floor_to(r.from as int, r.interval.millis as int) >= i64::MIN,
        floor_to(r.to as int, r.interval.millis as int) >= i64::MIN,
    ensures
        ({
            let c = canonical_request(r);
            let step = r.interval.millis as int;
            &&& c.to <= r.to && r.to - c.to < step && floor_to(c.to as int, step) == c.to
            &&& c.from >= r.from
            &&& (c.from - r.from < step && floor_to(c.from as int, step) == c.from) || c.from == i64::MAX
            &&& canonical_request(c) == c
        }),
{
    let step = r.interval.millis as int;
    lemma_floor_to(r.from as int, step);
    lemma_floor_to(r.to as int, step);
    let c = canonical_request(r);
    lemma_floor_to(c.from as int, step);
    lemma_floor_to(c.to as int, step);
    assert(canonical_request(c) =~= c);
}


/// Where each time of `right` last occurs, its index holds that time and no
/// later index does.
proof fn lemma_time_index_last(right: Seq<i64>)
    requires
        right.len() <= usize::MAX,
    ensures
        forall|t: i64| #[trigger] time_index(right).contains_key(t) ==> {
            let j = time_index(right)[t] as int;
            &&& 0 <= j < right.len()
            &&& right[j] == t
            &&& forall|l: int| j < l < right.len() ==> #[trigger] right[l] != t
        },
        forall|l: int| 0 <= l < right.len() ==> #[trigger] time_index(right).contains_key(right[l]),
    decreases right.len(),
{
    if right.len() > 0 {
        let prev = right.drop_last();
        lemma_time_index_last(prev);
        assert(time_index(right) == time_index(prev).insert(right.last(), (right.len() - 1) as usize));
        assert forall|t: i64| #[trigger] time_index(right).contains_key(t) implies {
            let j = time_index(right)[t] as int;
            &&& 0 <= j < right.len()
            &&& right[j] == t
            &&& forall|l: int| j < l < right.len() ==> #[trigger] right[l] != t
        } by {
            if t != right.last() {
                assert(time_index(prev).contains_key(t));
                let j = time_index(prev)[t] as int;
                assert(prev[j] == right[j]);
                assert forall|l: int| j < l < right.len() implies #[trigger] right[l] != t by {
                    if l < prev.len() {
                        assert(prev[l] == right[l]);
                    }
                }
            }
        }
        assert forall|l: int| 0 <= l < right.len() implies #[trigger] time_index(right).contains_key(right[l]) by {
            if l < prev.len() {
                assert(prev[l] == right[l]);
                assert(time_index(prev).contains_key(prev[l]));
            }
        }
    }
}

/// The exact-timestamp join pairs only candles with identical opening times:
/// each pair names a left candle and the last right candle with its time,
/// whose prices are usable; pairs follow the left order; and every left
/// candle whose time occurs in the right series, last at a usable candle, is
/// paired.
pub proof fn law_join_pairs_identical_times(left: Seq<i64>, right: Seq<i64>, usable: Seq<bool>)
    requires
        usable.len() == right.len(),
        right.len() <= usize::MAX,
        left.len() <= usize::MAX,
    ensures
        ({
            let p = joined_pairs(left, right, usable);
            &&& p.len() <= left.len()
            &&& forall|k: int| 0 <= k < p.len() ==> {
                &&& (#[trigger] p[k]).0 < left.len()
                &&& p[k].1 < right.len()
                &&& left[p[k].0 as int] == right[p[k].1 as int]
                &&& usable[p[k].1 as int]
                &&& forall|l: int| p[k].1 < l < right.len() ==> #[trigger] right[l] != right[p[k].1 as int]
            }
            &&& forall|a: int, b: int| 0 <= a < b < p.len() ==> (#[trigger] p[a]).0 < (#[trigger] p[b]).0
            &&& forall|i: int| 0 <= i < left.len() && #[trigger] time_index(right).contains_key(left[i])
                && usable[time_index(right)[left[i]] as int] ==> exists|k: int| 0 <= k < p.len() && (#[trigger] p[k]).0 == i
        }),
    decreases left.len(),
{
    lemma_time_index_last(right);
    if left.len() > 0 {
        let prev = left.drop_last();
        law_join_pairs_identical_times(prev, right, usable);
        let p = joined_pairs(left, right, usable);
        let q = joined_pairs(prev, right, usable);
        assert forall|k: int| 0 <= k < q.len() implies (#[trigger] q[k]).0 < prev.len() by {}
        assert forall|i: int| 0 <= i < left.len() && #[trigger] time_index(right).contains_key(left[i])
            && usable[time_index(right)[left[i]] as int] implies exists|k: int| 0 <= k < p.len() && (#[trigger] p[k]).0 == i by {
            if i < prev.len() {
                assert(prev[i] == left[i]);
                let k = choose|k: int| 0 <= k < q.len() && (#[trigger] q[k]).0 == i;
                assert(p[k] == q[k]);
            } else {
                assert(p[p.len() - 1].0 == i);
            }
        }
        assert forall|k: int| 0 <= k < p.len() implies {
            &&& (#[trigger] p[k]).0 < left.len()
            &&& p[k].1 < right.len()
            &&& left[p[k].0 as int] == right[p[k].1 as int]
            &&& usable[p[k].1 as int]
            &&& forall|l: int| p[k].1 < l < right.len() ==> #[trigger] right[l] != right[p[k].1 as int]
        } by {
            if k < q.len() {
                assert(p[k] == q[k]);
                assert(prev[q[k].0 as int] == left[q[k].0 as int]);
            }
        }
    }
}

/// Compacting a ticker twice changes nothing more.
pub proof fn law_compact_idempotent(s: Seq<char>)
    ensures
        compact_text(compact_text(s)) == compact_text(s),
    decreases s.len(),
{
    if s.len() > 0 {
        law_compact_idempotent(s.drop_last());
        let c = compact_text(s.drop_last());
        if is_ascii_alnum(s.last()) {
            let u = ascii_upper(s.last());
            assert(c.push(u).drop_last() == c);
            assert(is_ascii_alnum(u) && ascii_upper(u) == u);
        }
    }
}

/// Canonicalizing an asset name twice changes nothing more: the canonical
/// name of a canonical name is itself.
pub proof fn law_canonical_asset_idempotent(s: Seq<char>)
    ensures
        canonical_asset_text(canonical_asset_text(s)) == canonical_asset_text(s),
{
    law_compact_idempotent(s);
    reveal_strlit("BTC");
    reveal_strlit("ETH");
    reveal_strlit("DOGE");
    reveal_strlit("XBT");
    reveal_strlit("WBTC");
    reveal_strlit("WETH");
    reveal_strlit("XDG");
    reveal_with_fuel(compact_text, 5);
    assert(compact_text("BTC"@) =~= "BTC"@);
    assert(compact_text("ETH"@) =~= "ETH"@);
    assert(compact_text("DOGE"@) =~= "DOGE"@);
    assert("BTC"@ != "XBT"@ && "BTC"@ != "WETH"@ && "BTC"@ != "XDG"@) by {
        assert("BTC"@[0] != "XBT"@[0] && "BTC"@[0] != "XDG"@[0]);
    }
    assert("ETH"@ != "XBT"@ && "ETH"@ != "WETH"@ && "ETH"@ != "XDG"@) by {
        assert("ETH"@[0] != "XBT"@[0] && "ETH"@[0] != "XDG"@[0]);
    }
    assert("DOGE"@ != "WBTC"@ && "DOGE"@ != "WETH"@) by {
        assert("DOGE"@[0] != "WBTC"@[0]);
    }
}

proof fn lemma_contains_self(x: Seq<char>)
    ensures
        contains_text(x, x),
{
    assert(x.subrange(0int, 0int + x.len()) =~= x);
}

/// A market search finds a market by the compact form of its own native
/// symbol and of its canonical notation.
pub proof fn law_market_found_by_its_notations(m: Market)
    ensures
        market_matches_text(m, compact_text(m.symbol@)),
        market_matches_text(m, compact_text(normalized_text(m.symbol@, m.base@, m.quote@))),
{
    lemma_contains_self(compact_text(m.symbol@));
    lemma_contains_self(compact_text(normalized_text(m.symbol@, m.base@, m.quote@)));
}

/// A search whose compact query equals a market's compact symbol ranks it first (rank 0).
pub proof fn law_exact_symbol_ranks_first(symbol: Seq<char>, normalized: Seq<char>, base: Seq<char>)
    requires
        compact_text(symbol).len() > 0,
    ensures
        search_rank_of(symbol, normalized, base, compact_text(symbol)) == 0,
{
}

/// A ticker search without a venue filter finds a catalog entry by its own
/// native symbol: the search key holds the compact symbol.
pub proof fn law_ticker_found_by_its_symbol(t: TickerListing)
    ensures
        contains_text(search_key_text(t), compact_text(t.symbol@)),
{
    let a = compact_text(t.normalized_symbol@);
    let b = compact_text(t.symbol@);
    let key = search_key_text(t);
    assert(key.subrange(a.len() as int, (a.len() + b.len()) as int) =~= b);
}

/// Canonical notations hold no ASCII lower-case letter.
pub proof fn law_normalized_symbol_is_upper_case(symbol: Seq<char>, base: Seq<char>, quote: Seq<char>, i: int)
    requires
        0 <= i < normalized_text(symbol, base, quote).len(),
    ensures
        !('a' <= normalized_text(symbol, base, quote)[i] && normalized_text(symbol, base, quote)[i] <= 'z'),
{
    let n = normalized_text(symbol, base, quote);
    assert forall|x: Seq<char>, k: int| 0 <= k < upper_text(x).len() implies !('a' <= #[trigger] upper_text(x)[k] && upper_text(x)[k] <= 'z') by {}
}

/// The Binance futures candle weight grows with the requested limit.
pub proof fn law_binance_weight_monotone(small: usize, large: usize)
    requires
        small <= large,
    ensures
        binance_candle_weight_of(Venue::BinancePerp, small).unwrap() <= binance_candle_weight_of(Venue::BinancePerp, large).unwrap(),
{
}

proof fn lemma_infer_pair_concat(symbol: Seq<char>, quotes: Seq<Seq<char>>, k: int)
    ensures
        infer_pair_from(symbol, quotes, k).0 + infer_pair_from(symbol, quotes, k).1 == symbol,
    decreases quotes.len() - k,
{
    if 0 <= k < quotes.len() {
        if quotes[k].is_suffix_of(symbol) && symbol.len() > quotes[k].len() {
            assert(symbol.take(symbol.len() - quotes[k].len()) + quotes[k] =~= symbol);
        } else {
            lemma_infer_pair_concat(symbol, quotes, k + 1);
        }
    } else {
        assert(symbol + Seq::<char>::empty() =~= symbol);
    }
}

/// The inferred base and quote of a Binance spot symbol spell the symbol again.
pub proof fn law_infer_pair_splits_symbol(symbol: Seq<char>)
    ensures
        infer_pair_from(symbol, binance_quotes(), 0).0 + infer_pair_from(symbol, binance_quotes(), 0).1 == symbol,
{
    lemma_infer_pair_concat(symbol, binance_quotes(), 0);
}

/// OKX paging makes progress and stays in the window: a next cursor lies
/// strictly between the window's start and the current cursor.
pub proof fn law_okx_paging_progresses(before: i64, from: i64, page: Seq<i64>)
    ensures
        okx_next(before, from, page) matches Some(c) ==> from < c < before,
{
}


proof fn lemma_dedup_symbols_contained(s: Seq<Market>)
    ensures
        forall|k: int| 0 <= k < dedup_symbols(s).len() ==> s.contains(#[trigger] dedup_symbols(s)[k]),
    decreases s.len(),
{
    if s.len() > 0 {
        let prev = s.drop_last();
        lemma_dedup_symbols_contained(prev);
        let r = dedup_symbols(prev);
        let d = dedup_symbols(s);
        assert forall|k: int| 0 <= k < d.len() implies s.contains(#[trigger] d[k]) by {
            if k < r.len() {
                assert(d[k] == r[k]);
                let j = choose|j: int| 0 <= j < prev.len() && prev[j] == r[k];
                assert(s[j] == prev[j]);
            } else {
                assert(s[s.len() - 1] == d[k]);
            }
        }
    }
}

proof fn lemma_dedup_symbols_covers(s: Seq<Market>)
    ensures
        forall|i: int| 0 <= i < s.len() ==> exists|k: int| 0 <= k < dedup_symbols(s).len() && (#[trigger] dedup_symbols(s)[k]).symbol@ == (#[trigger] s[i]).symbol@,
    decreases s.len(),
{
    if s.len() > 0 {
        let prev = s.drop_last();
        lemma_dedup_symbols_covers(prev);
        let r = dedup_symbols(prev);
        let d = dedup_symbols(s);
        assert forall|i: int| 0 <= i < s.len() implies exists|k: int| 0 <= k < d.len() && (#[trigger] d[k]).symbol@ == (#[trigger] s[i]).symbol@ by {
            if i < prev.len() {
                assert(prev[i] == s[i]);
                let k = choose|k: int| 0 <= k < r.len() && (#[trigger] r[k]).symbol@ == (#[trigger] prev[i]).symbol@;
                assert(d[k] == r[k]);
            } else if r.len() > 0 && r.last().symbol@ == s.last().symbol@ {
                assert(d[r.len() - 1].symbol@ == s[i].symbol@);
            } else {
                assert(d[d.len() - 1] == s[i]);
            }
        }
    }
}

proof fn lemma_dedup_symbols_ordered(s: Seq<Market>)
    requires
        is_sorted(s),
    ensures
        forall|a: int, b: int| 0 <= a < b < dedup_symbols(s).len() ==> text_less((#[trigger] dedup_symbols(s)[a]).symbol@, (#[trigger] dedup_symbols(s)[b]).symbol@),
    decreases s.len(),
{
    if s.len() > 0 {
        let prev = s.drop_last();
        assert(is_sorted(prev)) by {
            assert forall|a: int, b: int| 0 <= a < b < prev.len() implies !(#[trigger] prev[b]).precedes(#[trigger] prev[a]) by {
                assert(prev[a] == s[a] && prev[b] == s[b]);
            }
        }
        lemma_dedup_symbols_ordered(prev);
        lemma_dedup_symbols_contained(prev);
        let r = dedup_symbols(prev);
        let d = dedup_symbols(s);
        let x = s.last();
        if !(r.len() > 0 && r.last().symbol@ == x.symbol@) && r.len() > 0 {
            assert(d == r.push(x));
            assert(prev.contains(r[r.len() - 1]));
            let j = choose|j: int| 0 <= j < prev.len() && prev[j] == r[r.len() - 1];
            assert(s[j] == r.last());
            assert(!s[s.len() - 1].precedes(s[j]));
            lemma_text_less_total(r.last().symbol@, x.symbol@);
            assert forall|a: int, b: int| 0 <= a < b < d.len() implies text_less((#[trigger] d[a]).symbol@, (#[trigger] d[b]).symbol@) by {
                if b == d.len() - 1 && a < r.len() - 1 {
                    assert(d[a] == r[a]);
                    assert(text_less(r[a].symbol@, r[r.len() - 1].symbol@));
                    lemma_text_less_transitive(r[a].symbol@, r.last().symbol@, x.symbol@);
                } else if b < r.len() {
                    assert(d[a] == r[a] && d[b] == r[b]);
                }
            }
        }
    }
}

/// A venue's final market list names each symbol once, in strictly
/// increasing order, keeps only markets it was given, and loses no symbol.
pub proof fn law_finalized_markets_unique_and_ordered(s: Seq<Market>)
    requires
        is_sorted(s),
    ensures
        ({
            let d = dedup_symbols(s);
            &&& forall|a: int, b: int| 0 <= a < b < d.len() ==> text_less((#[trigger] d[a]).symbol@, (#[trigger] d[b]).symbol@)
            &&& forall|k: int| 0 <= k < d.len() ==> s.contains(#[trigger] d[k])
            &&& forall|i: int| 0 <= i < s.len() ==> exists|k: int| 0 <= k < d.len() && (#[trigger] d[k]).symbol@ == (#[trigger] s[i]).symbol@
        }),
{
    lemma_dedup_symbols_ordered(s);
    lemma_dedup_symbols_contained(s);
    lemma_dedup_symbols_covers(s);
}

/// A market search answers with at most `limit` results and never more
/// than it found.
pub proof fn law_search_results_bounded(u: Seq<RankedMarket>, t: Seq<RankedMarket>, limit: usize)
    requires
        t.to_multiset() == u.to_multiset(),
    ensures
        first_results(t, limit).len() <= limit,
        first_results(t, limit).len() <= u.len(),
        first_results(t, limit).len() == u.len() || first_results(t, limit).len() == limit,
{
    broadcast use vstd::seq_lib::group_to_multiset_ensures;
    assert(t.len() == t.to_multiset().len());
    assert(u.len() == u.to_multiset().len());
}

/// A window that passes validation starts at a non-negative time before its
/// end, spans at most 366 days and 20,000 intervals, and asks for 1 to 1500 candles.
pub proof fn law_validated_window_is_bounded(from: i64, to: i64, limit: usize, millis: i64)
    requires
        millis > 0,
        window_problem(from, to, limit, millis) is None,
    ensures
        0 <= from < to,
        to - from <= 31_622_400_000,
        1 <= limit <= 1500,
        (to - from) / (millis as int) <= 20_000,
{
}

/// Only a busy service and a rate-limited venue advise a retry delay: one
/// second when busy, the venue's own delay when rate-limited.
pub proof fn law_retry_guidance(e: AppError)
    ensures
        e.spec_retry_after() is Some <==> (e is Busy || e matches AppError::RateLimited { retry_after_seconds: Some(_), .. }),
        e is Busy ==> e.spec_retry_after() == Some(1u64) && e.spec_status() == 503,
        e is RateLimited ==> e.spec_status() == 429,
{
}


/// A market identifier is accepted exactly when it has 1 to 64 characters,
/// each an ASCII letter or digit or one of `- _ . : / @`.
pub proof fn law_market_identifier_characters(m: Seq<char>)
    ensures
        market_is_valid(m) <==> (0 < m.len() <= 64 && forall|i: int| 0 <= i < m.len() ==> {
            let c = #[trigger] m[i];
            ||| '0' <= c && c <= '9'
            ||| 'A' <= c && c <= 'Z'
            ||| 'a' <= c && c <= 'z'
            ||| c == '-' || c == '_' || c == '.' || c == ':' || c == '/' || c == '@'
        }),
{
}

/// The Binance spot quote assets, in the order they are tried.
pub open spec fn documented_binance_quotes() -> Seq<Seq<char>> {
    seq![
        "FDUSD"@, "USDT"@, "USDC"@, "TUSD"@, "BUSD"@, "USDP"@, "DAI"@, "BTC"@, "ETH"@, "BNB"@,
        "EUR"@, "TRY"@,
    ]
}

/// Two texts differ in one of their last four characters (within both).
spec fn tails_differ(p: Seq<char>, q: Seq<char>) -> bool {
    ||| p[p.len() - 1] != q[q.len() - 1]
    ||| p[p.len() - 2] != q[q.len() - 2]
    ||| (p.len() >= 4 && q.len() >= 4 && p[p.len() - 4] != q[q.len() - 4])
}

proof fn reveal_binance_quotes()
    ensures
        forall|j: int, k: int| 0 <= j < k < 12 ==> tails_differ(
            #[trigger] documented_binance_quotes()[j],
            #[trigger] documented_binance_quotes()[k],
        ),
        forall|k: int| 0 <= k < 12 ==> (#[trigger] documented_binance_quotes()[k]).len() >= 3,
{
    reveal_strlit("FDUSD");
    reveal_strlit("USDT");
    reveal_strlit("USDC");
    reveal_strlit("TUSD");
    reveal_strlit("BUSD");
    reveal_strlit("USDP");
    reveal_strlit("DAI");
    reveal_strlit("BTC");
    reveal_strlit("ETH");
    reveal_strlit("BNB");
    reveal_strlit("EUR");
    reveal_strlit("TRY");
    let d = documented_binance_quotes();
    assert forall|j: int, k: int| 0 <= j < k < 12 implies tails_differ(#[trigger] d[j], #[trigger] d[k]) by {
        assert(d[0] == "FDUSD"@ && d[1] == "USDT"@ && d[2] == "USDC"@ && d[3] == "TUSD"@);
        assert(d[4] == "BUSD"@ && d[5] == "USDP"@ && d[6] == "DAI"@ && d[7] == "BTC"@);
        assert(d[8] == "ETH"@ && d[9] == "BNB"@ && d[10] == "EUR"@ && d[11] == "TRY"@);
    }
    assert(d[0] == "FDUSD"@ && d[1] == "USDT"@ && d[2] == "USDC"@ && d[3] == "TUSD"@);
    assert(d[4] == "BUSD"@ && d[5] == "USDP"@ && d[6] == "DAI"@ && d[7] == "BTC"@);
    assert(d[8] == "ETH"@ && d[9] == "BNB"@ && d[10] == "EUR"@ && d[11] == "TRY"@);
}

/// Two suffixes of one text agree on their common last characters.
proof fn lemma_suffixes_agree(p: Seq<char>, q: Seq<char>, s: Seq<char>, i: int)
    requires
        p.is_suffix_of(s),
        q.is_suffix_of(s),
        0 <= i < p.len(),
        i < q.len(),
    ensures
        p[p.len() - 1 - i] == q[q.len() - 1 - i],
{
    assert(p[p.len() - 1 - i] == s[s.len() - 1 - i]);
    assert(q[q.len() - 1 - i] == s[s.len() - 1 - i]);
}

proof fn lemma_quote_found_from(b: Seq<char>, k: int, j: int)
    requires
        b.len() > 0,
        0 <= j <= k < 12,
        binance_quotes() == documented_binance_quotes(),
    ensures
        infer_pair_from(b + documented_binance_quotes()[k], binance_quotes(), j) == (b, documented_binance_quotes()[k]),
    decreases k - j,
{
    reveal_binance_quotes();
    let d = documented_binance_quotes();
    let q = d[k];
    let s = b + q;
    if j == k {
        assert(s.subrange(s.len() - q.len(), s.len() as int) =~= q);
        assert(s.take(s.len() - q.len()) =~= b);
    } else {
        lemma_quote_found_from(b, k, j + 1);
        let p = d[j];
        assert(s.subrange(s.len() - q.len(), s.len() as int) =~= q);
        if p.is_suffix_of(s) {
            assert(tails_differ(p, q));
            lemma_suffixes_agree(p, q, s, 0);
            lemma_suffixes_agree(p, q, s, 1);
            if p.len() >= 4 && q.len() >= 4 {
                lemma_suffixes_agree(p, q, s, 3);
            }
        }
    }
}

/// A Binance spot symbol made of a non-empty base and one of the quote
/// assets FDUSD, USDT, USDC, TUSD, BUSD, USDP, DAI, BTC, ETH, BNB, EUR or
/// TRY splits into exactly that base and quote.
pub proof fn law_binance_spot_pair_of_base_and_quote(b: Seq<char>, k: int)
    requires
        b.len() > 0,
        0 <= k < 12,
    ensures
        infer_pair_from(b + documented_binance_quotes()[k], binance_quotes(), 0) == (b, documented_binance_quotes()[k]),
{
    assert(binance_quotes() =~= documented_binance_quotes());
    lemma_quote_found_from(b, k, 0);
}


/// The length of interval `name` in `unit` milliseconds, as decimal text.
pub open spec fn interval_count_text(name: Seq<char>, unit: int) -> Seq<char> {
    decimal_text((interval_millis_by_name(name).unwrap() as int) / unit)
}

proof fn lemma_interval_texts(name: Seq<char>)
    requires
        interval_millis_by_name(name) is Some,
    ensures
        name == "1m"@ ==> interval_count_text(name, 60_000) == seq!['1'],
        name == "3m"@ ==> interval_count_text(name, 60_000) == seq!['3'],
        name == "5m"@ ==> interval_count_text(name, 60_000) == seq!['5'],
        name == "15m"@ ==> interval_count_text(name, 60_000) == seq!['1', '5'],
        name == "30m"@ ==> interval_count_text(name, 60_000) == seq!['3', '0'],
        name == "1h"@ ==> interval_count_text(name, 60_000) == seq!['6', '0'] && interval_count_text(name, 3_600_000) == seq!['1'],
        name == "2h"@ ==> interval_count_text(name, 60_000) == seq!['1', '2', '0'] && interval_count_text(name, 3_600_000) == seq!['2'],
        name == "4h"@ ==> interval_count_text(name, 60_000) == seq!['2', '4', '0'] && interval_count_text(name, 3_600_000) == seq!['4'],
        name == "1d"@ ==> interval_count_text(name, 86_400_000) == seq!['1'],
{
    reveal_with_fuel(digits_text, 4);
    reveal_strlit("1m");
    reveal_strlit("3m");
    reveal_strlit("5m");
    reveal_strlit("15m");
    reveal_strlit("30m");
    reveal_strlit("1h");
    reveal_strlit("2h");
    reveal_strlit("4h");
    reveal_strlit("1d");
    assert("1m"@[0] == '1' && "1m"@[1] == 'm' && "3m"@[0] == '3' && "5m"@[0] == '5');
    assert("1h"@[1] == 'h' && "2h"@[0] == '2' && "4h"@[0] == '4' && "1d"@[1] == 'd');
    assert("15m"@[1] == '5' && "30m"@[0] == '3' && "30m"@[1] == '0' && "15m"@[0] == '1');

    assert(digits_text(15) =~= seq!['1', '5']);
    assert(digits_text(30) =~= seq!['3', '0']);
    assert(digits_text(60) =~= seq!['6', '0']);
    assert(digits_text(120) =~= seq!['1', '2', '0']);
    assert(digits_text(240) =~= seq!['2', '4', '0']);
}

/// Each venue spells an interval by its length: Bybit and Ondo in minutes
/// (`D` and `1D` for a day), OKX in minutes below an hour, in hours (`H`)
/// below a day and `1Dutc` for a day, MEXC futures as `Min` and minutes up
/// to an hour, `Hour` and hours below a day and `Day1` (no 3-minute or
/// 2-hour bars), MEXC spot in minutes up to an hour and in hours (`h`) below
/// a day; and an interval's name is its length in minutes, hours or days.
pub proof fn law_interval_spellings_follow_lengths(name: Seq<char>)
    requires
        interval_millis_by_name(name) is Some,
    ensures
        ({
            let ms = interval_millis_by_name(name).unwrap();
            let minutes = interval_count_text(name, 60_000);
            let hours = interval_count_text(name, 3_600_000);
            &&& ms < 3_600_000 ==> ms % 60_000 == 0 && name == minutes + seq!['m']
            &&& 3_600_000 <= ms < 86_400_000 ==> ms % 3_600_000 == 0 && name == hours + seq!['h']
            &&& ms >= 86_400_000 ==> ms == 86_400_000 && name == seq!['1', 'd']
            &&& ms < 86_400_000 ==> bybit_interval_text(name) == Some(minutes)
            &&& ms == 86_400_000 ==> bybit_interval_text(name) == Some(seq!['D'])
            &&& ms < 86_400_000 ==> ondo_resolution_text(name) == Some(minutes)
            &&& ms == 86_400_000 ==> ondo_resolution_text(name) == Some(seq!['1', 'D'])
            &&& ms < 3_600_000 ==> okx_bar_text(name) == Some(minutes + seq!['m'])
            &&& 3_600_000 <= ms < 86_400_000 ==> okx_bar_text(name) == Some(hours + seq!['H'])
            &&& ms == 86_400_000 ==> okx_bar_text(name) == Some(seq!['1', 'D', 'u', 't', 'c'])
            &&& (mexc_interval_text(name) is None <==> (ms == 180_000 || ms == 7_200_000))
            &&& ms <= 3_600_000 && ms != 180_000 ==> mexc_interval_text(name) == Some(seq!['M', 'i', 'n'] + minutes)
            &&& 3_600_000 < ms < 86_400_000 && ms != 7_200_000 ==> mexc_interval_text(name) == Some(seq!['H', 'o', 'u', 'r'] + hours)
            &&& ms == 86_400_000 ==> mexc_interval_text(name) == Some(seq!['D', 'a', 'y', '1'])
            &&& ms < 3_600_000 ==> mexc_spot_interval_text(name) == minutes + seq!['m']
            &&& ms == 3_600_000 ==> mexc_spot_interval_text(name) == minutes + seq!['m']
            &&& 3_600_000 < ms < 86_400_000 ==> mexc_spot_interval_text(name) == hours + seq!['h']
            &&& ms == 86_400_000 ==> mexc_spot_interval_text(name) == seq!['1', 'd']
        }),
{
    lemma_interval_texts(name);
    reveal_strlit("1m");
    reveal_strlit("3m");
    reveal_strlit("5m");
    reveal_strlit("15m");
    reveal_strlit("30m");
    reveal_strlit("1h");
    reveal_strlit("2h");
    reveal_strlit("4h");
    reveal_strlit("1d");
    assert("1m"@[0] == '1' && "1m"@[1] == 'm' && "3m"@[0] == '3' && "5m"@[0] == '5');
    assert("1h"@[1] == 'h' && "2h"@[0] == '2' && "4h"@[0] == '4' && "1d"@[1] == 'd');
    assert("15m"@[1] == '5' && "30m"@[0] == '3' && "30m"@[1] == '0' && "15m"@[0] == '1');

    reveal_strlit("1");
    reveal_strlit("3");
    reveal_strlit("5");
    reveal_strlit("15");
    reveal_strlit("30");
    reveal_strlit("60");
    reveal_strlit("120");
    reveal_strlit("240");
    reveal_strlit("D");
    reveal_strlit("1D");
    reveal_strlit("1H");
    reveal_strlit("2H");
    reveal_strlit("4H");
    reveal_strlit("1Dutc");
    reveal_strlit("Min1");
    reveal_strlit("Min5");
    reveal_strlit("Min15");
    reveal_strlit("Min30");
    reveal_strlit("Min60");
    reveal_strlit("Hour4");
    reveal_strlit("Day1");
    reveal_strlit("60m");
    let m = seq!['m'];
    assert(seq!['1'] + m =~= "1m"@);
    assert(seq!['3'] + m =~= "3m"@);
    assert(seq!['5'] + m =~= "5m"@);
    assert(seq!['1', '5'] + m =~= "15m"@);
    assert(seq!['3', '0'] + m =~= "30m"@);
    assert(seq!['6', '0'] + m =~= "60m"@);
    assert(seq!['1'] + seq!['h'] =~= "1h"@);
    assert(seq!['2'] + seq!['h'] =~= "2h"@);
    assert(seq!['4'] + seq!['h'] =~= "4h"@);
    assert(seq!['1'] + seq!['H'] =~= "1H"@);
    assert(seq!['2'] + seq!['H'] =~= "2H"@);
    assert(seq!['4'] + seq!['H'] =~= "4H"@);
    let mi = seq!['M', 'i', 'n'];
    assert(mi + seq!['1'] =~= "Min1"@);
    assert(mi + seq!['5'] =~= "Min5"@);
    assert(mi + seq!['1', '5'] =~= "Min15"@);
    assert(mi + seq!['3', '0'] =~= "Min30"@);
    assert(mi + seq!['6', '0'] =~= "Min60"@);
    assert(seq!['H', 'o', 'u', 'r'] + seq!['4'] =~= "Hour4"@);
    assert(seq!['D', 'a', 'y', '1'] =~= "Day1"@);
    assert(seq!['1', 'D', 'u', 't', 'c'] =~= "1Dutc"@);
    assert(seq!['1', 'D'] =~= "1D"@);
    assert(seq!['D'] =~= "D"@);
    assert(seq!['1', 'd'] =~= "1d"@);
}


/// `n` occurs in `h` (stated by position).
pub open spec fn occurs_in(n: Seq<char>, h: Seq<char>) -> bool {
    exists|k: int| 0 <= k && k + n.len() <= h.len() && #[trigger] h.subrange(k, k + n.len()) == n
}

/// `n` begins `h` (stated by position).
pub open spec fn begins(n: Seq<char>, h: Seq<char>) -> bool {
    n.len() <= h.len() && h.subrange(0, n.len() as int) == n
}

/// Search relevance: for a non-empty query, a market whose compact symbol
/// or canonical notation equals the query ranks before one whose base
/// equals it, which ranks before one whose compact symbol or canonical
/// notation only begins with it, which ranks before one that only contains it.
pub proof fn law_search_rank_order(
    s1: Seq<char>, n1: Seq<char>, b1: Seq<char>,
    s2: Seq<char>, n2: Seq<char>, b2: Seq<char>,
    needle: Seq<char>,
)
    requires
        needle.len() > 0,
    ensures
        (compact_text(s1) == needle || compact_text(n1) == needle)
            && compact_text(s2) != needle && compact_text(n2) != needle
            ==> search_rank_of(s1, n1, b1, needle) < search_rank_of(s2, n2, b2, needle),
        compact_text(s1) != needle && compact_text(n1) != needle && compact_text(b1) == needle
            && compact_text(s2) != needle && compact_text(n2) != needle && compact_text(b2) != needle
            ==> search_rank_of(s1, n1, b1, needle) < search_rank_of(s2, n2, b2, needle),
        compact_text(s1) != needle && compact_text(n1) != needle && compact_text(b1) != needle
            && (begins(needle, compact_text(s1)) || begins(needle, compact_text(n1)))
            && compact_text(s2) != needle && compact_text(n2) != needle && compact_text(b2) != needle
            && !begins(needle, compact_text(s2)) && !begins(needle, compact_text(n2))
            ==> search_rank_of(s1, n1, b1, needle) < search_rank_of(s2, n2, b2, needle),
{
    let (c1, d1) = (compact_text(s1), compact_text(n1));
    let (c2, d2) = (compact_text(s2), compact_text(n2));
    assert(begins(needle, c1) <==> needle.is_prefix_of(c1));
    assert(begins(needle, d1) <==> needle.is_prefix_of(d1));
    assert(begins(needle, c2) <==> needle.is_prefix_of(c2));
    assert(begins(needle, d2) <==> needle.is_prefix_of(d2));
}

/// A ticker search finds every catalog entry of the requested venue (of any
/// venue without a filter) whose search key contains the compact query, and
/// only such entries (any such entry for an empty query).
pub proof fn law_ticker_search_finds_containing_entries(ts: Seq<TickerListing>, venue: Option<Venue>, needle: Seq<char>, t: TickerListing)
    ensures
        ticker_hits(ts, venue, needle).contains(t) <==> (ts.contains(t)
            && (venue matches Some(v) ==> t.venue@ == venue_id(v))
            && (needle.len() == 0 || occurs_in(needle, search_key_text(t)))),
    decreases ts.len(),
{
    if ts.len() > 0 {
        law_ticker_search_finds_containing_entries(ts.drop_last(), venue, needle, t);
        assert(ts =~= ts.drop_last().push(ts.last()));
        assert(contains_text(search_key_text(t), needle) <==> occurs_in(needle, search_key_text(t)));
        if ts.drop_last().contains(t) {
            let k = choose|k: int| 0 <= k < ts.drop_last().len() && ts.drop_last()[k] == t;
            assert(ts[k] == t);
        }
        if ts.contains(t) && t != ts.last() {
            let k = choose|k: int| 0 <= k < ts.len() && ts[k] == t;
            assert(ts.drop_last()[k] == t);
        }
        let r = ticker_hits(ts.drop_last(), venue, needle);
        if ticker_found(ts.last(), venue, needle) {
            assert(r.push(ts.last())[r.len() as int] == ts.last());
            if r.contains(t) {
                let k = choose|k: int| 0 <= k < r.len() && r[k] == t;
                assert(r.push(ts.last())[k] == t);
            }
            if r.push(ts.last()).contains(t) && t != ts.last() {
                let k = choose|k: int| 0 <= k < r.len() + 1 && r.push(ts.last())[k] == t;
                assert(r[k] == t);
            }
        }
    }
}

/// A market search finds every active market whose compact symbol, base,
/// quote or canonical notation contains the compact query, and only active
/// markets (any active market for an empty query).
pub proof fn law_market_search_finds_containing_markets(ms: Seq<Market>, needle: Seq<char>, m: Market)
    ensures
        market_hits(ms, needle).contains(m) <==> (ms.contains(m) && m.active && (needle.len() == 0
            || occurs_in(needle, compact_text(m.symbol@))
            || occurs_in(needle, compact_text(m.base@))
            || occurs_in(needle, compact_text(m.quote@))
            || occurs_in(needle, compact_text(normalized_text(m.symbol@, m.base@, m.quote@))))),
    decreases ms.len(),
{
    if ms.len() > 0 {
        law_market_search_finds_containing_markets(ms.drop_last(), needle, m);
        assert(ms =~= ms.drop_last().push(ms.last()));
        assert(contains_text(compact_text(m.symbol@), needle) <==> occurs_in(needle, compact_text(m.symbol@)));
        assert(contains_text(compact_text(m.base@), needle) <==> occurs_in(needle, compact_text(m.base@)));
        assert(contains_text(compact_text(m.quote@), needle) <==> occurs_in(needle, compact_text(m.quote@)));
        assert(contains_text(compact_text(normalized_text(m.symbol@, m.base@, m.quote@)), needle)
            <==> occurs_in(needle, compact_text(normalized_text(m.symbol@, m.base@, m.quote@))));
        if ms.drop_last().contains(m) {
            let k = choose|k: int| 0 <= k < ms.drop_last().len() && ms.drop_last()[k] == m;
            assert(ms[k] == m);
        }
        if ms.contains(m) && m != ms.last() {
            let k = choose|k: int| 0 <= k < ms.len() && ms[k] == m;
            assert(ms.drop_last()[k] == m);
        }
        let r = market_hits(ms.drop_last(), needle);
        if ms.last().active && market_matches_text(ms.last(), needle) {
            assert(r.push(ms.last())[r.len() as int] == ms.last());
            if r.contains(m) {
                let k = choose|k: int| 0 <= k < r.len() && r[k] == m;
                assert(r.push(ms.last())[k] == m);
            }
            if r.push(ms.last()).contains(m) && m != ms.last() {
                let k = choose|k: int| 0 <= k < r.len() + 1 && r.push(ms.last())[k] == m;
                assert(r[k] == m);
            }
        }
    }
}


/// A candle window is accepted exactly when it starts at a non-negative time
/// before its end, spans at most 366 days and 20,000 intervals, and asks for
/// 1 to 1500 candles.
pub proof fn law_window_accepted_exactly_when_bounded(from: i64, to: i64, limit: usize, millis: i64)
    requires
        millis > 0,
    ensures
        window_problem(from, to, limit, millis) is None <==> (0 <= from < to && to - from <= 366 * 86_400_000
            && 1 <= limit <= 1500 && (to - from) / (millis as int) <= 20_000),
{
}

/// A text with an ASCII letter or digit has a non-empty compact form.
proof fn lemma_compact_keeps_alnum(q: Seq<char>, i: int)
    requires
        0 <= i < q.len(),
        is_ascii_alnum(q[i]),
    ensures
        compact_text(q).len() > 0,
    decreases q.len(),
{
    if i < q.len() - 1 {
        assert(q.drop_last()[i] == q[i]);
        lemma_compact_keeps_alnum(q.drop_last(), i);
    }
}

/// A ticker search is refused unless its limit is 1 to 1000 and its query
/// has at most 64 characters, all printable ASCII (`0x20` to `0x7E`); such a
/// query holding an ASCII letter or digit is accepted.
pub proof fn law_ticker_search_parameters(q: Seq<char>, limit: usize)
    ensures
        search_problem(q, limit) is None ==> 1 <= limit <= 1000 && q.len() <= 64
            && forall|i: int| 0 <= i < q.len() ==> 0x20 <= (#[trigger] q[i]) as u32 && (q[i] as u32) <= 0x7E,
        (1 <= limit <= 1000 && q.len() <= 64 && (forall|i: int| 0 <= i < q.len() ==> 0x20 <= (#[trigger] q[i]) as u32 && (q[i] as u32) <= 0x7E)
            && exists|i: int| 0 <= i < q.len() && ({
                let c = #[trigger] q[i];
                ('0' <= c && c <= '9') || ('A' <= c && c <= 'Z') || ('a' <= c && c <= 'z')
            })) ==> search_problem(q, limit) is None,
{
    if search_problem(q, limit) is None {
        assert forall|i: int| 0 <= i < q.len() implies 0x20 <= (#[trigger] q[i]) as u32 && (q[i] as u32) <= 0x7E by {
            assert(is_ascii_char(q[i]));
            assert(!is_ascii_control(q[i]));
        }
    }
    if 1 <= limit <= 1000 && q.len() <= 64 && (forall|i: int| 0 <= i < q.len() ==> 0x20 <= (#[trigger] q[i]) as u32 && (q[i] as u32) <= 0x7E)
        && exists|i: int| 0 <= i < q.len() && ({
            let c = #[trigger] q[i];
            ('0' <= c && c <= '9') || ('A' <= c && c <= 'Z') || ('a' <= c && c <= 'z')
        }) {
        let i = choose|i: int| 0 <= i < q.len() && ({
            let c = #[trigger] q[i];
            ('0' <= c && c <= '9') || ('A' <= c && c <= 'Z') || ('a' <= c && c <= 'z')
        });
        lemma_compact_keeps_alnum(q, i);
        assert forall|j: int| 0 <= j < q.len() implies is_ascii_char(#[trigger] q[j]) by {
            assert(0x20 <= q[j] as u32 && (q[j] as u32) <= 0x7E);
        }
        assert(!(exists|j: int| 0 <= j < q.len() && is_ascii_control(#[trigger] q[j]))) by {
            if exists|j: int| 0 <= j < q.len() && is_ascii_control(#[trigger] q[j]) {
                let j = choose|j: int| 0 <= j < q.len() && is_ascii_control(#[trigger] q[j]);
                assert(0x20 <= q[j] as u32 && (q[j] as u32) <= 0x7E);
            }
        }
    }
}

/// A catalog entry's search key holds the compact forms of its canonical
/// notation, native symbol, base, quote and venue label.
pub proof fn law_search_key_holds_every_notation(t: TickerListing)
    ensures
        occurs_in(compact_text(t.normalized_symbol@), search_key_text(t)),
        occurs_in(compact_text(t.symbol@), search_key_text(t)),
        occurs_in(compact_text(t.base@), search_key_text(t)),
        occurs_in(compact_text(t.quote@), search_key_text(t)),
        occurs_in(compact_text(t.venue_label@), search_key_text(t)),
{
    let a = compact_text(t.normalized_symbol@);
    let b = compact_text(t.symbol@);
    let c = compact_text(t.base@);
    let d = compact_text(t.quote@);
    let e = compact_text(t.venue_label@);
    let key = search_key_text(t);
    assert(key =~= a + b + c + d + e);
    assert(key.subrange(0, 0int + a.len()) =~= a);
    assert(key.subrange(a.len() as int, (a.len() + b.len()) as int) =~= b);
    assert(key.subrange((a.len() + b.len()) as int, (a.len() + b.len() + c.len()) as int) =~= c);
    assert(key.subrange((a.len() + b.len() + c.len()) as int, (a.len() + b.len() + c.len() + d.len()) as int) =~= d);
    assert(key.subrange((a.len() + b.len() + c.len() + d.len()) as int, key.len() as int) =~= e);
}


proof fn lemma_no_quote_from(symbol: Seq<char>, j: int)
    requires
        0 <= j <= 12,
        binance_quotes() == documented_binance_quotes(),
        forall|k: int| 0 <= k < 12 ==> !((#[trigger] documented_binance_quotes()[k]).is_suffix_of(symbol)
            && symbol.len() > documented_binance_quotes()[k].len()),
    ensures
        infer_pair_from(symbol, binance_quotes(), j) == (symbol, Seq::<char>::empty()),
    decreases 12 - j,
{
    if j < 12 {
        lemma_no_quote_from(symbol, j + 1);
    }
}

/// A Binance spot symbol that ends with none of the quote assets after a
/// non-empty base keeps the whole symbol as its base, with no quote.
pub proof fn law_binance_spot_pair_without_quote(symbol: Seq<char>)
    requires
        forall|k: int| 0 <= k < 12 ==> !((#[trigger] documented_binance_quotes()[k]).is_suffix_of(symbol)
            && symbol.len() > documented_binance_quotes()[k].len()),
    ensures
        infer_pair_from(symbol, binance_quotes(), 0) == (symbol, Seq::<char>::empty()),
{
    assert(binance_quotes() =~= documented_binance_quotes());
    lemma_no_quote_from(symbol, 0);
}

} // verus!
