//! Venues, intervals, markets and ticker listings, with the symbol
//! normalization that lets one market be found under several notations.
use vstd::prelude::*;
use crate::error::AppError;
use crate::text::{push_text, push_chars, string_from, chars_of, trim_upper, compact_chars, text_equal, chars_equal, compact_text, trim_text, upper_text};

verus! {

/// A venue and market type whose public candles the service can read.
#[derive(Debug, Clone, Copy, PartialEq, Eq, Hash, Structural)]
pub enum Venue {
    BinanceSpot,
    BinancePerp,
    BybitSpot,
    BybitPerp,
    HyperliquidPerp,
    LighterPerp,
    AsterPerp,
    OndoPerp,
    MexcSpot,
    MexcPerp,
    OkxSpot,
    OkxPerp,
}

/// The identifier of a venue in requests and responses.
pub open spec fn venue_id(v: Venue) -> Seq<char> {
    match v {
        Venue::BinanceSpot => "binance_spot"@,
        Venue::BinancePerp => "binance_perp"@,
        Venue::BybitSpot => "bybit_spot"@,
        Venue::BybitPerp => "bybit_perp"@,
        Venue::HyperliquidPerp => "hyperliquid_perp"@,
        Venue::LighterPerp => "lighter_perp"@,
        Venue::AsterPerp => "aster_perp"@,
        Venue::OndoPerp => "ondo_perp"@,
        Venue::MexcSpot => "mexc_spot"@,
        Venue::MexcPerp => "mexc_perp"@,
        Venue::OkxSpot => "okx_spot"@,
        Venue::OkxPerp => "okx_perp"@,
    }
}

/// The intervals a venue serves candles for.
pub open spec fn venue_intervals(v: Venue) -> Seq<Seq<char>> {
    match v {
        Venue::LighterPerp | Venue::MexcPerp | Venue::MexcSpot => seq![
            "1m"@, "5m"@, "15m"@, "30m"@, "1h"@, "4h"@, "1d"@,
        ],
        _ => seq!["1m"@, "3m"@, "5m"@, "15m"@, "30m"@, "1h"@, "2h"@, "4h"@, "1d"@],
    }
}

impl Venue {
    /// The identifier of this venue.
    pub fn id(self) -> (res: &'static str)
        ensures
            res@ == venue_id(self),
    {
        match self {
            Venue::BinanceSpot => "binance_spot",
            Venue::BinancePerp => "binance_perp",
            Venue::BybitSpot => "bybit_spot",
            Venue::BybitPerp => "bybit_perp",
            Venue::HyperliquidPerp => "hyperliquid_perp",
            Venue::LighterPerp => "lighter_perp",
            Venue::AsterPerp => "aster_perp",
            Venue::OndoPerp => "ondo_perp",
            Venue::MexcSpot => "mexc_spot",
            Venue::MexcPerp => "mexc_perp",
            Venue::OkxSpot => "okx_spot",
            Venue::OkxPerp => "okx_perp",
        }
    }

    /// The intervals this venue serves candles for.
    pub fn intervals(self) -> (res: &'static [&'static str])
        ensures
            res@.map_values(|s: &str| s@) == venue_intervals(self),
    {
        match self {
            Venue::LighterPerp | Venue::MexcPerp | Venue::MexcSpot => {
                let r: &'static [&'static str] = &["1m", "5m", "15m", "30m", "1h", "4h", "1d"];
                assert(r@.map_values(|s: &str| s@) =~= venue_intervals(self));
                r
            },
            _ => {
                let r: &'static [&'static str] = &["1m", "3m", "5m", "15m", "30m", "1h", "2h", "4h", "1d"];
                assert(r@.map_values(|s: &str| s@) =~= venue_intervals(self));
                r
            },
        }
    }
}


/// The display label of a venue.
pub open spec fn venue_label(v: Venue) -> Seq<char> {
    match v {
        Venue::BinanceSpot => "Binance Spot"@,
        Venue::BinancePerp => "Binance Perpetual"@,
        Venue::BybitSpot => "Bybit Spot"@,
        Venue::BybitPerp => "Bybit Perpetual"@,
        Venue::HyperliquidPerp => "Hyperliquid"@,
        Venue::LighterPerp => "Lighter"@,
        Venue::AsterPerp => "Aster"@,
        Venue::OndoPerp => "Ondo Perps"@,
        Venue::MexcSpot => "MEXC Spot"@,
        Venue::MexcPerp => "MEXC Perpetual"@,
        Venue::OkxSpot => "OKX Spot"@,
        Venue::OkxPerp => "OKX Perpetual"@,
    }
}

/// Whether a venue lists spot markets (the others list perpetual contracts).
pub open spec fn venue_is_spot(v: Venue) -> bool {
    v == Venue::BinanceSpot || v == Venue::BybitSpot || v == Venue::MexcSpot || v == Venue::OkxSpot
}

/// The market type of a venue: `spot` or `perpetual`.
pub open spec fn venue_market_type(v: Venue) -> Seq<char> {
    if venue_is_spot(v) {
        "spot"@
    } else {
        "perpetual"@
    }
}

/// Every venue, in the order the service lists them.
pub open spec fn all_venues() -> Seq<Venue> {
    seq![
        Venue::BinanceSpot,
        Venue::BinancePerp,
        Venue::BybitSpot,
        Venue::BybitPerp,
        Venue::HyperliquidPerp,
        Venue::LighterPerp,
        Venue::AsterPerp,
        Venue::OndoPerp,
        Venue::MexcSpot,
        Venue::MexcPerp,
        Venue::OkxSpot,
        Venue::OkxPerp,
    ]
}

/// The venue whose identifier is `s`, if there is one.
pub open spec fn venue_by_id(s: Seq<char>) -> Option<Venue> {
    if s == venue_id(Venue::BinanceSpot) {
        Some(Venue::BinanceSpot)
    } else if s == venue_id(Venue::BinancePerp) {
        Some(Venue::BinancePerp)
    } else if s == venue_id(Venue::BybitSpot) {
        Some(Venue::BybitSpot)
    } else if s == venue_id(Venue::BybitPerp) {
        Some(Venue::BybitPerp)
    } else if s == venue_id(Venue::HyperliquidPerp) {
        Some(Venue::HyperliquidPerp)
    } else if s == venue_id(Venue::LighterPerp) {
        Some(Venue::LighterPerp)
    } else if s == venue_id(Venue::AsterPerp) {
        Some(Venue::AsterPerp)
    } else if s == venue_id(Venue::OndoPerp) {
        Some(Venue::OndoPerp)
    } else if s == venue_id(Venue::MexcSpot) {
        Some(Venue::MexcSpot)
    } else if s == venue_id(Venue::MexcPerp) {
        Some(Venue::MexcPerp)
    } else if s == venue_id(Venue::OkxSpot) {
        Some(Venue::OkxSpot)
    } else if s == venue_id(Venue::OkxPerp) {
        Some(Venue::OkxPerp)
    } else {
        None
    }
}

/// The message of the error for an unknown venue identifier.
pub open spec fn unknown_venue_message(value: Seq<char>) -> Seq<char> {
    "unknown venue `"@ + value + "`"@
}

impl Venue {
    /// Every venue, in the order the service lists them.
    pub fn all() -> (res: [Venue; 12])
        ensures
            res@ == all_venues(),
    {
        let res = [
            Venue::BinanceSpot,
            Venue::BinancePerp,
            Venue::BybitSpot,
            Venue::BybitPerp,
            Venue::HyperliquidPerp,
            Venue::LighterPerp,
            Venue::AsterPerp,
            Venue::OndoPerp,
            Venue::MexcSpot,
            Venue::MexcPerp,
            Venue::OkxSpot,
            Venue::OkxPerp,
        ];
        assert(res@ =~= all_venues());
        res
    }

    /// The display label of this venue.
    pub fn label(self) -> (res: &'static str)
        ensures
            res@ == venue_label(self),
    {
        match self {
            Venue::BinanceSpot => "Binance Spot",
            Venue::BinancePerp => "Binance Perpetual",
            Venue::BybitSpot => "Bybit Spot",
            Venue::BybitPerp => "Bybit Perpetual",
            Venue::HyperliquidPerp => "Hyperliquid",
            Venue::LighterPerp => "Lighter",
            Venue::AsterPerp => "Aster",
            Venue::OndoPerp => "Ondo Perps",
            Venue::MexcSpot => "MEXC Spot",
            Venue::MexcPerp => "MEXC Perpetual",
            Venue::OkxSpot => "OKX Spot",
            Venue::OkxPerp => "OKX Perpetual",
        }
    }

    /// The market type of this venue: `spot` or `perpetual`.
    pub fn market_type(self) -> (res: &'static str)
        ensures
            res@ == venue_market_type(self),
    {
        match self {
            Venue::BinanceSpot | Venue::BybitSpot | Venue::MexcSpot | Venue::OkxSpot => "spot",
            _ => "perpetual",
        }
    }

    /// The venue whose identifier is `value`; any other text is a bad request.
    pub fn from_id(value: &str) -> (res: Result<Venue, AppError>)
        ensures
            match res {
                Ok(v) => venue_by_id(value@) == Some(v),
                Err(e) => venue_by_id(value@) is None && (e matches AppError::BadRequest(m)
                    && m@ == unknown_venue_message(value@)),
            },
    {
        let all = Venue::all();
        let mut i: usize = 0;
        while i < 12
            invariant
                i <= 12,
                all@ == all_venues(),
                forall|k: int| 0 <= k < i ==> venue_id(#[trigger] all_venues()[k]) != value@,
            decreases 12 - i,
        {
            let v = all[i];
            if text_equal(v.id(), value) {
                assert(venue_by_id(value@) == Some(v));
                return Ok(v);
            }
            i += 1;
        }
        assert(venue_id(all_venues()[0]) != value@);
        assert(venue_id(all_venues()[1]) != value@);
        assert(venue_id(all_venues()[2]) != value@);
        assert(venue_id(all_venues()[3]) != value@);
        assert(venue_id(all_venues()[4]) != value@);
        assert(venue_id(all_venues()[5]) != value@);
        assert(venue_id(all_venues()[6]) != value@);
        assert(venue_id(all_venues()[7]) != value@);
        assert(venue_id(all_venues()[8]) != value@);
        assert(venue_id(all_venues()[9]) != value@);
        assert(venue_id(all_venues()[10]) != value@);
        assert(venue_id(all_venues()[11]) != value@);
        let mut m = String::new();
        push_text(&mut m, "unknown venue `");
        push_text(&mut m, value);
        push_text(&mut m, "`");
        Err(AppError::BadRequest(m))
    }
}

impl std::str::FromStr for Venue {
    type Err = AppError;

    fn from_str(value: &str) -> (res: Result<Venue, AppError>)
        ensures
            match res {
                Ok(v) => venue_by_id(value@) == Some(v),
                Err(e) => venue_by_id(value@) is None && (e matches AppError::BadRequest(m)
                    && m@ == unknown_venue_message(value@)),
            },
    {
        Venue::from_id(value)
    }
}


/// A candle interval: its name and its length in milliseconds.
#[derive(Debug, Clone, Copy, PartialEq, Eq, Hash)]
pub struct Interval {
    pub name: &'static str,
    pub millis: i64,
}

/// The length in milliseconds of the supported interval named `name`, if any.
pub open spec fn interval_millis_by_name(name: Seq<char>) -> Option<i64> {
    if name == "1m"@ {
        Some(60_000)
    } else if name == "3m"@ {
        Some(180_000)
    } else if name == "5m"@ {
        Some(300_000)
    } else if name == "15m"@ {
        Some(900_000)
    } else if name == "30m"@ {
        Some(1_800_000)
    } else if name == "1h"@ {
        Some(3_600_000)
    } else if name == "2h"@ {
        Some(7_200_000)
    } else if name == "4h"@ {
        Some(14_400_000)
    } else if name == "1d"@ {
        Some(86_400_000)
    } else {
        None
    }
}

/// The message of the error for an unsupported interval name.
pub open spec fn unsupported_interval_message(value: Seq<char>) -> Seq<char> {
    "unsupported interval `"@ + value + "`; use 1m, 3m, 5m, 15m, 30m, 1h, 2h, 4h, or 1d"@
}

impl Interval {
    /// The supported interval named `value`; any other name is a bad request.
    pub fn from_name(value: &str) -> (res: Result<Interval, AppError>)
        ensures
            match res {
                Ok(iv) => iv.name@ == value@ && interval_millis_by_name(value@) == Some(iv.millis),
                Err(e) => interval_millis_by_name(value@) is None && (e matches AppError::BadRequest(m)
                    && m@ == unsupported_interval_message(value@)),
            },
    {
        if text_equal(value, "1m") {
            Ok(Interval { name: "1m", millis: 60_000 })
        } else if text_equal(value, "3m") {
            Ok(Interval { name: "3m", millis: 180_000 })
        } else if text_equal(value, "5m") {
            Ok(Interval { name: "5m", millis: 300_000 })
        } else if text_equal(value, "15m") {
            Ok(Interval { name: "15m", millis: 900_000 })
        } else if text_equal(value, "30m") {
            Ok(Interval { name: "30m", millis: 1_800_000 })
        } else if text_equal(value, "1h") {
            Ok(Interval { name: "1h", millis: 3_600_000 })
        } else if text_equal(value, "2h") {
            Ok(Interval { name: "2h", millis: 7_200_000 })
        } else if text_equal(value, "4h") {
            Ok(Interval { name: "4h", millis: 14_400_000 })
        } else if text_equal(value, "1d") {
            Ok(Interval { name: "1d", millis: 86_400_000 })
        } else {
            let mut m = String::new();
            push_text(&mut m, "unsupported interval `");
            push_text(&mut m, value);
            push_text(&mut m, "`; use 1m, 3m, 5m, 15m, 30m, 1h, 2h, 4h, or 1d");
            Err(AppError::BadRequest(m))
        }
    }
}

impl std::str::FromStr for Interval {
    type Err = AppError;

    fn from_str(value: &str) -> (res: Result<Interval, AppError>)
        ensures
            match res {
                Ok(iv) => iv.name@ == value@ && interval_millis_by_name(value@) == Some(iv.millis),
                Err(e) => interval_millis_by_name(value@) is None && (e matches AppError::BadRequest(m)
                    && m@ == unsupported_interval_message(value@)),
            },
    {
        Interval::from_name(value)
    }
}

/// A market as a venue lists it: its native symbol, its base and quote assets
/// as the venue spells them, and whether it trades.
#[derive(Debug, Clone, PartialEq)]
pub struct Market {
    pub symbol: String,
    pub base: String,
    pub quote: String,
    pub active: bool,
}

/// The canonical `BASE/QUOTE` notation of a market: base and quote trimmed
/// and upper-cased, joined by `/`; one of them alone when the other is blank;
/// the trimmed, upper-cased native symbol when both are blank.
pub open spec fn normalized_text(symbol: Seq<char>, base: Seq<char>, quote: Seq<char>) -> Seq<char> {
    let b = upper_text(trim_text(base));
    let q = upper_text(trim_text(quote));
    if b.len() > 0 && q.len() > 0 {
        b + seq!['/'] + q
    } else if b.len() > 0 {
        b
    } else if q.len() > 0 {
        q
    } else {
        upper_text(trim_text(symbol))
    }
}

impl Market {
    /// The canonical notation of this market.
    pub open spec fn spec_normalized_symbol(&self) -> Seq<char> {
        normalized_text(self.symbol@, self.base@, self.quote@)
    }

    /// The canonical `BASE/QUOTE` notation of this market.
    pub fn normalized_symbol(&self) -> (res: String)
        ensures
            res@ == self.spec_normalized_symbol(),
    {
        let base = trim_upper(self.base.as_str());
        let quote = trim_upper(self.quote.as_str());
        if base.len() > 0 && quote.len() > 0 {
            let mut out = string_from(&base);
            push_text(&mut out, "/");
            push_chars(&mut out, &quote);
            proof {
                reveal_strlit("/");
            }
            out
        } else if base.len() > 0 {
            string_from(&base)
        } else if quote.len() > 0 {
            string_from(&quote)
        } else {
            let symbol = trim_upper(self.symbol.as_str());
            string_from(&symbol)
        }
    }
}

/// A market of one venue in the cross-venue ticker catalog.
#[derive(Debug, Clone, PartialEq)]
pub struct TickerListing {
    pub normalized_symbol: String,
    pub symbol: String,
    pub base: String,
    pub quote: String,
    pub venue: &'static str,
    pub venue_label: &'static str,
    pub market_type: &'static str,
}

/// The text that a ticker search matches against: the compact forms of the
/// canonical notation, native symbol, base, quote and venue label, in that order.
pub open spec fn search_key_text(t: TickerListing) -> Seq<char> {
    compact_text(t.normalized_symbol@) + compact_text(t.symbol@) + compact_text(t.base@)
        + compact_text(t.quote@) + compact_text(t.venue_label@)
}

impl TickerListing {
    /// The catalog entry of `market` listed by `venue`.
    pub fn from_market(venue: Venue, market: &Market) -> (res: TickerListing)
        ensures
            res.normalized_symbol@ == market.spec_normalized_symbol(),
            res.symbol@ == market.symbol@,
            res.base@ == upper_text(trim_text(market.base@)),
            res.quote@ == upper_text(trim_text(market.quote@)),
            res.venue@ == venue_id(venue),
            res.venue_label@ == venue_label(venue),
            res.market_type@ == venue_market_type(venue),
    {
        let base = trim_upper(market.base.as_str());
        let quote = trim_upper(market.quote.as_str());
        TickerListing {
            normalized_symbol: market.normalized_symbol(),
            symbol: market.symbol.clone(),
            base: string_from(&base),
            quote: string_from(&quote),
            venue: venue.id(),
            venue_label: venue.label(),
            market_type: venue.market_type(),
        }
    }

    /// The text that a ticker search matches against.
    pub fn search_key(&self) -> (res: String)
        ensures
            res@ == search_key_text(*self),
    {
        let mut out = String::new();
        let a = compact_chars(self.normalized_symbol.as_str());
        push_chars(&mut out, &a);
        let b = compact_chars(self.symbol.as_str());
        push_chars(&mut out, &b);
        let c = compact_chars(self.base.as_str());
        push_chars(&mut out, &c);
        let d = compact_chars(self.quote.as_str());
        push_chars(&mut out, &d);
        let e = compact_chars(self.venue_label);
        push_chars(&mut out, &e);
        assert(out@ =~= search_key_text(*self));
        out
    }
}

/// The ASCII letters and digits of `value`, upper-cased: the notation-free
/// form in which tickers are compared (`" btc-usdt.swap "` becomes `BTCUSDTSWAP`).
pub fn compact_ticker(value: &str) -> (res: String)
    ensures
        res@ == compact_text(value@),
{
    let chars = compact_chars(value);
    string_from(&chars)
}

/// The canonical name of an asset: its compact form, with wrapped or
/// alternative tickers mapped to the asset they stand for
/// (`XBT`, `WBTC` to `BTC`; `WETH` to `ETH`; `XDG` to `DOGE`).
pub open spec fn canonical_asset_text(value: Seq<char>) -> Seq<char> {
    let c = compact_text(value);
    if c == "XBT"@ || c == "WBTC"@ {
        "BTC"@
    } else if c == "WETH"@ {
        "ETH"@
    } else if c == "XDG"@ {
        "DOGE"@
    } else {
        c
    }
}

/// The canonical name of the asset `value` names.
pub fn canonical_asset(value: &str) -> (res: String)
    ensures
        res@ == canonical_asset_text(value@),
{
    let compact = compact_chars(value);
    let text = string_from(&compact);
    if text_equal(text.as_str(), "XBT") || text_equal(text.as_str(), "WBTC") {
        "BTC".to_owned()
    } else if text_equal(text.as_str(), "WETH") {
        "ETH".to_owned()
    } else if text_equal(text.as_str(), "XDG") {
        "DOGE".to_owned()
    } else {
        text
    }
}

/// `c` with the multiplier `prefix` removed, when `c` starts with it and at
/// least two characters remain.
pub open spec fn strip_multiplier(c: Seq<char>, prefix: Seq<char>) -> Option<Seq<char>> {
    if prefix.is_prefix_of(c) && c.len() >= prefix.len() + 2 {
        Some(c.skip(prefix.len() as int))
    } else {
        None
    }
}

/// The asset that a contract-size ticker such as `1000PEPE` is a multiple of:
/// the first of the multipliers 1000000, 100000, 10000, 1000 that prefixes the
/// compact ticker and leaves at least two characters, removed, and the rest
/// canonicalized.
pub open spec fn contract_unit_text(value: Seq<char>) -> Option<Seq<char>> {
    let c = compact_text(value);
    if let Some(a) = strip_multiplier(c, "1000000"@) {
        Some(canonical_asset_text(a))
    } else if let Some(a) = strip_multiplier(c, "100000"@) {
        Some(canonical_asset_text(a))
    } else if let Some(a) = strip_multiplier(c, "10000"@) {
        Some(canonical_asset_text(a))
    } else if let Some(a) = strip_multiplier(c, "1000"@) {
        Some(canonical_asset_text(a))
    } else {
        None
    }
}

/// `c` with `prefix` removed, when `c` starts with it and at least two
/// characters remain.
fn strip_multiplier_chars(c: &Vec<char>, prefix: &str) -> (res: Option<Vec<char>>)
    ensures
        match res {
            Some(r) => strip_multiplier(c@, prefix@) == Some(r@),
            None => strip_multiplier(c@, prefix@) is None,
        },
{
    let p = chars_of(prefix);
    if c.len() < p.len() || c.len() - p.len() < 2 {
        return None;
    }
    let mut i: usize = 0;
    while i < p.len()
        invariant
            p@ == prefix@,
            p.len() + 2 <= c.len(),
            i <= p.len(),
            forall|k: int| 0 <= k < i ==> c@[k] == p@[k],
        decreases p.len() - i,
    {
        if c[i] != p[i] {
            assert(!(p@ =~= c@.subrange(0, p@.len() as int))) by {
                assert(c@.subrange(0, p@.len() as int)[i as int] == c@[i as int]);
            }
            return None;
        }
        i += 1;
    }
    assert(p@ =~= c@.subrange(0, p@.len() as int));
    let mut rest: Vec<char> = Vec::new();
    let mut j: usize = p.len();
    while j < c.len()
        invariant
            p.len() <= j <= c.len(),
            rest@ == c@.subrange(p.len() as int, j as int),
        decreases c.len() - j,
    {
        rest.push(c[j]);
        j += 1;
        assert(c@.subrange(p.len() as int, j as int) == c@.subrange(p.len() as int, j - 1).push(c@[j - 1]));
    }
    Some(rest)
}

/// The asset a contract-size ticker is a multiple of, if `value` is one.
pub fn contract_unit_asset(value: &str) -> (res: Option<String>)
    ensures
        match res {
            Some(r) => contract_unit_text(value@) == Some(r@),
            None => contract_unit_text(value@) is None,
        },
{
    let compact = compact_chars(value);
    if let Some(a) = strip_multiplier_chars(&compact, "1000000") {
        let t = string_from(&a);
        return Some(canonical_asset(t.as_str()));
    }
    if let Some(a) = strip_multiplier_chars(&compact, "100000") {
        let t = string_from(&a);
        return Some(canonical_asset(t.as_str()));
    }
    if let Some(a) = strip_multiplier_chars(&compact, "10000") {
        let t = string_from(&a);
        return Some(canonical_asset(t.as_str()));
    }
    if let Some(a) = strip_multiplier_chars(&compact, "1000") {
        let t = string_from(&a);
        return Some(canonical_asset(t.as_str()));
    }
    None
}


/// A request for one market's candles over a window of opening times.
#[derive(Debug, Clone, Hash, PartialEq, Eq)]
pub struct CandleRequest {
    pub venue: Venue,
    pub market: String,
    pub interval: Interval,
    pub from: i64,
    pub to: i64,
    pub limit: usize,
}

/// What the service tells clients about one venue.
#[derive(Debug, Clone)]
pub struct VenueInfo {
    pub id: &'static str,
    pub label: &'static str,
    pub market_type: &'static str,
    pub intervals: &'static [&'static str],
    pub symbol_example: &'static str,
}

/// An example of how a venue spells its market symbols.
pub open spec fn venue_symbol_example(v: Venue) -> Seq<char> {
    match v {
        Venue::HyperliquidPerp | Venue::LighterPerp => "BTC"@,
        Venue::OndoPerp => "BTC-USD.P"@,
        Venue::MexcPerp => "BTC_USDT"@,
        Venue::OkxSpot => "BTC-USDT"@,
        Venue::OkxPerp => "BTC-USDT-SWAP"@,
        _ => "BTCUSDT"@,
    }
}

impl VenueInfo {
    /// The description of `venue`.
    pub fn of(venue: Venue) -> (res: VenueInfo)
        ensures
            res.id@ == venue_id(venue),
            res.label@ == venue_label(venue),
            res.market_type@ == venue_market_type(venue),
            res.intervals@.map_values(|s: &str| s@) == venue_intervals(venue),
            res.symbol_example@ == venue_symbol_example(venue),
    {
        let symbol_example = match venue {
            Venue::HyperliquidPerp | Venue::LighterPerp => "BTC",
            Venue::OndoPerp => "BTC-USD.P",
            Venue::MexcPerp => "BTC_USDT",
            Venue::OkxSpot => "BTC-USDT",
            Venue::OkxPerp => "BTC-USDT-SWAP",
            _ => "BTCUSDT",
        };
        VenueInfo {
            id: venue.id(),
            label: venue.label(),
            market_type: venue.market_type(),
            intervals: venue.intervals(),
            symbol_example,
        }
    }
}

/// The description of every venue, in the order the service lists them.
pub fn venue_catalog() -> (res: Vec<VenueInfo>)
    ensures
        res@.len() == 12,
        forall|k: int| 0 <= k < 12 ==> (#[trigger] res@[k]).id@ == venue_id(all_venues()[k])
            && res@[k].label@ == venue_label(all_venues()[k])
            && res@[k].market_type@ == venue_market_type(all_venues()[k])
            && res@[k].intervals@.map_values(|s: &str| s@) == venue_intervals(all_venues()[k])
            && res@[k].symbol_example@ == venue_symbol_example(all_venues()[k]),
{
    let all = Venue::all();
    let mut res: Vec<VenueInfo> = Vec::new();
    let mut i: usize = 0;
    while i < 12
        invariant
            i <= 12,
            all@ == all_venues(),
            res@.len() == i,
            forall|k: int| 0 <= k < i ==> (#[trigger] res@[k]).id@ == venue_id(all_venues()[k])
                && res@[k].label@ == venue_label(all_venues()[k])
                && res@[k].market_type@ == venue_market_type(all_venues()[k])
                && res@[k].intervals@.map_values(|s: &str| s@) == venue_intervals(all_venues()[k])
                && res@[k].symbol_example@ == venue_symbol_example(all_venues()[k]),
        decreases 12 - i,
    {
        res.push(VenueInfo::of(all[i]));
        i += 1;
    }
    res
}

} // verus!
