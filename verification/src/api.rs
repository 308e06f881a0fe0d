//! Validation of the query parameters of the HTTP API and the matching and
//! ranking of market searches.
use vstd::prelude::*;
use crate::error::AppError;
use crate::model::{
    CandleRequest, Interval, Market, Venue, canonical_asset, canonical_asset_text,
    interval_millis_by_name, normalized_text, unknown_venue_message, unsupported_interval_message,
    venue_by_id, venue_id,
};
use crate::text::{
    all_ascii, chars_contain, chars_equal, chars_of, compact_chars, compact_text, contains_text,
    equal_ignoring_ascii_case, is_ascii_alnum, is_ascii_char, is_ascii_control, push_text, text_equal,
    text_equal_ignoring_ascii_case, trim_chars, trim_text,
};
use crate::adapters::{mexc_contract_symbol, ondo_history_symbol, replace_dash};

verus! {

/// The largest number of candles one request may ask for.
pub const MAX_LIMIT: usize = 1500;

/// The longest window one request may span: 366 days in milliseconds.
pub const MAX_RANGE_MS: i64 = 31_622_400_000;

/// The largest number of source intervals one window may span.
pub const MAX_SOURCE_INTERVALS: i64 = 20_000;

/// The `Cache-Control` value of catalog and search responses: clients may
/// reuse an answer for 30 seconds and serve it stale while revalidating for 300.
pub fn ticker_cache_control() -> (res: &'static str)
    ensures
        res@ == "public, max-age=30, stale-while-revalidate=300"@,
{
    "public, max-age=30, stale-while-revalidate=300"
}

/// The default number of search results.
pub fn default_market_limit() -> (res: usize)
    ensures
        res == 200,
{
    200
}

/// The default number of candles.
pub fn default_candle_limit() -> (res: usize)
    ensures
        res == 1000,
{
    1000
}

/// A character allowed in a market identifier: an ASCII letter or digit or one of `- _ . : / @`.
pub open spec fn is_market_char(c: char) -> bool {
    is_ascii_alnum(c) || c == '-' || c == '_' || c == '.' || c == ':' || c == '/' || c == '@'
}

/// `market` is 1 to 64 allowed characters.
pub open spec fn market_is_valid(market: Seq<char>) -> bool {
    &&& 0 < market.len() <= 64
    &&& forall|i: int| 0 <= i < market.len() ==> is_market_char(#[trigger] market[i])
}

/// The message of the error for an invalid market identifier.
pub open spec fn invalid_market_message() -> Seq<char> {
    "market must be 1–64 ASCII letters, numbers, or - _ . : / @"@
}

/// Whether `c` may appear in a market identifier.
fn char_is_market_char(c: char) -> (res: bool)
    ensures
        res == is_market_char(c),
{
    ('0' <= c && c <= '9') || ('A' <= c && c <= 'Z') || ('a' <= c && c <= 'z') || c == '-' || c
        == '_' || c == '.' || c == ':' || c == '/' || c == '@'
}

/// Accepts a market identifier of 1 to 64 ASCII letters, digits or `- _ . : / @`,
/// which keeps it safe to place in an upstream URL.
pub fn validate_market(market: &str) -> (res: Result<(), AppError>)
    ensures
        match res {
            Ok(()) => market_is_valid(market@),
            Err(e) => !market_is_valid(market@) && (e matches AppError::BadRequest(m) && m@
                == invalid_market_message()),
        },
{
    let chars = chars_of(market);
    let mut ok = chars.len() > 0 && chars.len() <= 64;
    let mut i: usize = 0;
    while i < chars.len()
        invariant
            i <= chars.len(),
            chars@ == market@,
            ok == (0 < market@.len() <= 64 && forall|k: int| 0 <= k < i ==> is_market_char(
                #[trigger] market@[k],
            )),
        decreases chars.len() - i,
    {
        if !char_is_market_char(chars[i]) {
            ok = false;
        }
        i += 1;
    }
    if ok {
        Ok(())
    } else {
        Err(AppError::BadRequest("market must be 1–64 ASCII letters, numbers, or - _ . : / @".to_owned()))
    }
}

/// The message of the first window check that `from`, `to`, `limit` and an
/// interval of `millis` milliseconds fail, or `None` when all pass.
pub open spec fn window_problem(from: i64, to: i64, limit: usize, millis: i64) -> Option<Seq<char>> {
    if from < 0 || to <= from {
        Some("`to` must be later than non-negative `from` (Unix milliseconds)"@)
    } else if to - from > MAX_RANGE_MS {
        Some("requested range cannot exceed 366 days"@)
    } else if limit == 0 || limit > MAX_LIMIT {
        Some("limit must be between 1 and 1500"@)
    } else if (to - from) / (millis as int) > MAX_SOURCE_INTERVALS {
        Some("range contains more than 20,000 source intervals; select a wider interval"@)
    } else {
        None
    }
}

/// Accepts a non-empty window of non-negative opening times of at most 366 days
/// and 20,000 intervals, with a limit of 1 to 1500 candles.
pub fn validate_window(from: i64, to: i64, limit: usize, interval: Interval) -> (res: Result<(), AppError>)
    requires
        interval.millis > 0,
    ensures
        match res {
            Ok(()) => window_problem(from, to, limit, interval.millis) is None,
            Err(e) => e matches AppError::BadRequest(m) && window_problem(from, to, limit, interval.millis)
                == Some(m@),
        },
{
    if from < 0 || to <= from {
        return Err(AppError::BadRequest(
            "`to` must be later than non-negative `from` (Unix milliseconds)".to_owned(),
        ));
    }
    if to - from > MAX_RANGE_MS {
        return Err(AppError::BadRequest("requested range cannot exceed 366 days".to_owned()));
    }
    if limit == 0 || limit > MAX_LIMIT {
        return Err(AppError::BadRequest("limit must be between 1 and 1500".to_owned()));
    }
    if (to - from) / interval.millis > MAX_SOURCE_INTERVALS {
        return Err(AppError::BadRequest(
            "range contains more than 20,000 source intervals; select a wider interval".to_owned(),
        ));
    }
    Ok(())
}

/// The message of the first search check that `query` and `limit` fail, or
/// `None` when both pass: a limit of 1 to 1000, and a query of at most 64
/// printable ASCII characters that, unless blank, holds a letter or digit.
pub open spec fn search_problem(query: Seq<char>, limit: usize) -> Option<Seq<char>> {
    if limit == 0 || limit > 1000 {
        Some("ticker limit must be between 1 and 1000"@)
    } else if query.len() > 64 || !all_ascii(query) || (exists|i: int|
        0 <= i < query.len() && is_ascii_control(#[trigger] query[i])) || (trim_text(query).len() > 0
        && compact_text(query).len() == 0) {
        Some(
            "ticker query must be at most 64 printable ASCII characters and include a letter or number"@,
        )
    } else {
        None
    }
}

/// Accepts a search limit of 1 to 1000 and a query of at most 64 printable
/// ASCII characters that, unless blank, holds a letter or digit.
pub fn validate_search(query: &str, limit: usize) -> (res: Result<(), AppError>)
    ensures
        match res {
            Ok(()) => search_problem(query@, limit) is None,
            Err(e) => e matches AppError::BadRequest(m) && search_problem(query@, limit) == Some(m@),
        },
{
    if limit == 0 || limit > 1000 {
        return Err(AppError::BadRequest("ticker limit must be between 1 and 1000".to_owned()));
    }
    let chars = chars_of(query);
    let mut ascii = true;
    let mut control = false;
    let mut i: usize = 0;
    while i < chars.len()
        invariant
            i <= chars.len(),
            chars@ == query@,
            ascii == (forall|k: int| 0 <= k < i ==> is_ascii_char(#[trigger] query@[k])),
            control == (exists|k: int| 0 <= k < i && is_ascii_control(#[trigger] query@[k])),
        decreases chars.len() - i,
    {
        let u: u32 = chars[i] as u32;
        if u >= 0x80 {
            ascii = false;
        }
        if u < 0x20 || u == 0x7F {
            control = true;
        }
        i += 1;
    }
    let trimmed = trim_chars(&chars);
    let compact = compact_chars(query);
    if chars.len() > 64 || !ascii || control || (trimmed.len() > 0 && compact.len() == 0) {
        return Err(AppError::BadRequest(
            "ticker query must be at most 64 printable ASCII characters and include a letter or number".to_owned(),
        ));
    }
    Ok(())
}

/// Whether a search for the compact `needle` finds `market`: the needle is
/// empty, or it occurs in the compact form of the native symbol, base, quote
/// or canonical notation.
pub open spec fn market_matches_text(market: Market, needle: Seq<char>) -> bool {
    ||| needle.len() == 0
    ||| contains_text(compact_text(market.symbol@), needle)
    ||| contains_text(compact_text(market.base@), needle)
    ||| contains_text(compact_text(market.quote@), needle)
    ||| contains_text(
        compact_text(normalized_text(market.symbol@, market.base@, market.quote@)),
        needle,
    )
}

/// Whether a search for the compact `needle` finds `market`.
pub fn market_matches(market: &Market, needle: &str) -> (res: bool)
    ensures
        res == market_matches_text(*market, needle@),
{
    let n = chars_of(needle);
    if n.len() == 0 {
        return true;
    }
    let normalized = market.normalized_symbol();
    let a = compact_chars(market.symbol.as_str());
    let b = compact_chars(market.base.as_str());
    let c = compact_chars(market.quote.as_str());
    let d = compact_chars(normalized.as_str());
    chars_contain(&a, &n) || chars_contain(&b, &n) || chars_contain(&c, &n) || chars_contain(&d, &n)
}

/// The relevance rank of a search hit, lower first: 4 when there is no
/// needle; 0 when the compact symbol or canonical notation equals it; 1 when
/// the compact base does; 2 when the compact symbol or notation starts with
/// it; 3 otherwise.
pub open spec fn search_rank_of(symbol: Seq<char>, normalized: Seq<char>, base: Seq<char>, needle: Seq<char>) -> u8 {
    let s = compact_text(symbol);
    let n = compact_text(normalized);
    let b = compact_text(base);
    if needle.len() == 0 {
        4
    } else if s == needle || n == needle {
        0
    } else if b == needle {
        1
    } else if needle.is_prefix_of(s) || needle.is_prefix_of(n) {
        2
    } else {
        3
    }
}

/// Whether `p` is a prefix of `s`.
pub fn chars_start_with(s: &Vec<char>, p: &Vec<char>) -> (res: bool)
    ensures
        res == p@.is_prefix_of(s@),
{
    if p.len() > s.len() {
        return false;
    }
    let mut i: usize = 0;
    while i < p.len()
        invariant
            p.len() <= s.len(),
            i <= p.len(),
            forall|k: int| 0 <= k < i ==> s@[k] == p@[k],
        decreases p.len() - i,
    {
        if s[i] != p[i] {
            assert(s@.subrange(0, p@.len() as int)[i as int] == s@[i as int]);
            return false;
        }
        i += 1;
    }
    assert(p@ =~= s@.subrange(0, p@.len() as int));
    true
}

/// The relevance rank of a search hit, lower first.
pub fn search_rank(symbol: &str, normalized: &str, base: &str, needle: &str) -> (res: u8)
    ensures
        res == search_rank_of(symbol@, normalized@, base@, needle@),
{
    let n = chars_of(needle);
    if n.len() == 0 {
        return 4;
    }
    let s = compact_chars(symbol);
    let m = compact_chars(normalized);
    let b = compact_chars(base);
    if chars_equal(&s, &n) || chars_equal(&m, &n) {
        0
    } else if chars_equal(&b, &n) {
        1
    } else if chars_start_with(&s, &n) || chars_start_with(&m, &n) {
        2
    } else {
        3
    }
}


/// The query of a candle request, as the client sent it.
#[derive(Debug, Clone)]
pub struct CandleQuery {
    pub venue: String,
    pub market: String,
    pub interval: String,
    pub from: i64,
    pub to: i64,
    pub limit: usize,
}

/// The message of the first check that a candle query fails, in the order
/// market, venue, interval, window; `None` when all pass.
pub open spec fn candle_query_problem(venue: Seq<char>, market: Seq<char>, interval: Seq<char>, from: i64, to: i64, limit: usize) -> Option<Seq<char>> {
    if !market_is_valid(market) {
        Some(invalid_market_message())
    } else if venue_by_id(venue) is None {
        Some(unknown_venue_message(venue))
    } else if interval_millis_by_name(interval) is None {
        Some(unsupported_interval_message(interval))
    } else {
        window_problem(from, to, limit, interval_millis_by_name(interval).unwrap())
    }
}

impl CandleQuery {
    /// The validated candle request that this query asks for.
    pub fn parse(self) -> (res: Result<CandleRequest, AppError>)
        ensures
            match res {
                Ok(r) => candle_query_problem(self.venue@, self.market@, self.interval@, self.from, self.to, self.limit) is None
                    && venue_by_id(self.venue@) == Some(r.venue)
                    && r.market@ == self.market@
                    && r.interval.name@ == self.interval@
                    && interval_millis_by_name(self.interval@) == Some(r.interval.millis)
                    && r.from == self.from && r.to == self.to && r.limit == self.limit,
                Err(e) => e matches AppError::BadRequest(m)
                    && candle_query_problem(self.venue@, self.market@, self.interval@, self.from, self.to, self.limit) == Some(m@),
            },
    {
        validate_market(self.market.as_str())?;
        let venue = Venue::from_id(self.venue.as_str())?;
        let interval = Interval::from_name(self.interval.as_str())?;
        validate_window(self.from, self.to, self.limit, interval)?;
        Ok(CandleRequest {
            venue,
            market: self.market,
            interval,
            from: self.from,
            to: self.to,
            limit: self.limit,
        })
    }
}

/// The query of a comparison of two markets, as the client sent it
/// (without its floating-point scale).
#[derive(Debug, Clone)]
pub struct CompareQuery {
    pub left_venue: String,
    pub left_market: String,
    pub right_venue: String,
    pub right_market: String,
    pub interval: String,
    pub from: i64,
    pub to: i64,
    pub limit: usize,
}

/// The message of the first check that a comparison query fails, in the
/// order left market, right market, interval, window, left venue, right
/// venue; `None` when all pass.
pub open spec fn compare_query_problem(q: CompareQuery) -> Option<Seq<char>> {
    if !market_is_valid(q.left_market@) {
        Some(invalid_market_message())
    } else if !market_is_valid(q.right_market@) {
        Some(invalid_market_message())
    } else if interval_millis_by_name(q.interval@) is None {
        Some(unsupported_interval_message(q.interval@))
    } else if window_problem(q.from, q.to, q.limit, interval_millis_by_name(q.interval@).unwrap()) is Some {
        window_problem(q.from, q.to, q.limit, interval_millis_by_name(q.interval@).unwrap())
    } else if venue_by_id(q.left_venue@) is None {
        Some(unknown_venue_message(q.left_venue@))
    } else if venue_by_id(q.right_venue@) is None {
        Some(unknown_venue_message(q.right_venue@))
    } else {
        None
    }
}

/// `r` asks for `market` of the venue named `venue` over the query's interval and window.
pub open spec fn requests_leg(r: CandleRequest, q: CompareQuery, venue: Seq<char>, market: Seq<char>) -> bool {
    &&& venue_by_id(venue) == Some(r.venue)
    &&& r.market@ == market
    &&& r.interval.name@ == q.interval@
    &&& interval_millis_by_name(q.interval@) == Some(r.interval.millis)
    &&& r.from == q.from && r.to == q.to && r.limit == q.limit
}

impl CompareQuery {
    /// The validated candle requests of the left and right legs.
    pub fn parse(self) -> (res: Result<(CandleRequest, CandleRequest), AppError>)
        ensures
            match res {
                Ok((l, r)) => compare_query_problem(self) is None
                    && requests_leg(l, self, self.left_venue@, self.left_market@)
                    && requests_leg(r, self, self.right_venue@, self.right_market@),
                Err(e) => e matches AppError::BadRequest(m) && compare_query_problem(self) == Some(m@),
            },
    {
        let ghost q = self;
        validate_market(self.left_market.as_str())?;
        validate_market(self.right_market.as_str())?;
        let interval = Interval::from_name(self.interval.as_str())?;
        validate_window(self.from, self.to, self.limit, interval)?;
        let left_venue = Venue::from_id(self.left_venue.as_str())?;
        let right_venue = Venue::from_id(self.right_venue.as_str())?;
        let left = CandleRequest {
            venue: left_venue,
            market: self.left_market,
            interval,
            from: self.from,
            to: self.to,
            limit: self.limit,
        };
        let right = CandleRequest {
            venue: right_venue,
            market: self.right_market,
            interval,
            from: self.from,
            to: self.to,
            limit: self.limit,
        };
        Ok((left, right))
    }
}


/// Whether the listed symbol `listed` is the market that a candle request
/// for `requested` on `venue` reaches, the way the venue's candle route
/// resolves it: Lighter ignores ASCII case, Ondo drops dashes, MEXC futures
/// turn dashes into underscores, and the other venues take the symbol as it is.
pub open spec fn resolves_to(venue: Venue, listed: Seq<char>, requested: Seq<char>) -> bool {
    match venue {
        Venue::LighterPerp => equal_ignoring_ascii_case(listed, requested),
        Venue::OndoPerp => replace_dash(listed, None) == replace_dash(requested, None),
        Venue::MexcPerp => replace_dash(listed, Some('_')) == replace_dash(requested, Some('_')),
        _ => listed == requested,
    }
}

/// Whether `listed` resolves to the requested market on `venue`.
pub fn market_resolves(venue: Venue, listed: &str, requested: &str) -> (res: bool)
    ensures
        res == resolves_to(venue, listed@, requested@),
{
    match venue {
        Venue::LighterPerp => text_equal_ignoring_ascii_case(listed, requested),
        Venue::OndoPerp => {
            let a = ondo_history_symbol(listed);
            let b = ondo_history_symbol(requested);
            text_equal(a.as_str(), b.as_str())
        },
        Venue::MexcPerp => {
            let a = mexc_contract_symbol(listed);
            let b = mexc_contract_symbol(requested);
            text_equal(a.as_str(), b.as_str())
        },
        _ => text_equal(listed, requested),
    }
}

/// Where the first market of `markets` that the request for `symbol` on `venue` reaches occurs.
pub open spec fn market_position(venue: Venue, markets: Seq<Market>, symbol: Seq<char>) -> Option<int> {
    if exists|i: int| 0 <= i < markets.len() && resolves_to(venue, markets[i].symbol@, symbol) {
        Some(choose|i: int| 0 <= i < markets.len() && resolves_to(venue, markets[i].symbol@, symbol)
            && forall|j: int| 0 <= j < i ==> !resolves_to(venue, markets[j].symbol@, symbol))
    } else {
        None
    }
}

/// The position of the first market of `markets` that the request for `symbol` on `venue` reaches.
pub fn find_market(venue: Venue, markets: &Vec<Market>, symbol: &str) -> (res: Option<usize>)
    ensures
        match res {
            Some(i) => i < markets.len() && resolves_to(venue, markets@[i as int].symbol@, symbol@)
                && forall|j: int| 0 <= j < i ==> !resolves_to(venue, markets@[j].symbol@, symbol@),
            None => forall|j: int| 0 <= j < markets.len() ==> !resolves_to(venue, markets@[j].symbol@, symbol@),
        },
{
    let mut i: usize = 0;
    while i < markets.len()
        invariant
            i <= markets.len(),
            forall|j: int| 0 <= j < i ==> !resolves_to(venue, markets@[j].symbol@, symbol@),
        decreases markets.len() - i,
    {
        if market_resolves(venue, markets[i].symbol.as_str(), symbol) {
            return Some(i);
        }
        i += 1;
    }
    None
}

/// The message of the error for comparing markets of different base assets.
pub open spec fn base_mismatch_message(left: Seq<char>, right: Seq<char>) -> Seq<char> {
    "left and right markets have different base assets: "@ + left + " vs "@ + right
}

/// Two bases that name different canonical assets (a blank base names the
/// empty asset, which differs from every named one).
pub open spec fn canonical_bases_differ(left: Seq<char>, right: Seq<char>) -> bool {
    canonical_asset_text(left) != canonical_asset_text(right)
}

/// A comparison needs both legs on one canonical base asset: markets whose
/// canonical bases differ are a bad request.
pub fn ensure_matching_bases(left: &Market, right: &Market) -> (res: Result<(), AppError>)
    ensures
        match res {
            Ok(()) => !canonical_bases_differ(left.base@, right.base@),
            Err(e) => canonical_bases_differ(left.base@, right.base@) && (e matches AppError::BadRequest(m)
                && m@ == base_mismatch_message(canonical_asset_text(left.base@), canonical_asset_text(right.base@))),
        },
{
    let a = canonical_asset(left.base.as_str());
    let b = canonical_asset(right.base.as_str());
    if text_equal(a.as_str(), b.as_str()) {
        return Ok(());
    }
    let mut m = String::new();
    push_text(&mut m, "left and right markets have different base assets: ");
    push_text(&mut m, a.as_str());
    push_text(&mut m, " vs ");
    push_text(&mut m, b.as_str());
    Err(AppError::BadRequest(m))
}

/// The message of the error for a market that its venue does not list.
pub open spec fn unlisted_market_message(venue: Venue, symbol: Seq<char>) -> Seq<char> {
    venue_id(venue) + " does not list market `"@ + symbol + "`"@
}

/// `res` is the answer of the base check of a comparison of market
/// `left_symbol` of `left_venue` (listing `left`) with `right_symbol` of
/// `right_venue` (listing `right`): a symbol that no listed market of its
/// venue resolves to (`resolves_to`) is a bad request, the left one first;
/// else the first listings the two symbols resolve to must share a canonical
/// base.
pub open spec fn is_comparison_bases_result(
    res: Result<(), AppError>,
    left_venue: Venue,
    left: Seq<Market>,
    left_symbol: Seq<char>,
    right_venue: Venue,
    right: Seq<Market>,
    right_symbol: Seq<char>,
) -> bool {
    match market_position(left_venue, left, left_symbol) {
        None => res matches Err(AppError::BadRequest(m)) && m@ == unlisted_market_message(left_venue, left_symbol),
        Some(i) => match market_position(right_venue, right, right_symbol) {
            None => res matches Err(AppError::BadRequest(m)) && m@ == unlisted_market_message(right_venue, right_symbol),
            Some(j) => match res {
                Ok(()) => !canonical_bases_differ(left[i].base@, right[j].base@),
                Err(e) => canonical_bases_differ(left[i].base@, right[j].base@) && (e matches AppError::BadRequest(m)
                    && m@ == base_mismatch_message(canonical_asset_text(left[i].base@), canonical_asset_text(right[j].base@))),
            },
        },
    }
}

/// The error for a market that its venue does not list.
fn unlisted_market(venue: Venue, symbol: &str) -> (res: AppError)
    ensures
        res matches AppError::BadRequest(m) && m@ == unlisted_market_message(venue, symbol@),
{
    let mut m = String::new();
    push_text(&mut m, venue.id());
    push_text(&mut m, " does not list market `");
    push_text(&mut m, symbol);
    push_text(&mut m, "`");
    AppError::BadRequest(m)
}

/// The base-asset check of a comparison against the venues' market lists:
/// each leg's symbol must resolve to a market its venue lists, and the first
/// listings the two symbols resolve to must share a canonical base.
pub fn check_comparison_bases(
    left_venue: Venue,
    left_markets: &Vec<Market>,
    left_symbol: &str,
    right_venue: Venue,
    right_markets: &Vec<Market>,
    right_symbol: &str,
) -> (res: Result<(), AppError>)
    ensures
        is_comparison_bases_result(res, left_venue, left_markets@, left_symbol@, right_venue, right_markets@, right_symbol@),
{
    let i = find_market(left_venue, left_markets, left_symbol);
    let j = find_market(right_venue, right_markets, right_symbol);
    proof {
        lemma_market_position(left_venue, left_markets@, left_symbol@, i);
        lemma_market_position(right_venue, right_markets@, right_symbol@, j);
    }
    match i {
        None => Err(unlisted_market(left_venue, left_symbol)),
        Some(i) => match j {
            None => Err(unlisted_market(right_venue, right_symbol)),
            Some(j) => ensure_matching_bases(&left_markets[i], &right_markets[j]),
        },
    }
}

/// The base-asset check of a comparison given the outcome of fetching both
/// venues' market lists: when either list could not be had the check cannot
/// be made and the comparison goes ahead, as it would without the lists;
/// else `check_comparison_bases` decides.
pub fn check_comparison_listings(
    left_venue: Venue,
    left: &Result<Vec<Market>, AppError>,
    left_symbol: &str,
    right_venue: Venue,
    right: &Result<Vec<Market>, AppError>,
    right_symbol: &str,
) -> (res: Result<(), AppError>)
    ensures
        match (left, right) {
            (Ok(l), Ok(r)) => is_comparison_bases_result(res, left_venue, l@, left_symbol@, right_venue, r@, right_symbol@),
            _ => res is Ok,
        },
{
    match left {
        Err(_) => Ok(()),
        Ok(l) => match right {
            Err(_) => Ok(()),
            Ok(r) => check_comparison_bases(left_venue, l, left_symbol, right_venue, r, right_symbol),
        },
    }
}

/// The answer of `find_market` is `market_position`.
proof fn lemma_market_position(venue: Venue, markets: Seq<Market>, symbol: Seq<char>, found: Option<usize>)
    requires
        match found {
            Some(i) => i < markets.len() && resolves_to(venue, markets[i as int].symbol@, symbol)
                && forall|j: int| 0 <= j < i ==> !resolves_to(venue, markets[j].symbol@, symbol),
            None => forall|j: int| 0 <= j < markets.len() ==> !resolves_to(venue, markets[j].symbol@, symbol),
        },
    ensures
        match found {
            Some(i) => market_position(venue, markets, symbol) == Some(i as int),
            None => market_position(venue, markets, symbol) is None,
        },
{
    if let Some(i) = found {
        assert(0 <= i < markets.len() && resolves_to(venue, markets[i as int].symbol@, symbol));
        let k = choose|k: int| 0 <= k < markets.len() && resolves_to(venue, markets[k].symbol@, symbol)
            && forall|j: int| 0 <= j < k ==> !resolves_to(venue, markets[j].symbol@, symbol);
        assert(k == i as int) by {
            if k < i as int {
                assert(!resolves_to(venue, markets[k].symbol@, symbol));
            } else if k > i as int {
                assert(!resolves_to(venue, markets[i as int].symbol@, symbol));
            }
        }
    }
}

} // verus!
