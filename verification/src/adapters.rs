//! What the venue adapters decide without I/O: which intervals a venue
//! serves, how each venue spells an interval, how a venue's market rows
//! become markets, how far back a window may reach, and when paging stops.
use vstd::prelude::*;
use crate::error::AppError;
use crate::urls::{build_url, decimal_i64, decimal_text, decimal_usize, pair_texts, url_text};
use crate::model::{CandleRequest, Interval, Market, Venue, venue_id, venue_intervals};
use crate::json::{JsonDoc, json_outcome, parse_json};
use crate::text::{equal_ignoring_ascii_case, text_equal_ignoring_ascii_case, chars_of, first_index_of, find_first, find_last, last_index_of, push_chars, push_text, string_from, sub_chars, text_equal};

verus! {

/// `names` joined by `sep`.
pub open spec fn join_texts(names: Seq<Seq<char>>, sep: Seq<char>) -> Seq<char>
    decreases names.len(),
{
    if names.len() == 0 {
        Seq::empty()
    } else if names.len() == 1 {
        names[0]
    } else {
        join_texts(names.drop_last(), sep) + sep + names.last()
    }
}

/// The message of the error for an interval that a venue does not serve.
pub open spec fn unsupported_venue_interval_message(venue: Venue, name: Seq<char>) -> Seq<char> {
    venue_id(venue) + " does not support interval "@ + name + "; supported: "@ + join_texts(
        venue_intervals(venue),
        ", "@,
    )
}

/// Accepts an interval that `venue` serves; any other is a bad request that
/// lists the ones it does.
pub fn ensure_interval(venue: Venue, interval: Interval) -> (res: Result<(), AppError>)
    ensures
        match res {
            Ok(()) => venue_intervals(venue).contains(interval.name@),
            Err(e) => !venue_intervals(venue).contains(interval.name@) && (e matches AppError::BadRequest(m)
                && m@ == unsupported_venue_interval_message(venue, interval.name@)),
        },
{
    let names = venue.intervals();
    let ghost view = names@.map_values(|s: &str| s@);
    let mut i: usize = 0;
    while i < names.len()
        invariant
            i <= names@.len(),
            view == names@.map_values(|s: &str| s@),
            view == venue_intervals(venue),
            forall|k: int| 0 <= k < i ==> view[k] != interval.name@,
        decreases names.len() - i,
    {
        if text_equal(names[i], interval.name) {
            assert(view[i as int] == interval.name@);
            return Ok(());
        }
        i += 1;
    }
    let mut m = String::new();
    push_text(&mut m, venue.id());
    push_text(&mut m, " does not support interval ");
    push_text(&mut m, interval.name);
    push_text(&mut m, "; supported: ");
    let mut j: usize = 0;
    while j < names.len()
        invariant
            j <= names@.len(),
            view == names@.map_values(|s: &str| s@),
            m@ == venue_id(venue) + " does not support interval "@ + interval.name@ + "; supported: "@
                + join_texts(view.take(j as int), ", "@),
        decreases names.len() - j,
    {
        let ghost before = m@;
        if j > 0 {
            push_text(&mut m, ", ");
        }
        push_text(&mut m, names[j]);
        assert(view.take(j + 1).drop_last() == view.take(j as int));
        assert(view.take(j + 1).last() == names@[j as int]@);
        if j == 0 {
            assert(join_texts(view.take(1), ", "@) == view.take(1)[0]);
        }
        j += 1;
    }
    assert(view.take(names@.len() as int) == view);
    Err(AppError::BadRequest(m))
}

/// The error that reports a failure of `venue`'s upstream service.
pub fn upstream(venue: Venue, message: String) -> (res: AppError)
    ensures
        res matches AppError::Upstream { venue: v, message: m } && v@ == venue_id(venue) && m@
            == message@,
{
    AppError::Upstream { venue: venue.id().to_owned(), message }
}

/// The largest upstream response body the service reads: 12 MiB.
pub const MAX_UPSTREAM_BYTES: u64 = 12_582_912;

/// The message of the error for an upstream response over the size limit.
pub open spec fn oversize_message() -> Seq<char> {
    "response exceeded the 12 MiB safety limit"@
}

/// A declared response length over the size limit.
pub open spec fn declared_oversize(content_length: Option<u64>) -> bool {
    match content_length {
        Some(n) => n > MAX_UPSTREAM_BYTES,
        None => false,
    }
}

/// `e` is the upstream error of `venue` with message `message`.
pub open spec fn is_upstream_error(e: AppError, venue: Venue, message: Seq<char>) -> bool {
    e matches AppError::Upstream { venue: v, message: m } && v@ == venue_id(venue) && m@ == message
}

/// Refuses a response whose declared length exceeds the size limit, before its body is read.
pub fn check_declared_length(venue: Venue, content_length: Option<u64>) -> (res: Result<(), AppError>)
    ensures
        match res {
            Ok(()) => !declared_oversize(content_length),
            Err(e) => declared_oversize(content_length) && is_upstream_error(e, venue, oversize_message()),
        },
{
    let over = match content_length {
        Some(n) => n > MAX_UPSTREAM_BYTES,
        None => false,
    };
    if over {
        Err(upstream(venue, "response exceeded the 12 MiB safety limit".to_owned()))
    } else {
        Ok(())
    }
}

/// At most the first 240 characters of `t`.
pub open spec fn excerpt(t: Seq<char>) -> Seq<char> {
    if t.len() <= 240 {
        t
    } else {
        t.take(240)
    }
}

/// A success status: `2xx`.
pub open spec fn is_success_status(status: u16) -> bool {
    200 <= status && status <= 299
}

/// The message of the error for a non-success upstream status: the status
/// as `code reason` and the start of the body.
pub open spec fn status_message(status_text: Seq<char>, body_text: Seq<char>) -> Seq<char> {
    "HTTP "@ + status_text + ": "@ + excerpt(body_text)
}

/// Checks a received upstream response: a body over the size limit is
/// refused first, then a non-success status, reported with `status_text`
/// (`code reason`) and the first 240 characters of the body as text.
pub fn check_upstream_body(venue: Venue, status: u16, status_text: &str, body_len: usize, body_text: &str) -> (res: Result<(), AppError>)
    ensures
        match res {
            Ok(()) => body_len <= MAX_UPSTREAM_BYTES && is_success_status(status),
            Err(e) => if body_len > MAX_UPSTREAM_BYTES {
                is_upstream_error(e, venue, oversize_message())
            } else {
                !is_success_status(status) && is_upstream_error(e, venue, status_message(status_text@, body_text@))
            },
        },
{
    if body_len as u64 > MAX_UPSTREAM_BYTES {
        return Err(upstream(venue, "response exceeded the 12 MiB safety limit".to_owned()));
    }
    if 200 <= status && status <= 299 {
        return Ok(());
    }
    let chars = chars_of(body_text);
    let end = if chars.len() <= 240 { chars.len() } else { 240 };
    let part = sub_chars(&chars, 0, end);
    assert(part@ == excerpt(body_text@));
    let mut m = String::new();
    push_text(&mut m, "HTTP ");
    push_text(&mut m, status_text);
    push_text(&mut m, ": ");
    push_chars(&mut m, &part);
    Err(upstream(venue, m))
}

/// Reads a received upstream response: a declared or actual length over the
/// size limit and a non-success status are refused as `check_declared_length`
/// and `check_upstream_body` do, and the body must then parse as JSON; a
/// parse error is reported with the parser's message.
pub fn read_upstream_json(
    venue: Venue,
    content_length: Option<u64>,
    status: u16,
    status_text: &str,
    body: &[u8],
    body_text: &str,
) -> (res: Result<JsonDoc, AppError>)
    ensures
        if declared_oversize(content_length) || body@.len() > MAX_UPSTREAM_BYTES {
            res matches Err(e) && is_upstream_error(e, venue, oversize_message())
        } else if !is_success_status(status) {
            res matches Err(e) && is_upstream_error(e, venue, status_message(status_text@, body_text@))
        } else {
            match json_outcome(body@) {
                Ok(d) => res == Ok::<JsonDoc, AppError>(d),
                Err(m) => res matches Err(e) && is_upstream_error(e, venue, m),
            }
        },
{
    check_declared_length(venue, content_length)?;
    check_upstream_body(venue, status, status_text, body.len(), body_text)?;
    match parse_json(body) {
        Ok(d) => Ok(d),
        Err(m) => Err(upstream(venue, m)),
    }
}

/// Whether a Binance futures contract type is a perpetual one; a missing
/// type counts as `PERPETUAL`.
pub open spec fn is_binance_perpetual(contract_type: Option<Seq<char>>) -> bool {
    let t = match contract_type {
        Some(t) => t,
        None => "PERPETUAL"@,
    };
    t == "PERPETUAL"@ || t == "TRADIFI_PERPETUAL"@
}

/// Whether a Binance futures contract type is a perpetual one, crypto or tradfi.
pub fn binance_perpetual_contract(contract_type: Option<&str>) -> (res: bool)
    ensures
        res == is_binance_perpetual(match contract_type {
            Some(t) => Some(t@),
            None => None,
        }),
{
    let t = match contract_type {
        Some(t) => t,
        None => "PERPETUAL",
    };
    text_equal(t, "PERPETUAL") || text_equal(t, "TRADIFI_PERPETUAL")
}

/// The quote assets that Binance spot symbols end with, in the order tried.
pub open spec fn binance_quotes() -> Seq<Seq<char>> {
    seq![
        "FDUSD"@, "USDT"@, "USDC"@, "TUSD"@, "BUSD"@, "USDP"@, "DAI"@, "BTC"@, "ETH"@, "BNB"@,
        "EUR"@, "TRY"@,
    ]
}

/// The split of `symbol` at the first quote of `quotes` (from index `k` on)
/// that ends it and leaves a non-empty base; the whole symbol with no quote
/// when none does.
pub open spec fn infer_pair_from(symbol: Seq<char>, quotes: Seq<Seq<char>>, k: int) -> (Seq<char>, Seq<char>)
    decreases quotes.len() - k,
{
    if k >= quotes.len() || k < 0 {
        (symbol, Seq::empty())
    } else if quotes[k].is_suffix_of(symbol) && symbol.len() > quotes[k].len() {
        (symbol.take(symbol.len() - quotes[k].len()), quotes[k])
    } else {
        infer_pair_from(symbol, quotes, k + 1)
    }
}

/// Whether `q` ends `s`, leaving at least one character before it.
fn ends_with_after_base(s: &Vec<char>, q: &Vec<char>) -> (res: bool)
    ensures
        res == (q@.is_suffix_of(s@) && s@.len() > q@.len()),
{
    if q.len() >= s.len() {
        return false;
    }
    let off = s.len() - q.len();
    let mut i: usize = 0;
    while i < q.len()
        invariant
            off == s.len() - q.len(),
            i <= q.len(),
            forall|k: int| 0 <= k < i ==> s@[off + k] == q@[k],
        decreases q.len() - i,
    {
        if s[off + i] != q[i] {
            assert(s@.subrange(off as int, s@.len() as int)[i as int] == s@[off + i]);
            return false;
        }
        i += 1;
    }
    assert(q@ =~= s@.subrange(off as int, s@.len() as int));
    true
}

/// The base and quote of a Binance spot symbol, inferred from the quote
/// assets it conventionally ends with.
pub fn infer_pair(symbol: &str) -> (res: (String, String))
    ensures
        (res.0@, res.1@) == infer_pair_from(symbol@, binance_quotes(), 0),
{
    let s = chars_of(symbol);
    let quotes: [&str; 12] = [
        "FDUSD", "USDT", "USDC", "TUSD", "BUSD", "USDP", "DAI", "BTC", "ETH", "BNB", "EUR", "TRY",
    ];
    assert(quotes@.map_values(|q: &str| q@) =~= binance_quotes());
    let mut k: usize = 0;
    while k < 12
        invariant
            k <= 12,
            s@ == symbol@,
            quotes@.map_values(|q: &str| q@) == binance_quotes(),
            infer_pair_from(symbol@, binance_quotes(), 0) == infer_pair_from(symbol@, binance_quotes(), k as int),
        decreases 12 - k,
    {
        let q = chars_of(quotes[k]);
        assert(q@ == binance_quotes()[k as int]);
        if ends_with_after_base(&s, &q) {
            let mut base: Vec<char> = Vec::new();
            let n = s.len() - q.len();
            let mut i: usize = 0;
            while i < n
                invariant
                    n <= s.len(),
                    i <= n,
                    base@ == s@.take(i as int),
                decreases n - i,
            {
                base.push(s[i]);
                i += 1;
                assert(s@.take(i as int) == s@.take(i - 1).push(s@[i - 1]));
            }
            return (string_from(&base), string_from(&q));
        }
        k += 1;
    }
    (string_from(&s), String::new())
}


/// How Bybit spells each supported interval.
pub open spec fn bybit_interval_text(name: Seq<char>) -> Option<Seq<char>> {
    if name == "1m"@ { Some("1"@) }
    else if name == "3m"@ { Some("3"@) }
    else if name == "5m"@ { Some("5"@) }
    else if name == "15m"@ { Some("15"@) }
    else if name == "30m"@ { Some("30"@) }
    else if name == "1h"@ { Some("60"@) }
    else if name == "2h"@ { Some("120"@) }
    else if name == "4h"@ { Some("240"@) }
    else if name == "1d"@ { Some("D"@) }
    else { None }
}

/// How Bybit spells `interval`.
pub fn bybit_interval(interval: Interval) -> (res: &'static str)
    requires
        bybit_interval_text(interval.name@) is Some,
    ensures
        bybit_interval_text(interval.name@) == Some(res@),
{
    let n = interval.name;
    if text_equal(n, "1m") { "1" }
    else if text_equal(n, "3m") { "3" }
    else if text_equal(n, "5m") { "5" }
    else if text_equal(n, "15m") { "15" }
    else if text_equal(n, "30m") { "30" }
    else if text_equal(n, "1h") { "60" }
    else if text_equal(n, "2h") { "120" }
    else if text_equal(n, "4h") { "240" }
    else { "D" }
}

/// How Ondo spells each supported interval as a chart resolution.
pub open spec fn ondo_resolution_text(name: Seq<char>) -> Option<Seq<char>> {
    if name == "1m"@ { Some("1"@) }
    else if name == "3m"@ { Some("3"@) }
    else if name == "5m"@ { Some("5"@) }
    else if name == "15m"@ { Some("15"@) }
    else if name == "30m"@ { Some("30"@) }
    else if name == "1h"@ { Some("60"@) }
    else if name == "2h"@ { Some("120"@) }
    else if name == "4h"@ { Some("240"@) }
    else if name == "1d"@ { Some("1D"@) }
    else { None }
}

/// How Ondo spells `interval`.
pub fn ondo_resolution(interval: Interval) -> (res: &'static str)
    requires
        ondo_resolution_text(interval.name@) is Some,
    ensures
        ondo_resolution_text(interval.name@) == Some(res@),
{
    let n = interval.name;
    if text_equal(n, "1m") { "1" }
    else if text_equal(n, "3m") { "3" }
    else if text_equal(n, "5m") { "5" }
    else if text_equal(n, "15m") { "15" }
    else if text_equal(n, "30m") { "30" }
    else if text_equal(n, "1h") { "60" }
    else if text_equal(n, "2h") { "120" }
    else if text_equal(n, "4h") { "240" }
    else { "1D" }
}

/// How MEXC futures spell each interval they serve.
pub open spec fn mexc_interval_text(name: Seq<char>) -> Option<Seq<char>> {
    if name == "1m"@ { Some("Min1"@) }
    else if name == "5m"@ { Some("Min5"@) }
    else if name == "15m"@ { Some("Min15"@) }
    else if name == "30m"@ { Some("Min30"@) }
    else if name == "1h"@ { Some("Min60"@) }
    else if name == "4h"@ { Some("Hour4"@) }
    else if name == "1d"@ { Some("Day1"@) }
    else { None }
}

/// How MEXC futures spell `interval`.
pub fn mexc_interval(interval: Interval) -> (res: &'static str)
    requires
        mexc_interval_text(interval.name@) is Some,
    ensures
        mexc_interval_text(interval.name@) == Some(res@),
{
    let n = interval.name;
    if text_equal(n, "1m") { "Min1" }
    else if text_equal(n, "5m") { "Min5" }
    else if text_equal(n, "15m") { "Min15" }
    else if text_equal(n, "30m") { "Min30" }
    else if text_equal(n, "1h") { "Min60" }
    else if text_equal(n, "4h") { "Hour4" }
    else { "Day1" }
}

/// How MEXC spot spells an interval: `1h` is `60m`, the others keep their names.
pub open spec fn mexc_spot_interval_text(name: Seq<char>) -> Seq<char> {
    if name == "1h"@ { "60m"@ } else { name }
}

/// How MEXC spot spells `interval`.
pub fn mexc_spot_interval(interval: Interval) -> (res: &'static str)
    ensures
        res@ == mexc_spot_interval_text(interval.name@),
{
    if text_equal(interval.name, "1h") { "60m" } else { interval.name }
}

/// How OKX spells each supported interval as a bar size.
pub open spec fn okx_bar_text(name: Seq<char>) -> Option<Seq<char>> {
    if name == "1m"@ { Some("1m"@) }
    else if name == "3m"@ { Some("3m"@) }
    else if name == "5m"@ { Some("5m"@) }
    else if name == "15m"@ { Some("15m"@) }
    else if name == "30m"@ { Some("30m"@) }
    else if name == "1h"@ { Some("1H"@) }
    else if name == "2h"@ { Some("2H"@) }
    else if name == "4h"@ { Some("4H"@) }
    else if name == "1d"@ { Some("1Dutc"@) }
    else { None }
}

/// How OKX spells `interval`.
pub fn okx_bar(interval: Interval) -> (res: &'static str)
    requires
        okx_bar_text(interval.name@) is Some,
    ensures
        okx_bar_text(interval.name@) == Some(res@),
{
    let n = interval.name;
    if text_equal(n, "1m") { "1m" }
    else if text_equal(n, "3m") { "3m" }
    else if text_equal(n, "5m") { "5m" }
    else if text_equal(n, "15m") { "15m" }
    else if text_equal(n, "30m") { "30m" }
    else if text_equal(n, "1h") { "1H" }
    else if text_equal(n, "2h") { "2H" }
    else if text_equal(n, "4h") { "4H" }
    else { "1Dutc" }
}

/// The most bars Ondo returns for one history request.
pub const ONDO_MAX_BARS: i64 = 4_900;

/// `x` clamped to the range of `i64`.
pub open spec fn clamp_i64(x: int) -> int {
    if x > i64::MAX { i64::MAX as int } else if x < i64::MIN { i64::MIN as int } else { x }
}

/// `a * b`, saturated at the bounds of `i64`.
pub fn saturating_mul_i64(a: i64, b: i64) -> (res: i64)
    ensures
        res == clamp_i64(a * b),
{
    let x: i128 = a as i128;
    let y: i128 = b as i128;
    assert(-0x8000_0000_0000_0000 <= x <= 0x7fff_ffff_ffff_ffff);
    assert(-0x8000_0000_0000_0000 <= y <= 0x7fff_ffff_ffff_ffff);
    assert(-0x4000_0000_0000_0000_0000_0000_0000_0000 <= x * y <= 0x4000_0000_0000_0000_0000_0000_0000_0000) by (nonlinear_arith)
        requires
            -0x8000_0000_0000_0000 <= x <= 0x7fff_ffff_ffff_ffff,
            -0x8000_0000_0000_0000 <= y <= 0x7fff_ffff_ffff_ffff,
    ;
    let p: i128 = x * y;
    if p > i64::MAX as i128 {
        i64::MAX
    } else if p < i64::MIN as i128 {
        i64::MIN
    } else {
        p as i64
    }
}

/// `a - b`, saturated at the bounds of `i64`.
pub fn saturating_sub_i64(a: i64, b: i64) -> (res: i64)
    ensures
        res == clamp_i64(a - b),
{
    let p: i128 = (a as i128) - (b as i128);
    if p > i64::MAX as i128 {
        i64::MAX
    } else if p < i64::MIN as i128 {
        i64::MIN
    } else {
        p as i64
    }
}

/// The start of the window that Ondo is asked for: the request's start, or
/// the start of the latest `ONDO_MAX_BARS - 1` intervals before its end when
/// the request reaches further back (saturating arithmetic).
pub open spec fn ondo_from(from: i64, to: i64, millis: i64) -> int {
    let window = clamp_i64(millis * (ONDO_MAX_BARS - 1));
    let earliest = clamp_i64(to - window);
    if from >= earliest { from as int } else { earliest }
}

/// The start of the window that Ondo is asked for.
pub fn ondo_request_from(request: &CandleRequest) -> (res: i64)
    ensures
        res == ondo_from(request.from, request.to, request.interval.millis),
{
    let maximum_window = saturating_mul_i64(request.interval.millis, ONDO_MAX_BARS - 1);
    let earliest = saturating_sub_i64(request.to, maximum_window);
    if request.from >= earliest { request.from } else { earliest }
}

/// `s` with every `-` replaced by `with`, or removed when `with` is `None`.
pub open spec fn replace_dash(s: Seq<char>, with: Option<char>) -> Seq<char>
    decreases s.len(),
{
    if s.len() == 0 {
        Seq::empty()
    } else {
        let rest = replace_dash(s.drop_last(), with);
        if s.last() == '-' {
            match with {
                Some(c) => rest.push(c),
                None => rest,
            }
        } else {
            rest.push(s.last())
        }
    }
}

/// `s` with every `-` replaced by `with`, or removed when `with` is `None`.
fn replace_dash_chars(s: &str, with: Option<char>) -> (res: String)
    ensures
        res@ == replace_dash(s@, with),
{
    let chars = chars_of(s);
    let mut out: Vec<char> = Vec::new();
    let mut i: usize = 0;
    while i < chars.len()
        invariant
            i <= chars.len(),
            out@ == replace_dash(chars@.take(i as int), with),
        decreases chars.len() - i,
    {
        assert(chars@.take(i + 1).drop_last() == chars@.take(i as int));
        if chars[i] == '-' {
            match with {
                Some(c) => out.push(c),
                None => {},
            }
        } else {
            out.push(chars[i]);
        }
        i += 1;
    }
    assert(chars@.take(chars.len() as int) == chars@);
    string_from(&out)
}

/// The symbol of an Ondo market in its chart history route: the market without dashes.
pub fn ondo_history_symbol(market: &str) -> (res: String)
    ensures
        res@ == replace_dash(market@, None),
{
    replace_dash_chars(market, None)
}

/// The symbol of a MEXC futures contract in its candle route: dashes become underscores.
pub fn mexc_contract_symbol(market: &str) -> (res: String)
    ensures
        res@ == replace_dash(market@, Some('_')),
{
    replace_dash_chars(market, Some('_'))
}


/// The text of an optional string field.
pub open spec fn opt_text(o: Option<&str>) -> Option<Seq<char>> {
    match o {
        Some(t) => Some(t@),
        None => None,
    }
}

/// The text of an optional string field, empty when it is missing.
pub open spec fn text_or_empty(o: Option<&str>) -> Seq<char> {
    match o {
        Some(t) => t@,
        None => Seq::empty(),
    }
}

/// `m` is the market with these fields.
pub open spec fn is_market(m: Market, symbol: Seq<char>, base: Seq<char>, quote: Seq<char>, active: bool) -> bool {
    &&& m.symbol@ == symbol
    &&& m.base@ == base
    &&& m.quote@ == quote
    &&& m.active == active
}

/// Whether an optional field holds exactly `lit`.
fn field_is(o: Option<&str>, lit: &str) -> (res: bool)
    ensures
        res == (opt_text(o) == Some(lit@)),
{
    match o {
        Some(t) => text_equal(t, lit),
        None => false,
    }
}

/// The market with these fields, missing base or quote left empty.
fn market_from_fields(symbol: &str, base: Option<&str>, quote: Option<&str>, active: bool) -> (res: Market)
    ensures
        is_market(res, symbol@, text_or_empty(base), text_or_empty(quote), active),
{
    Market {
        symbol: symbol.to_owned(),
        base: match base {
            Some(b) => b.to_owned(),
            None => String::new(),
        },
        quote: match quote {
            Some(q) => q.to_owned(),
            None => String::new(),
        },
        active,
    }
}

/// A Binance spot market from its symbol alone: base and quote inferred, always active.
pub fn binance_spot_market(symbol: &str) -> (res: Market)
    ensures
        is_market(
            res,
            symbol@,
            infer_pair_from(symbol@, binance_quotes(), 0).0,
            infer_pair_from(symbol@, binance_quotes(), 0).1,
            true,
        ),
{
    let (base, quote) = infer_pair(symbol);
    Market { symbol: symbol.to_owned(), base, quote, active: true }
}

/// A Binance futures market from an exchange-information row: only
/// perpetual contracts, active when the status is `TRADING`.
pub fn binance_perp_market(
    symbol: Option<&str>,
    status: Option<&str>,
    contract_type: Option<&str>,
    base: Option<&str>,
    quote: Option<&str>,
) -> (res: Option<Market>)
    ensures
        match res {
            Some(m) => symbol is Some && is_binance_perpetual(opt_text(contract_type)) && is_market(
                m,
                symbol.unwrap()@,
                text_or_empty(base),
                text_or_empty(quote),
                opt_text(status) == Some("TRADING"@),
            ),
            None => symbol is None || !is_binance_perpetual(opt_text(contract_type)),
        },
{
    let symbol = match symbol {
        Some(s) => s,
        None => return None,
    };
    if !binance_perpetual_contract(contract_type) {
        return None;
    }
    Some(market_from_fields(symbol, base, quote, field_is(status, "TRADING")))
}

/// A Bybit market from an instrument row: perpetual listings keep only
/// `LinearPerpetual` contracts (a missing type drops the row); active when
/// the status is `Trading`.
pub fn bybit_market(
    spot: bool,
    symbol: Option<&str>,
    contract_type: Option<&str>,
    base: Option<&str>,
    quote: Option<&str>,
    status: Option<&str>,
) -> (res: Option<Market>)
    ensures
        match res {
            Some(m) => (spot || opt_text(contract_type) == Some("LinearPerpetual"@)) && symbol is Some
                && is_market(
                m,
                symbol.unwrap()@,
                text_or_empty(base),
                text_or_empty(quote),
                opt_text(status) == Some("Trading"@),
            ),
            None => (!spot && opt_text(contract_type) != Some("LinearPerpetual"@)) || symbol is None,
        },
{
    if !spot && !field_is(contract_type, "LinearPerpetual") {
        return None;
    }
    let symbol = match symbol {
        Some(s) => s,
        None => return None,
    };
    Some(market_from_fields(symbol, base, quote, field_is(status, "Trading")))
}

/// The base asset that a Hyperliquid market stands for, where it is one of
/// the verified aliases: the exact native name, not any market of that name
/// on another DEX (`other:GOLD` has none).
pub open spec fn hyperliquid_alias(name: Seq<char>) -> Option<Seq<char>> {
    if name == "io:ANTH"@ {
        Some("ANTHROPIC"@)
    } else if name == "io:OAI"@ {
        Some("OPENAI"@)
    } else if name == "xyz:GOLD"@ {
        Some("XAU"@)
    } else if name == "xyz:SILVER"@ {
        Some("XAG"@)
    } else if name == "xyz:PLATINUM"@ {
        Some("XPT"@)
    } else if name == "xyz:PALLADIUM"@ {
        Some("XPD"@)
    } else if name == "xyz:COPPER"@ {
        Some("XCU"@)
    } else {
        None
    }
}

/// The aliased base of a Hyperliquid market, when it has one.
pub fn hyperliquid_alias_of(name: &str) -> (res: Option<String>)
    ensures
        match res {
            Some(a) => hyperliquid_alias(name@) == Some(a@),
            None => hyperliquid_alias(name@) is None,
        },
{
    if text_equal(name, "io:ANTH") {
        Some("ANTHROPIC".to_owned())
    } else if text_equal(name, "io:OAI") {
        Some("OPENAI".to_owned())
    } else if text_equal(name, "xyz:GOLD") {
        Some("XAU".to_owned())
    } else if text_equal(name, "xyz:SILVER") {
        Some("XAG".to_owned())
    } else if text_equal(name, "xyz:PLATINUM") {
        Some("XPT".to_owned())
    } else if text_equal(name, "xyz:PALLADIUM") {
        Some("XPD".to_owned())
    } else if text_equal(name, "xyz:COPPER") {
        Some("XCU".to_owned())
    } else {
        None
    }
}

/// The base asset of a Hyperliquid market name: its alias where it has one,
/// else what follows its last `:` (the name of a builder-deployed market is
/// prefixed by its DEX), else the name.
pub open spec fn hyperliquid_base(name: Seq<char>) -> Seq<char> {
    match hyperliquid_alias(name) {
        Some(a) => a,
        None => match find_last(name, ':') {
            Some(k) => name.skip(k + 1),
            None => name,
        },
    }
}

/// A Hyperliquid perpetual from a universe row: quoted in USD, active unless delisted.
pub fn hyperliquid_market(name: Option<&str>, is_delisted: Option<bool>) -> (res: Option<Market>)
    ensures
        match res {
            Some(m) => name is Some && is_market(
                m,
                name.unwrap()@,
                hyperliquid_base(name.unwrap()@),
                "USD"@,
                !(is_delisted == Some(true)),
            ),
            None => name is None,
        },
{
    let name = match name {
        Some(n) => n,
        None => return None,
    };
    let base = match hyperliquid_alias_of(name) {
        Some(a) => a,
        None => {
            let chars = chars_of(name);
            let found = last_index_of(&chars, ':');
            let base = match found {
                Some(k) => {
                    assert(k < chars.len());
                    sub_chars(&chars, k + 1, chars.len())
                },
                None => chars,
            };
            proof {
                if let Some(k) = find_last(name@, ':') {
                    assert(name@.skip(k + 1) == name@.subrange(k + 1, name@.len() as int));
                }
            }
            string_from(&base)
        },
    };
    let delisted = match is_delisted {
        Some(d) => d,
        None => false,
    };
    Some(Market { symbol: name.to_owned(), base, quote: "USD".to_owned(), active: !delisted })
}

/// The markets of the builder-deployed DEX universes that could be read, in
/// DEX order; a DEX whose universe failed contributes none.
pub open spec fn dex_markets(results: Seq<Result<Vec<Market>, AppError>>) -> Seq<Market>
    decreases results.len(),
{
    if results.len() == 0 {
        Seq::empty()
    } else {
        let r = dex_markets(results.drop_last());
        match results.last() {
            Ok(ms) => r + ms@,
            Err(_) => r,
        }
    }
}

/// The Hyperliquid market list: the default universe followed by the
/// markets of each DEX universe that could be read, in DEX order.
pub fn merge_dex_universes(main: Vec<Market>, dexes: &Vec<Result<Vec<Market>, AppError>>) -> (res: Vec<Market>)
    ensures
        res@ == main@ + dex_markets(dexes@),
{
    let mut out = main;
    let mut i: usize = 0;
    while i < dexes.len()
        invariant
            i <= dexes.len(),
            out@ == main@ + dex_markets(dexes@.take(i as int)),
        decreases dexes.len() - i,
    {
        assert(dexes@.take(i + 1).drop_last() == dexes@.take(i as int));
        match &dexes[i] {
            Ok(ms) => {
                let ghost start = out@;
                let mut j: usize = 0;
                while j < ms.len()
                    invariant
                        j <= ms.len(),
                        out@ == start + ms@.take(j as int),
                    decreases ms.len() - j,
                {
                    out.push(ms[j].duplicate());
                    assert(ms@.take(j + 1) == ms@.take(j as int).push(ms@[j as int]));
                    j += 1;
                }
                assert(ms@.take(ms.len() as int) == ms@);
            },
            Err(_) => {},
        }
        i += 1;
    }
    assert(dexes@.take(dexes.len() as int) == dexes@);
    out
}

/// The base of a Lighter symbol: what precedes its first `/`, else the symbol.
pub open spec fn lighter_base(symbol: Seq<char>) -> Seq<char> {
    match find_first(symbol, '/') {
        Some(k) => symbol.take(k),
        None => symbol,
    }
}

/// The quote of a Lighter symbol: the part after its first `/` up to the
/// next one, else `USDC`.
pub open spec fn lighter_quote(symbol: Seq<char>) -> Seq<char> {
    match find_first(symbol, '/') {
        Some(k) => {
            let rest = symbol.skip(k + 1);
            match find_first(rest, '/') {
                Some(j) => rest.take(j),
                None => rest,
            }
        },
        None => "USDC"@,
    }
}

/// A Lighter market and its numeric id from an order-book row: active when
/// the status is `active`.
pub fn lighter_market(symbol: Option<&str>, market_id: Option<i64>, status: Option<&str>) -> (res: Option<(Market, i64)>)
    ensures
        match res {
            Some((m, id)) => symbol is Some && market_id == Some(id) && is_market(
                m,
                symbol.unwrap()@,
                lighter_base(symbol.unwrap()@),
                lighter_quote(symbol.unwrap()@),
                opt_text(status) == Some("active"@),
            ),
            None => symbol is None || market_id is None,
        },
{
    let symbol = match symbol {
        Some(s) => s,
        None => return None,
    };
    let id = match market_id {
        Some(i) => i,
        None => return None,
    };
    let chars = chars_of(symbol);
    let found = first_index_of(&chars, '/');
    let (base, quote) = match found {
        Some(k) => {
            let rest = sub_chars(&chars, k + 1, chars.len());
            assert(rest@ == symbol@.skip(k + 1));
            let found2 = first_index_of(&rest, '/');
            let quote = match found2 {
                Some(j) => {
                    let q = sub_chars(&rest, 0, j);
                    assert(q@ == rest@.take(j as int));
                    q
                },
                None => rest,
            };
            let b = sub_chars(&chars, 0, k);
            assert(b@ == symbol@.take(k as int));
            (string_from(&b), string_from(&quote))
        },
        None => (string_from(&chars), "USDC".to_owned()),
    };
    let active = field_is(status, "active");
    Some((Market { symbol: symbol.to_owned(), base, quote, active }, id))
}

/// An Aster perpetual from an exchange-information row: active when the status is `TRADING`.
pub fn aster_market(symbol: Option<&str>, base: Option<&str>, quote: Option<&str>, status: Option<&str>) -> (res: Option<Market>)
    ensures
        match res {
            Some(m) => symbol is Some && is_market(
                m,
                symbol.unwrap()@,
                text_or_empty(base),
                text_or_empty(quote),
                opt_text(status) == Some("TRADING"@),
            ),
            None => symbol is None,
        },
{
    let symbol = match symbol {
        Some(s) => s,
        None => return None,
    };
    Some(market_from_fields(symbol, base, quote, field_is(status, "TRADING")))
}

/// The base asset of an Ondo contract: `XCU` for the copper contract
/// `COPPER-USD.P`, else the base currency it reports.
pub open spec fn ondo_base(market: Seq<char>, base: Seq<char>) -> Seq<char> {
    if market == "COPPER-USD.P"@ {
        "XCU"@
    } else {
        base
    }
}

/// An Ondo perpetual from a contract row: active unless disabled.
pub fn ondo_market(market: Option<&str>, base: Option<&str>, quote: Option<&str>, disabled: Option<bool>) -> (res: Option<Market>)
    ensures
        match res {
            Some(m) => market is Some && is_market(
                m,
                market.unwrap()@,
                ondo_base(market.unwrap()@, text_or_empty(base)),
                text_or_empty(quote),
                !(disabled == Some(true)),
            ),
            None => market is None,
        },
{
    let market = match market {
        Some(s) => s,
        None => return None,
    };
    let off = match disabled {
        Some(d) => d,
        None => false,
    };
    let mut m = market_from_fields(market, base, quote, !off);
    if text_equal(market, "COPPER-USD.P") {
        m.base = "XCU".to_owned();
    }
    Some(m)
}

/// A MEXC spot market from an exchange-information row: active when the
/// status is `1` or `ENABLED`.
pub fn mexc_spot_market(symbol: Option<&str>, base: Option<&str>, quote: Option<&str>, status: Option<&str>) -> (res: Option<Market>)
    ensures
        match res {
            Some(m) => symbol is Some && is_market(
                m,
                symbol.unwrap()@,
                text_or_empty(base),
                text_or_empty(quote),
                opt_text(status) == Some("1"@) || opt_text(status) == Some("ENABLED"@),
            ),
            None => symbol is None,
        },
{
    let symbol = match symbol {
        Some(s) => s,
        None => return None,
    };
    let active = field_is(status, "1") || field_is(status, "ENABLED");
    Some(market_from_fields(symbol, base, quote, active))
}

/// A MEXC futures contract from a detail row: active when its state is 0.
pub fn mexc_perp_market(symbol: Option<&str>, base: Option<&str>, quote: Option<&str>, state: Option<i64>) -> (res: Option<Market>)
    ensures
        match res {
            Some(m) => symbol is Some && is_market(
                m,
                symbol.unwrap()@,
                text_or_empty(base),
                text_or_empty(quote),
                state == Some(0i64),
            ),
            None => symbol is None,
        },
{
    let symbol = match symbol {
        Some(s) => s,
        None => return None,
    };
    let active = match state {
        Some(v) => v == 0,
        None => false,
    };
    Some(market_from_fields(symbol, base, quote, active))
}

/// The first of two optional fields that is present.
pub open spec fn first_present<'a>(a: Option<&'a str>, b: Option<&'a str>) -> Option<&'a str> {
    if a is Some { a } else { b }
}

/// An OKX instrument from an instrument row: the base is the base currency
/// or else the contract-value currency, the quote is the quote currency or
/// else the settlement currency; active when the state is `live`.
pub fn okx_market(
    inst_id: Option<&str>,
    base_ccy: Option<&str>,
    ct_val_ccy: Option<&str>,
    quote_ccy: Option<&str>,
    settle_ccy: Option<&str>,
    state: Option<&str>,
) -> (res: Option<Market>)
    ensures
        match res {
            Some(m) => inst_id is Some && is_market(
                m,
                inst_id.unwrap()@,
                text_or_empty(first_present(base_ccy, ct_val_ccy)),
                text_or_empty(first_present(quote_ccy, settle_ccy)),
                opt_text(state) == Some("live"@),
            ),
            None => inst_id is None,
        },
{
    let symbol = match inst_id {
        Some(s) => s,
        None => return None,
    };
    let base = match base_ccy {
        Some(b) => Some(b),
        None => ct_val_ccy,
    };
    let quote = match quote_ccy {
        Some(q) => Some(q),
        None => settle_ccy,
    };
    Some(market_from_fields(symbol, base, quote, field_is(state, "live")))
}


/// The message of the error for a market that Lighter does not list.
pub open spec fn unknown_lighter_market_message(market: Seq<char>) -> Seq<char> {
    "unknown Lighter market `"@ + market + "`"@
}

/// The numeric id of the first listed Lighter market whose symbol equals
/// `market` without regard to ASCII case; a market that is not listed is a
/// bad request.
pub fn lighter_market_id(markets: &Vec<(Market, i64)>, market: &str) -> (res: Result<i64, AppError>)
    ensures
        match res {
            Ok(id) => exists|k: int| 0 <= k < markets@.len() && markets@[k].1 == id
                && equal_ignoring_ascii_case(#[trigger] markets@[k].0.symbol@, market@)
                && forall|j: int| 0 <= j < k ==> !equal_ignoring_ascii_case(#[trigger] markets@[j].0.symbol@, market@),
            Err(e) => (forall|j: int| 0 <= j < markets@.len() ==> !equal_ignoring_ascii_case(#[trigger] markets@[j].0.symbol@, market@))
                && (e matches AppError::BadRequest(m) && m@ == unknown_lighter_market_message(market@)),
        },
{
    let mut i: usize = 0;
    while i < markets.len()
        invariant
            i <= markets.len(),
            forall|j: int| 0 <= j < i ==> !equal_ignoring_ascii_case(#[trigger] markets@[j].0.symbol@, market@),
        decreases markets.len() - i,
    {
        if text_equal_ignoring_ascii_case(markets[i].0.symbol.as_str(), market) {
            return Ok(markets[i].1);
        }
        i += 1;
    }
    let mut m = String::new();
    push_text(&mut m, "unknown Lighter market `");
    push_text(&mut m, market);
    push_text(&mut m, "`");
    Err(AppError::BadRequest(m))
}

/// Whether Bybit instrument paging goes on: perpetual listings follow a
/// non-empty cursor; spot listings take one page.
pub fn bybit_next_page(spot: bool, cursor: &str) -> (res: bool)
    ensures
        res == (!spot && cursor@.len() > 0),
{
    let c = chars_of(cursor);
    !spot && c.len() > 0
}

/// The largest number of candles one OKX history page returns.
pub const OKX_PAGE_SIZE: usize = 300;

/// The first OKX history cursor: pages hold candles opened strictly before
/// it, so it starts just after the window's end.
pub fn okx_first_cursor(to: i64) -> (res: i64)
    requires
        to < i64::MAX,
    ensures
        res == to + 1,
{
    to + 1
}

/// Whether OKX paging fetches another page: fewer candles than the limit
/// are collected and the cursor lies after the window's start.
pub fn okx_should_fetch(collected: usize, limit: usize, before: i64, from: i64) -> (res: bool)
    ensures
        res == (collected < limit && before > from),
{
    collected < limit && before > from
}

/// The number of candles to ask OKX for: what is missing to the limit, at
/// most a page.
pub fn okx_page_limit(limit: usize, collected: usize) -> (res: usize)
    ensures
        res == (if limit <= collected { 0 } else if limit - collected < OKX_PAGE_SIZE { limit - collected } else { OKX_PAGE_SIZE as int }),
{
    let missing = if limit <= collected { 0 } else { limit - collected };
    if missing < OKX_PAGE_SIZE { missing } else { OKX_PAGE_SIZE }
}

/// The smallest of `before` and the times of `page`.
pub open spec fn oldest_of(before: i64, page: Seq<i64>) -> i64
    decreases page.len(),
{
    if page.len() == 0 {
        before
    } else {
        let r = oldest_of(before, page.drop_last());
        if page.last() < r { page.last() } else { r }
    }
}

/// The next OKX history cursor after a page with opening times `page`: the
/// oldest of them, or `None` (stop) when the page is empty, did not reach
/// before the current cursor, or reached the window's start.
pub open spec fn okx_next(before: i64, from: i64, page: Seq<i64>) -> Option<i64> {
    let oldest = oldest_of(before, page);
    if page.len() == 0 || oldest >= before || oldest <= from {
        None
    } else {
        Some(oldest)
    }
}

/// The next OKX history cursor after a page, or `None` to stop.
pub fn okx_next_cursor(before: i64, from: i64, page: &Vec<i64>) -> (res: Option<i64>)
    ensures
        res == okx_next(before, from, page@),
{
    if page.len() == 0 {
        return None;
    }
    let mut oldest = before;
    let mut i: usize = 0;
    while i < page.len()
        invariant
            i <= page.len(),
            oldest == oldest_of(before, page@.take(i as int)),
        decreases page.len() - i,
    {
        assert(page@.take(i + 1).drop_last() == page@.take(i as int));
        if page[i] < oldest {
            oldest = page[i];
        }
        i += 1;
    }
    assert(page@.take(page.len() as int) == page@);
    if oldest >= before || oldest <= from { None } else { Some(oldest) }
}


/// The smaller of `a` and `b`.
pub open spec fn min_usize(a: usize, b: usize) -> usize {
    if a < b { a } else { b }
}

/// The Binance candle endpoint: futures or spot.
pub open spec fn binance_klines_base(futures: bool) -> Seq<char> {
    if futures {
        "https://fapi.binance.com/fapi/v1/klines"@
    } else {
        "https://data-api.binance.vision/api/v3/klines"@
    }
}

/// The Binance candle URL of `r`: futures allow 1500 candles per request, spot 1000.
pub open spec fn binance_candles_url_text(r: CandleRequest, futures: bool) -> Seq<char> {
    url_text(
        binance_klines_base(futures),
        seq![
            ("symbol"@, r.market@),
            ("interval"@, r.interval.name@),
            ("startTime"@, decimal_text(r.from as int)),
            ("endTime"@, decimal_text(r.to as int)),
            ("limit"@, decimal_text(min_usize(r.limit, if futures { 1500 } else { 1000 }) as int)),
        ],
    )
}

/// The Binance candle URL of a request.
pub fn binance_candles_url(request: &CandleRequest, futures: bool) -> (res: String)
    ensures
        res@ == binance_candles_url_text(*request, futures),
{
    let base = if futures {
        "https://fapi.binance.com/fapi/v1/klines"
    } else {
        "https://data-api.binance.vision/api/v3/klines"
    };
    let cap: usize = if futures { 1500 } else { 1000 };
    let limit = if request.limit < cap { request.limit } else { cap };
    let mut pairs: Vec<(&str, String)> = Vec::new();
    pairs.push(("symbol", request.market.clone()));
    pairs.push(("interval", request.interval.name.to_owned()));
    pairs.push(("startTime", decimal_i64(request.from)));
    pairs.push(("endTime", decimal_i64(request.to)));
    pairs.push(("limit", decimal_usize(limit)));
    assert(pair_texts(pairs@) =~= seq![
        ("symbol"@, request.market@),
        ("interval"@, request.interval.name@),
        ("startTime"@, decimal_text(request.from as int)),
        ("endTime"@, decimal_text(request.to as int)),
        ("limit"@, decimal_text(min_usize(request.limit, cap) as int)),
    ]);
    build_url(base, &pairs)
}

/// The Bybit candle URL of `r`, at most 1000 candles.
pub open spec fn bybit_candles_url_text(r: CandleRequest, spot: bool) -> Seq<char> {
    url_text(
        "https://api.bybit.com/v5/market/kline"@,
        seq![
            ("category"@, if spot { "spot"@ } else { "linear"@ }),
            ("symbol"@, r.market@),
            ("interval"@, bybit_interval_text(r.interval.name@).unwrap()),
            ("start"@, decimal_text(r.from as int)),
            ("end"@, decimal_text(r.to as int)),
            ("limit"@, decimal_text(min_usize(r.limit, 1000) as int)),
        ],
    )
}

/// The Bybit candle URL of a request.
pub fn bybit_candles_url(request: &CandleRequest, spot: bool) -> (res: String)
    requires
        bybit_interval_text(request.interval.name@) is Some,
    ensures
        res@ == bybit_candles_url_text(*request, spot),
{
    let limit: usize = if request.limit < 1000 { request.limit } else { 1000 };
    let mut pairs: Vec<(&str, String)> = Vec::new();
    pairs.push(("category", if spot { "spot".to_owned() } else { "linear".to_owned() }));
    pairs.push(("symbol", request.market.clone()));
    pairs.push(("interval", bybit_interval(request.interval).to_owned()));
    pairs.push(("start", decimal_i64(request.from)));
    pairs.push(("end", decimal_i64(request.to)));
    pairs.push(("limit", decimal_usize(limit)));
    assert(pair_texts(pairs@) =~= seq![
        ("category"@, if spot { "spot"@ } else { "linear"@ }),
        ("symbol"@, request.market@),
        ("interval"@, bybit_interval_text(request.interval.name@).unwrap()),
        ("start"@, decimal_text(request.from as int)),
        ("end"@, decimal_text(request.to as int)),
        ("limit"@, decimal_text(min_usize(request.limit, 1000) as int)),
    ]);
    build_url("https://api.bybit.com/v5/market/kline", &pairs)
}

/// The Bybit instrument-listing URL: spot or linear, 1000 per page, from `cursor` when there is one.
pub open spec fn bybit_instruments_url_text(spot: bool, cursor: Seq<char>) -> Seq<char> {
    let first = seq![("category"@, if spot { "spot"@ } else { "linear"@ }), ("limit"@, "1000"@)];
    url_text(
        "https://api.bybit.com/v5/market/instruments-info"@,
        if cursor.len() == 0 { first } else { first.push(("cursor"@, cursor)) },
    )
}

/// The Bybit instrument-listing URL of one page.
pub fn bybit_instruments_url(spot: bool, cursor: &str) -> (res: String)
    ensures
        res@ == bybit_instruments_url_text(spot, cursor@),
{
    let mut pairs: Vec<(&str, String)> = Vec::new();
    pairs.push(("category", if spot { "spot".to_owned() } else { "linear".to_owned() }));
    pairs.push(("limit", "1000".to_owned()));
    let c = chars_of(cursor);
    if c.len() > 0 {
        pairs.push(("cursor", cursor.to_owned()));
    }
    let ghost first = seq![("category"@, if spot { "spot"@ } else { "linear"@ }), ("limit"@, "1000"@)];
    assert(pair_texts(pairs@) =~= if cursor@.len() == 0 { first } else { first.push(("cursor"@, cursor@)) });
    build_url("https://api.bybit.com/v5/market/instruments-info", &pairs)
}

/// The Lighter candle URL of `r` for the market with id `market_id`, at most 500 candles.
pub open spec fn lighter_candles_url_text(r: CandleRequest, market_id: i64) -> Seq<char> {
    url_text(
        "https://mainnet.zklighter.elliot.ai/api/v1/candles"@,
        seq![
            ("market_id"@, decimal_text(market_id as int)),
            ("resolution"@, r.interval.name@),
            ("start_timestamp"@, decimal_text(r.from as int)),
            ("end_timestamp"@, decimal_text(r.to as int)),
            ("count_back"@, decimal_text(min_usize(r.limit, 500) as int)),
        ],
    )
}

/// The Lighter candle URL of a request.
pub fn lighter_candles_url(request: &CandleRequest, market_id: i64) -> (res: String)
    ensures
        res@ == lighter_candles_url_text(*request, market_id),
{
    let limit: usize = if request.limit < 500 { request.limit } else { 500 };
    let mut pairs: Vec<(&str, String)> = Vec::new();
    pairs.push(("market_id", decimal_i64(market_id)));
    pairs.push(("resolution", request.interval.name.to_owned()));
    pairs.push(("start_timestamp", decimal_i64(request.from)));
    pairs.push(("end_timestamp", decimal_i64(request.to)));
    pairs.push(("count_back", decimal_usize(limit)));
    assert(pair_texts(pairs@) =~= seq![
        ("market_id"@, decimal_text(market_id as int)),
        ("resolution"@, request.interval.name@),
        ("start_timestamp"@, decimal_text(request.from as int)),
        ("end_timestamp"@, decimal_text(request.to as int)),
        ("count_back"@, decimal_text(min_usize(request.limit, 500) as int)),
    ]);
    build_url("https://mainnet.zklighter.elliot.ai/api/v1/candles", &pairs)
}

/// The Aster candle URL of `r`, at most 1500 candles.
pub open spec fn aster_candles_url_text(r: CandleRequest) -> Seq<char> {
    url_text(
        "https://fapi.asterdex.com/fapi/v1/klines"@,
        seq![
            ("symbol"@, r.market@),
            ("interval"@, r.interval.name@),
            ("startTime"@, decimal_text(r.from as int)),
            ("endTime"@, decimal_text(r.to as int)),
            ("limit"@, decimal_text(min_usize(r.limit, 1500) as int)),
        ],
    )
}

/// The Aster candle URL of a request.
pub fn aster_candles_url(request: &CandleRequest) -> (res: String)
    ensures
        res@ == aster_candles_url_text(*request),
{
    let limit: usize = if request.limit < 1500 { request.limit } else { 1500 };
    let mut pairs: Vec<(&str, String)> = Vec::new();
    pairs.push(("symbol", request.market.clone()));
    pairs.push(("interval", request.interval.name.to_owned()));
    pairs.push(("startTime", decimal_i64(request.from)));
    pairs.push(("endTime", decimal_i64(request.to)));
    pairs.push(("limit", decimal_usize(limit)));
    assert(pair_texts(pairs@) =~= seq![
        ("symbol"@, request.market@),
        ("interval"@, request.interval.name@),
        ("startTime"@, decimal_text(request.from as int)),
        ("endTime"@, decimal_text(request.to as int)),
        ("limit"@, decimal_text(min_usize(request.limit, 1500) as int)),
    ]);
    build_url("https://fapi.asterdex.com/fapi/v1/klines", &pairs)
}

/// `a / b` rounded toward zero, as Rust divides integers.
pub open spec fn trunc_div(a: int, b: int) -> int {
    if a >= 0 { a / b } else { -((-a) / b) }
}

/// `a / 1000` rounded toward zero: Unix milliseconds to seconds.
pub fn millis_to_seconds(a: i64) -> (res: i64)
    ensures
        res == trunc_div(a as int, 1000),
{
    if a >= 0 {
        a / 1000
    } else {
        let m: i128 = -(a as i128);
        let q: i128 = m / 1000;
        (-q) as i64
    }
}

/// The Ondo chart-history URL of `r`: the dashless symbol, the resolution,
/// and the window in seconds, starting no earlier than Ondo serves.
pub open spec fn ondo_history_url_text(r: CandleRequest) -> Seq<char> {
    url_text(
        "https://api.ondoperps.xyz/v1/perps/history"@,
        seq![
            ("symbol"@, replace_dash(r.market@, None)),
            ("resolution"@, ondo_resolution_text(r.interval.name@).unwrap()),
            ("from"@, decimal_text(trunc_div(ondo_from(r.from, r.to, r.interval.millis), 1000))),
            ("to"@, decimal_text(trunc_div(r.to as int, 1000))),
        ],
    )
}

/// The Ondo chart-history URL of a request.
pub fn ondo_history_url(request: &CandleRequest) -> (res: String)
    requires
        ondo_resolution_text(request.interval.name@) is Some,
    ensures
        res@ == ondo_history_url_text(*request),
{
    let mut pairs: Vec<(&str, String)> = Vec::new();
    pairs.push(("symbol", ondo_history_symbol(request.market.as_str())));
    pairs.push(("resolution", ondo_resolution(request.interval).to_owned()));
    pairs.push(("from", decimal_i64(millis_to_seconds(ondo_request_from(request)))));
    pairs.push(("to", decimal_i64(millis_to_seconds(request.to))));
    assert(pair_texts(pairs@) =~= seq![
        ("symbol"@, replace_dash(request.market@, None)),
        ("resolution"@, ondo_resolution_text(request.interval.name@).unwrap()),
        ("from"@, decimal_text(trunc_div(ondo_from(request.from, request.to, request.interval.millis), 1000))),
        ("to"@, decimal_text(trunc_div(request.to as int, 1000))),
    ]);
    build_url("https://api.ondoperps.xyz/v1/perps/history", &pairs)
}

/// The MEXC spot candle URL of `r`, at most 1000 candles.
pub open spec fn mexc_spot_candles_url_text(r: CandleRequest) -> Seq<char> {
    url_text(
        "https://api.mexc.com/api/v3/klines"@,
        seq![
            ("symbol"@, r.market@),
            ("interval"@, mexc_spot_interval_text(r.interval.name@)),
            ("startTime"@, decimal_text(r.from as int)),
            ("endTime"@, decimal_text(r.to as int)),
            ("limit"@, decimal_text(min_usize(r.limit, 1000) as int)),
        ],
    )
}

/// The MEXC spot candle URL of a request.
pub fn mexc_spot_candles_url(request: &CandleRequest) -> (res: String)
    ensures
        res@ == mexc_spot_candles_url_text(*request),
{
    let limit: usize = if request.limit < 1000 { request.limit } else { 1000 };
    let mut pairs: Vec<(&str, String)> = Vec::new();
    pairs.push(("symbol", request.market.clone()));
    pairs.push(("interval", mexc_spot_interval(request.interval).to_owned()));
    pairs.push(("startTime", decimal_i64(request.from)));
    pairs.push(("endTime", decimal_i64(request.to)));
    pairs.push(("limit", decimal_usize(limit)));
    assert(pair_texts(pairs@) =~= seq![
        ("symbol"@, request.market@),
        ("interval"@, mexc_spot_interval_text(request.interval.name@)),
        ("startTime"@, decimal_text(request.from as int)),
        ("endTime"@, decimal_text(request.to as int)),
        ("limit"@, decimal_text(min_usize(request.limit, 1000) as int)),
    ]);
    build_url("https://api.mexc.com/api/v3/klines", &pairs)
}

/// The MEXC futures candle URL of `r`: the contract symbol in the path and
/// the window in seconds.
pub open spec fn mexc_perp_candles_url_text(r: CandleRequest) -> Seq<char> {
    url_text(
        "https://contract.mexc.com/api/v1/contract/kline/"@ + replace_dash(r.market@, Some('_')),
        seq![
            ("interval"@, mexc_interval_text(r.interval.name@).unwrap()),
            ("start"@, decimal_text(trunc_div(r.from as int, 1000))),
            ("end"@, decimal_text(trunc_div(r.to as int, 1000))),
        ],
    )
}

/// The MEXC futures candle URL of a request.
pub fn mexc_perp_candles_url(request: &CandleRequest) -> (res: String)
    requires
        mexc_interval_text(request.interval.name@) is Some,
    ensures
        res@ == mexc_perp_candles_url_text(*request),
{
    let mut base = String::new();
    push_text(&mut base, "https://contract.mexc.com/api/v1/contract/kline/");
    let symbol = mexc_contract_symbol(request.market.as_str());
    push_text(&mut base, symbol.as_str());
    let mut pairs: Vec<(&str, String)> = Vec::new();
    pairs.push(("interval", mexc_interval(request.interval).to_owned()));
    pairs.push(("start", decimal_i64(millis_to_seconds(request.from))));
    pairs.push(("end", decimal_i64(millis_to_seconds(request.to))));
    assert(pair_texts(pairs@) =~= seq![
        ("interval"@, mexc_interval_text(request.interval.name@).unwrap()),
        ("start"@, decimal_text(trunc_div(request.from as int, 1000))),
        ("end"@, decimal_text(trunc_div(request.to as int, 1000))),
    ]);
    build_url(base.as_str(), &pairs)
}

/// The OKX candle-history URL of one page of `r`: candles opened before
/// `after`, at most `limit` of them.
pub open spec fn okx_history_url_text(r: CandleRequest, after: i64, limit: usize) -> Seq<char> {
    url_text(
        "https://www.okx.com/api/v5/market/history-candles"@,
        seq![
            ("instId"@, r.market@),
            ("bar"@, okx_bar_text(r.interval.name@).unwrap()),
            ("after"@, decimal_text(after as int)),
            ("limit"@, decimal_text(limit as int)),
        ],
    )
}

/// The OKX candle-history URL of one page.
pub fn okx_history_url(request: &CandleRequest, after: i64, limit: usize) -> (res: String)
    requires
        okx_bar_text(request.interval.name@) is Some,
    ensures
        res@ == okx_history_url_text(*request, after, limit),
{
    let mut pairs: Vec<(&str, String)> = Vec::new();
    pairs.push(("instId", request.market.clone()));
    pairs.push(("bar", okx_bar(request.interval).to_owned()));
    pairs.push(("after", decimal_i64(after)));
    pairs.push(("limit", decimal_usize(limit)));
    assert(pair_texts(pairs@) =~= seq![
        ("instId"@, request.market@),
        ("bar"@, okx_bar_text(request.interval.name@).unwrap()),
        ("after"@, decimal_text(after as int)),
        ("limit"@, decimal_text(limit as int)),
    ]);
    build_url("https://www.okx.com/api/v5/market/history-candles", &pairs)
}

/// The OKX instrument-listing URL: spot or perpetual swaps.
pub open spec fn okx_instruments_url_text(spot: bool) -> Seq<char> {
    url_text(
        "https://www.okx.com/api/v5/public/instruments"@,
        seq![("instType"@, if spot { "SPOT"@ } else { "SWAP"@ })],
    )
}

/// The OKX instrument-listing URL.
pub fn okx_instruments_url(spot: bool) -> (res: String)
    ensures
        res@ == okx_instruments_url_text(spot),
{
    let mut pairs: Vec<(&str, String)> = Vec::new();
    pairs.push(("instType", if spot { "SPOT".to_owned() } else { "SWAP".to_owned() }));
    assert(pair_texts(pairs@) =~= seq![("instType"@, if spot { "SPOT"@ } else { "SWAP"@ })]);
    build_url("https://www.okx.com/api/v5/public/instruments", &pairs)
}

} // verus!
