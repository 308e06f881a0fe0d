//! What the venues' JSON answers say: the market rows of each venue's
//! listing, the Hyperliquid DEX names, the Bybit page cursor, and the error
//! reports that venues send inside a successful response.
use vstd::prelude::*;
use crate::adapters::{
    aster_market, binance_perp_market, binance_quotes, binance_spot_market, bybit_market,
    hyperliquid_base, hyperliquid_market, infer_pair_from, is_binance_perpetual, is_market,
    is_upstream_error, lighter_base, lighter_market, lighter_quote, mexc_perp_market,
    mexc_spot_market, okx_market, ondo_base, ondo_market, upstream,
};
use crate::error::AppError;
use crate::json::{
    JsonDoc, boolean, field, integer, items, json_bool, json_field, json_integer, json_items,
    json_text, text,
};
use crate::model::{Market, Venue};

verus! {

/// The fields of a market: native symbol, base, quote, and whether it trades.
pub open spec fn market_fields(symbol: Seq<char>, base: Seq<char>, quote: Seq<char>, active: bool) -> (Seq<char>, Seq<char>, Seq<char>, bool) {
    (symbol, base, quote, active)
}

/// `m` has the fields `f`.
pub open spec fn market_is(m: Market, f: (Seq<char>, Seq<char>, Seq<char>, bool)) -> bool {
    is_market(m, f.0, f.1, f.2, f.3)
}

/// A missing text taken as empty.
pub open spec fn or_empty(o: Option<Seq<char>>) -> Seq<char> {
    match o {
        Some(t) => t,
        None => Seq::empty(),
    }
}

/// The text `key` of row `r` (`row[key].as_str()`).
pub open spec fn row_text(d: JsonDoc, r: usize, key: Seq<char>) -> Option<Seq<char>> {
    json_text(d, json_field(d, Some(r), key))
}

/// The text `key` of row `r`.
fn row_str<'a>(doc: &'a JsonDoc, r: usize, key: &str) -> (res: Option<&'a str>)
    ensures
        crate::adapters::opt_text(res) == row_text(*doc, r, key@),
{
    text(doc, field(doc, Some(r), key))
}

/// The rows of a venue's market listing: the array at the root for Binance
/// spot tickers, else the array under the venue's key.
pub open spec fn listing_rows(v: Venue, d: JsonDoc) -> Option<Seq<usize>> {
    let root = Some(0usize);
    match v {
        Venue::BinanceSpot => json_items(d, root),
        Venue::BinancePerp | Venue::AsterPerp | Venue::MexcSpot => json_items(d, json_field(d, root, "symbols"@)),
        Venue::BybitSpot | Venue::BybitPerp => json_items(d, json_field(d, json_field(d, root, "result"@), "list"@)),
        Venue::HyperliquidPerp => json_items(d, json_field(d, root, "universe"@)),
        Venue::LighterPerp => json_items(d, json_field(d, root, "order_books"@)),
        Venue::OndoPerp => json_items(d, json_field(d, root, "result"@)),
        Venue::MexcPerp | Venue::OkxSpot | Venue::OkxPerp => json_items(d, json_field(d, root, "data"@)),
    }
}

/// The message of the error for a listing without its rows.
pub open spec fn missing_rows_message(v: Venue) -> Seq<char> {
    match v {
        Venue::BinanceSpot => "missing tickers"@,
        Venue::BinancePerp | Venue::AsterPerp | Venue::MexcSpot => "missing symbols"@,
        Venue::BybitSpot | Venue::BybitPerp | Venue::OkxSpot | Venue::OkxPerp => "missing instruments"@,
        Venue::HyperliquidPerp => "missing universe"@,
        Venue::LighterPerp => "missing order books"@,
        Venue::OndoPerp | Venue::MexcPerp => "missing contracts"@,
    }
}

/// The market that row `r` of venue `v`'s listing describes, if it describes one.
pub open spec fn listing_row(v: Venue, d: JsonDoc, r: usize) -> Option<(Seq<char>, Seq<char>, Seq<char>, bool)> {
    let t = |key: Seq<char>| row_text(d, r, key);
    match v {
        Venue::BinanceSpot => match t("symbol"@) {
            Some(s) => Some(market_fields(s, infer_pair_from(s, binance_quotes(), 0).0, infer_pair_from(s, binance_quotes(), 0).1, true)),
            None => None,
        },
        Venue::BinancePerp => match t("symbol"@) {
            Some(s) => if is_binance_perpetual(t("contractType"@)) {
                Some(market_fields(s, or_empty(t("baseAsset"@)), or_empty(t("quoteAsset"@)), t("status"@) == Some("TRADING"@)))
            } else {
                None
            },
            None => None,
        },
        Venue::BybitSpot | Venue::BybitPerp => match t("symbol"@) {
            Some(s) => if v == Venue::BybitSpot || t("contractType"@) == Some("LinearPerpetual"@) {
                Some(market_fields(s, or_empty(t("baseCoin"@)), or_empty(t("quoteCoin"@)), t("status"@) == Some("Trading"@)))
            } else {
                None
            },
            None => None,
        },
        Venue::HyperliquidPerp => match t("name"@) {
            Some(s) => Some(market_fields(s, hyperliquid_base(s), "USD"@,
                !(json_bool(d, json_field(d, Some(r), "isDelisted"@)) == Some(true)))),
            None => None,
        },
        Venue::LighterPerp => match t("symbol"@) {
            Some(s) => if json_integer(d, json_field(d, Some(r), "market_id"@)) is Some {
                Some(market_fields(s, lighter_base(s), lighter_quote(s), t("status"@) == Some("active"@)))
            } else {
                None
            },
            None => None,
        },
        Venue::AsterPerp => match t("symbol"@) {
            Some(s) => Some(market_fields(s, or_empty(t("baseAsset"@)), or_empty(t("quoteAsset"@)), t("status"@) == Some("TRADING"@))),
            None => None,
        },
        Venue::OndoPerp => match t("market"@) {
            Some(s) => Some(market_fields(s, ondo_base(s, or_empty(t("baseCurrency"@))), or_empty(t("quoteCurrency"@)),
                !(json_bool(d, json_field(d, Some(r), "disabled"@)) == Some(true)))),
            None => None,
        },
        Venue::MexcSpot => match t("symbol"@) {
            Some(s) => Some(market_fields(s, or_empty(t("baseAsset"@)), or_empty(t("quoteAsset"@)),
                t("status"@) == Some("1"@) || t("status"@) == Some("ENABLED"@))),
            None => None,
        },
        Venue::MexcPerp => match t("symbol"@) {
            Some(s) => Some(market_fields(s, or_empty(t("baseCoin"@)), or_empty(t("quoteCoin"@)),
                json_integer(d, json_field(d, Some(r), "state"@)) == Some(0i64))),
            None => None,
        },
        Venue::OkxSpot | Venue::OkxPerp => match t("instId"@) {
            Some(s) => Some(market_fields(
                s,
                or_empty(if t("baseCcy"@) is Some { t("baseCcy"@) } else { t("ctValCcy"@) }),
                or_empty(if t("quoteCcy"@) is Some { t("quoteCcy"@) } else { t("settleCcy"@) }),
                t("state"@) == Some("live"@),
            )),
            None => None,
        },
    }
}

/// The market that row `r` of `venue`'s listing describes, built by the venue's row builder.
pub fn listing_market(venue: Venue, doc: &JsonDoc, r: usize) -> (res: Option<Market>)
    ensures
        match res {
            Some(m) => listing_row(venue, *doc, r) matches Some(f) && market_is(m, f),
            None => listing_row(venue, *doc, r) is None,
        },
{
    match venue {
        Venue::BinanceSpot => match row_str(doc, r, "symbol") {
            Some(s) => Some(binance_spot_market(s)),
            None => None,
        },
        Venue::BinancePerp => binance_perp_market(
            row_str(doc, r, "symbol"),
            row_str(doc, r, "status"),
            row_str(doc, r, "contractType"),
            row_str(doc, r, "baseAsset"),
            row_str(doc, r, "quoteAsset"),
        ),
        Venue::BybitSpot | Venue::BybitPerp => bybit_market(
            venue == Venue::BybitSpot,
            row_str(doc, r, "symbol"),
            row_str(doc, r, "contractType"),
            row_str(doc, r, "baseCoin"),
            row_str(doc, r, "quoteCoin"),
            row_str(doc, r, "status"),
        ),
        Venue::HyperliquidPerp => hyperliquid_market(
            row_str(doc, r, "name"),
            boolean(doc, field(doc, Some(r), "isDelisted")),
        ),
        Venue::LighterPerp => match lighter_market(
            row_str(doc, r, "symbol"),
            integer(doc, field(doc, Some(r), "market_id")),
            row_str(doc, r, "status"),
        ) {
            Some((m, _)) => Some(m),
            None => None,
        },
        Venue::AsterPerp => aster_market(
            row_str(doc, r, "symbol"),
            row_str(doc, r, "baseAsset"),
            row_str(doc, r, "quoteAsset"),
            row_str(doc, r, "status"),
        ),
        Venue::OndoPerp => ondo_market(
            row_str(doc, r, "market"),
            row_str(doc, r, "baseCurrency"),
            row_str(doc, r, "quoteCurrency"),
            boolean(doc, field(doc, Some(r), "disabled")),
        ),
        Venue::MexcSpot => mexc_spot_market(
            row_str(doc, r, "symbol"),
            row_str(doc, r, "baseAsset"),
            row_str(doc, r, "quoteAsset"),
            row_str(doc, r, "status"),
        ),
        Venue::MexcPerp => mexc_perp_market(
            row_str(doc, r, "symbol"),
            row_str(doc, r, "baseCoin"),
            row_str(doc, r, "quoteCoin"),
            integer(doc, field(doc, Some(r), "state")),
        ),
        Venue::OkxSpot | Venue::OkxPerp => okx_market(
            row_str(doc, r, "instId"),
            row_str(doc, r, "baseCcy"),
            row_str(doc, r, "ctValCcy"),
            row_str(doc, r, "quoteCcy"),
            row_str(doc, r, "settleCcy"),
            row_str(doc, r, "state"),
        ),
    }
}

/// `out` holds, in order, the markets that the rows `rows` of `v`'s listing describe.
pub open spec fn markets_of_rows(out: Seq<Market>, rows: Seq<usize>, v: Venue, d: JsonDoc) -> bool
    decreases rows.len(),
{
    if rows.len() == 0 {
        out.len() == 0
    } else {
        match listing_row(v, d, rows.last()) {
            Some(f) => out.len() > 0 && market_is(out.last(), f) && markets_of_rows(out.drop_last(), rows.drop_last(), v, d),
            None => markets_of_rows(out, rows.drop_last(), v, d),
        }
    }
}

/// The markets of a venue's listing answer, in row order; a row that
/// describes no market is skipped, and an answer without its rows is an
/// upstream error.
pub fn market_listing(venue: Venue, doc: &JsonDoc) -> (res: Result<Vec<Market>, AppError>)
    ensures
        match listing_rows(venue, *doc) {
            Some(rows) => res matches Ok(ms) && markets_of_rows(ms@, rows, venue, *doc),
            None => res matches Err(e) && is_upstream_error(e, venue, missing_rows_message(venue)),
        },
{
    let root = Some(0usize);
    let (rows_at, missing) = match venue {
        Venue::BinanceSpot => (root, "missing tickers"),
        Venue::BinancePerp | Venue::AsterPerp | Venue::MexcSpot => (field(doc, root, "symbols"), "missing symbols"),
        Venue::BybitSpot | Venue::BybitPerp => (field(doc, field(doc, root, "result"), "list"), "missing instruments"),
        Venue::HyperliquidPerp => (field(doc, root, "universe"), "missing universe"),
        Venue::LighterPerp => (field(doc, root, "order_books"), "missing order books"),
        Venue::OndoPerp => (field(doc, root, "result"), "missing contracts"),
        Venue::MexcPerp => (field(doc, root, "data"), "missing contracts"),
        Venue::OkxSpot | Venue::OkxPerp => (field(doc, root, "data"), "missing instruments"),
    };
    let rows = match items(doc, rows_at) {
        Some(rows) => rows,
        None => return Err(upstream(venue, missing.to_owned())),
    };
    let mut out: Vec<Market> = Vec::new();
    let mut i: usize = 0;
    while i < rows.len()
        invariant
            i <= rows.len(),
            markets_of_rows(out@, rows@.take(i as int), venue, *doc),
        decreases rows.len() - i,
    {
        let r = rows[i];
        let m = listing_market(venue, doc, r);
        assert(rows@.take(i + 1).drop_last() =~= rows@.take(i as int));
        assert(rows@.take(i + 1).last() == r);
        match m {
            Some(m) => {
                let ghost before = out@;
                out.push(m);
                assert(out@.drop_last() =~= before);
            },
            None => {},
        }
        i += 1;
    }
    assert(rows@.take(rows.len() as int) =~= rows@);
    Ok(out)
}

/// `out` holds, in order, the Lighter markets and their ids that the order-book rows `rows` describe.
pub open spec fn lighter_markets_of_rows(out: Seq<(Market, i64)>, rows: Seq<usize>, d: JsonDoc) -> bool
    decreases rows.len(),
{
    if rows.len() == 0 {
        out.len() == 0
    } else {
        match listing_row(Venue::LighterPerp, d, rows.last()) {
            Some(f) => out.len() > 0 && market_is(out.last().0, f)
                && json_integer(d, json_field(d, Some(rows.last()), "market_id"@)) == Some(out.last().1)
                && lighter_markets_of_rows(out.drop_last(), rows.drop_last(), d),
            None => lighter_markets_of_rows(out, rows.drop_last(), d),
        }
    }
}

/// The Lighter markets of an order-book answer with their numeric ids, in row order.
pub fn lighter_listing(venue: Venue, doc: &JsonDoc) -> (res: Result<Vec<(Market, i64)>, AppError>)
    ensures
        match listing_rows(Venue::LighterPerp, *doc) {
            Some(rows) => res matches Ok(ms) && lighter_markets_of_rows(ms@, rows, *doc),
            None => res matches Err(e) && is_upstream_error(e, venue, "missing order books"@),
        },
{
    let rows = match items(doc, field(doc, Some(0usize), "order_books")) {
        Some(rows) => rows,
        None => return Err(upstream(venue, "missing order books".to_owned())),
    };
    let mut out: Vec<(Market, i64)> = Vec::new();
    let mut i: usize = 0;
    while i < rows.len()
        invariant
            i <= rows.len(),
            lighter_markets_of_rows(out@, rows@.take(i as int), *doc),
        decreases rows.len() - i,
    {
        let r = rows[i];
        let m = lighter_market(
            row_str(doc, r, "symbol"),
            integer(doc, field(doc, Some(r), "market_id")),
            row_str(doc, r, "status"),
        );
        assert(rows@.take(i + 1).drop_last() =~= rows@.take(i as int));
        assert(rows@.take(i + 1).last() == r);
        match m {
            Some(m) => {
                let ghost before = out@;
                out.push(m);
                assert(out@.drop_last() =~= before);
            },
            None => {},
        }
        i += 1;
    }
    assert(rows@.take(rows.len() as int) =~= rows@);
    Ok(out)
}

/// `out` holds, in order, the names of the rows `rows` that have one.
pub open spec fn names_of_rows(out: Seq<String>, rows: Seq<usize>, d: JsonDoc) -> bool
    decreases rows.len(),
{
    if rows.len() == 0 {
        out.len() == 0
    } else {
        match row_text(d, rows.last(), "name"@) {
            Some(n) => out.len() > 0 && out.last()@ == n && names_of_rows(out.drop_last(), rows.drop_last(), d),
            None => names_of_rows(out, rows.drop_last(), d),
        }
    }
}

/// The names of the builder-deployed Hyperliquid DEXes in a `perpDexs`
/// answer, in order; a row without a name is skipped.
pub fn hyperliquid_dex_names(venue: Venue, doc: &JsonDoc) -> (res: Result<Vec<String>, AppError>)
    ensures
        match json_items(*doc, Some(0usize)) {
            Some(rows) => res matches Ok(ns) && names_of_rows(ns@, rows, *doc),
            None => res matches Err(e) && is_upstream_error(e, venue, "unexpected perpetual DEX response"@),
        },
{
    let rows = match items(doc, Some(0usize)) {
        Some(rows) => rows,
        None => return Err(upstream(venue, "unexpected perpetual DEX response".to_owned())),
    };
    let mut out: Vec<String> = Vec::new();
    let mut i: usize = 0;
    while i < rows.len()
        invariant
            i <= rows.len(),
            names_of_rows(out@, rows@.take(i as int), *doc),
        decreases rows.len() - i,
    {
        let r = rows[i];
        let n = row_str(doc, r, "name");
        assert(rows@.take(i + 1).drop_last() =~= rows@.take(i as int));
        assert(rows@.take(i + 1).last() == r);
        match n {
            Some(n) => {
                let ghost before = out@;
                out.push(n.to_owned());
                assert(out@.drop_last() =~= before);
            },
            None => {},
        }
        i += 1;
    }
    assert(rows@.take(rows.len() as int) =~= rows@);
    Ok(out)
}

/// The cursor of the next Bybit instrument page (`result.nextPageCursor`), empty when there is none.
pub fn bybit_cursor(doc: &JsonDoc) -> (res: String)
    ensures
        res@ == or_empty(json_text(*doc, json_field(*doc, json_field(*doc, Some(0usize), "result"@), "nextPageCursor"@))),
{
    match text(doc, field(doc, field(doc, Some(0usize), "result"), "nextPageCursor")) {
        Some(c) => c.to_owned(),
        None => String::new(),
    }
}

/// A text field of the root, or `default` when it is missing.
pub open spec fn root_text_or(d: JsonDoc, key: Seq<char>, default: Seq<char>) -> Seq<char> {
    match json_text(d, json_field(d, Some(0usize), key)) {
        Some(t) => t,
        None => default,
    }
}

/// The text field `key` of the root, or `default`.
fn root_str_or(doc: &JsonDoc, key: &str, default: &str) -> (res: String)
    ensures
        res@ == root_text_or(*doc, key@, default@),
{
    match text(doc, field(doc, Some(0usize), key)) {
        Some(t) => t.to_owned(),
        None => default.to_owned(),
    }
}

/// A Bybit answer reports an error when its `retCode` is an integer other than 0;
/// the error carries `retMsg`.
pub fn bybit_status(venue: Venue, doc: &JsonDoc) -> (res: Result<(), AppError>)
    ensures
        match json_integer(*doc, json_field(*doc, Some(0usize), "retCode"@)) {
            Some(c) if c != 0 => res matches Err(e) && is_upstream_error(e, venue, root_text_or(*doc, "retMsg"@, "unknown error"@)),
            _ => res is Ok,
        },
{
    match integer(doc, field(doc, Some(0usize), "retCode")) {
        Some(c) => if c != 0 {
            Err(upstream(venue, root_str_or(doc, "retMsg", "unknown error")))
        } else {
            Ok(())
        },
        None => Ok(()),
    }
}

/// An Ondo chart answer reports an error when its `s` is `error`; the error carries `errmsg`.
pub fn ondo_status(venue: Venue, doc: &JsonDoc) -> (res: Result<(), AppError>)
    ensures
        if json_text(*doc, json_field(*doc, Some(0usize), "s"@)) == Some("error"@) {
            res matches Err(e) && is_upstream_error(e, venue, root_text_or(*doc, "errmsg"@, "unknown error"@))
        } else {
            res is Ok
        },
{
    let errored = match text(doc, field(doc, Some(0usize), "s")) {
        Some(s) => crate::text::text_equal(s, "error"),
        None => false,
    };
    if errored {
        Err(upstream(venue, root_str_or(doc, "errmsg", "unknown error")))
    } else {
        Ok(())
    }
}

/// A MEXC futures candle answer reports an error when its `success` is
/// `false` (the error carries `message`), and must hold `data.time` as an array.
pub fn mexc_perp_status(venue: Venue, doc: &JsonDoc) -> (res: Result<(), AppError>)
    ensures
        if json_bool(*doc, json_field(*doc, Some(0usize), "success"@)) == Some(false) {
            res matches Err(e) && is_upstream_error(e, venue, root_text_or(*doc, "message"@, "unknown error"@))
        } else if json_items(*doc, json_field(*doc, json_field(*doc, Some(0usize), "data"@), "time"@)) is None {
            res matches Err(e) && is_upstream_error(e, venue, "missing times"@)
        } else {
            res is Ok
        },
{
    if boolean(doc, field(doc, Some(0usize), "success")) == Some(false) {
        return Err(upstream(venue, root_str_or(doc, "message", "unknown error")));
    }
    if items(doc, field(doc, field(doc, Some(0usize), "data"), "time")).is_none() {
        return Err(upstream(venue, "missing times".to_owned()));
    }
    Ok(())
}

/// An OKX answer reports an error when its `code` is a text other than `0`;
/// the error carries `msg`.
pub fn okx_status(venue: Venue, doc: &JsonDoc) -> (res: Result<(), AppError>)
    ensures
        if root_text_or(*doc, "code"@, "0"@) != "0"@ {
            res matches Err(e) && is_upstream_error(e, venue, root_text_or(*doc, "msg"@, "unknown error"@))
        } else {
            res is Ok
        },
{
    let code = root_str_or(doc, "code", "0");
    if crate::text::text_equal(code.as_str(), "0") {
        Ok(())
    } else {
        Err(upstream(venue, root_str_or(doc, "msg", "unknown error")))
    }
}

} // verus!
