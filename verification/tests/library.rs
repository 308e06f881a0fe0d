use basis_lab::adapters::{
    aster_market, binance_candles_url, binance_perp_market, binance_spot_market, bybit_candles_url,
    bybit_instruments_url, bybit_interval, bybit_market, bybit_next_page, ensure_interval,
    infer_pair, lighter_candles_url, lighter_market, lighter_market_id, mexc_contract_symbol,
    mexc_interval, mexc_perp_candles_url, mexc_perp_market, mexc_spot_candles_url,
    mexc_spot_interval, mexc_spot_market, okx_bar, okx_first_cursor, okx_history_url,
    okx_instruments_url, okx_market, okx_next_cursor, okx_page_limit, okx_should_fetch,
    ondo_history_symbol, ondo_history_url, ondo_market, ondo_request_from, ondo_resolution,
    upstream, aster_candles_url, millis_to_seconds, check_declared_length, check_upstream_body,
    hyperliquid_alias_of, hyperliquid_market, merge_dex_universes, read_upstream_json,
    MAX_UPSTREAM_BYTES,
};
use basis_lab::json;
use basis_lab::listings::{
    bybit_cursor, bybit_status, hyperliquid_dex_names, lighter_listing, market_listing,
    mexc_perp_status, okx_status, ondo_status,
};
use basis_lab::api::{
    check_comparison_bases, check_comparison_listings, default_candle_limit, default_market_limit,
    ensure_matching_bases,
    find_market, ticker_cache_control, validate_window, CandleQuery, CompareQuery,
};
use basis_lab::catalog::{assemble_catalog, finalize_markets, search_markets, search_tickers};
use basis_lab::error::AppError;
use basis_lab::model::{
    canonical_asset, compact_ticker, contract_unit_asset, venue_catalog, CandleRequest, Interval,
    Market, TickerListing, Venue, VenueInfo,
};
use basis_lab::series::{join_on_time, normalize_plan};
use basis_lab::service::{
    binance_candle_weight, binance_market_weight, candle_window_is_empty, canonical_candle_request,
};
use basis_lab::urls::{build_url, decimal_i64, decimal_u64, decimal_usize};

fn market(symbol: &str, base: &str, quote: &str, active: bool) -> Market {
    Market {
        symbol: symbol.into(),
        base: base.into(),
        quote: quote.into(),
        active,
    }
}

fn request(venue: Venue, interval: &str) -> CandleRequest {
    CandleRequest {
        venue,
        market: "BTC-USDT".into(),
        interval: interval.parse().unwrap(),
        from: 1_700_000_000_000,
        to: 1_700_000_600_000,
        limit: 2000,
    }
}

#[test]
fn every_venue_identifier_parses_back_to_its_venue() {
    for venue in Venue::all() {
        assert_eq!(Venue::from_id(venue.id()).unwrap(), venue);
        let parsed: Venue = venue.id().parse().unwrap();
        assert_eq!(parsed, venue);
    }
}

#[test]
fn unknown_venue_and_interval_are_bad_requests_naming_the_input() {
    match Venue::from_id("kraken") {
        Err(AppError::BadRequest(message)) => assert_eq!(message, "unknown venue `kraken`"),
        other => panic!("unexpected {other:?}"),
    }
    match Interval::from_name("7m") {
        Err(AppError::BadRequest(message)) => assert_eq!(
            message,
            "unsupported interval `7m`; use 1m, 3m, 5m, 15m, 30m, 1h, 2h, 4h, or 1d"
        ),
        other => panic!("unexpected {other:?}"),
    }
    let day = Interval::from_name("1d").unwrap();
    assert_eq!(day.millis, 86_400_000);
    assert_eq!(day.name, "1d");
}

#[test]
fn venue_descriptions_follow_the_venue_order() {
    let catalog = venue_catalog();
    assert_eq!(catalog.len(), 12);
    assert_eq!(catalog[0].id, "binance_spot");
    assert_eq!(catalog[0].market_type, "spot");
    assert_eq!(catalog[11].symbol_example, "BTC-USDT-SWAP");
    let lighter = VenueInfo::of(Venue::LighterPerp);
    assert_eq!(lighter.label, "Lighter");
    assert_eq!(lighter.market_type, "perpetual");
    assert_eq!(lighter.intervals, &["1m", "5m", "15m", "30m", "1h", "4h", "1d"]);
    assert_eq!(Venue::OndoPerp.intervals().len(), 9);
}

#[test]
fn normalized_symbol_trims_upper_cases_and_falls_back() {
    assert_eq!(market("x", " eth\t", " usdc ", true).normalized_symbol(), "ETH/USDC");
    assert_eq!(market("x", "sol", "", true).normalized_symbol(), "SOL");
    assert_eq!(market("x", " ", "usd", true).normalized_symbol(), "USD");
    assert_eq!(market(" kbtc-usd \u{3000}", "", "  ", true).normalized_symbol(), "KBTC-USD");
}

#[test]
fn compact_and_canonical_asset_names() {
    assert_eq!(compact_ticker("  w-btc/é "), "WBTC");
    assert_eq!(canonical_asset("w-btc"), "BTC");
    assert_eq!(canonical_asset("xdg"), "DOGE");
    assert_eq!(canonical_asset(&canonical_asset("weth")), "ETH");
    assert_eq!(canonical_asset("sol"), "SOL");
    assert_eq!(contract_unit_asset("1000000MOG").as_deref(), Some("MOG"));
    assert_eq!(contract_unit_asset("10000wbtc").as_deref(), Some("BTC"));
    assert_eq!(contract_unit_asset("1000X"), None);
    assert_eq!(contract_unit_asset("PEPE"), None);
}

#[test]
fn search_key_holds_every_compact_notation() {
    let ticker = TickerListing::from_market(Venue::OkxPerp, &market("BTC-USDT-SWAP", "btc", "usdt", true));
    assert_eq!(ticker.search_key(), "BTCUSDTBTCUSDTSWAPBTCUSDTOKXPERPETUAL");
    assert_eq!(ticker.market_type, "perpetual");
    assert_eq!(ticker.venue_label, "OKX Perpetual");
}

#[test]
fn binance_spot_pairs_are_inferred_from_quote_suffixes() {
    assert_eq!(infer_pair("BTCFDUSD"), ("BTC".to_string(), "FDUSD".to_string()));
    assert_eq!(infer_pair("ETHBTC"), ("ETH".to_string(), "BTC".to_string()));
    assert_eq!(infer_pair("USDT"), ("USDT".to_string(), String::new()));
    assert_eq!(infer_pair("XYZ"), ("XYZ".to_string(), String::new()));
    let m = binance_spot_market("SOLTRY");
    assert_eq!((m.base.as_str(), m.quote.as_str(), m.active), ("SOL", "TRY", true));
}

#[test]
fn venue_rows_become_markets() {
    let perp = binance_perp_market(Some("BTCUSDT"), Some("TRADING"), None, Some("BTC"), Some("USDT")).unwrap();
    assert!(perp.active);
    assert!(binance_perp_market(Some("BTCUSDT_250926"), Some("TRADING"), Some("CURRENT_QUARTER"), None, None).is_none());
    assert!(!binance_perp_market(Some("X"), Some("BREAK"), Some("PERPETUAL"), None, None).unwrap().active);

    assert!(bybit_market(false, Some("BTCUSDT"), None, None, None, None).is_none());
    assert!(bybit_market(false, Some("BTCUSD"), Some("InversePerpetual"), None, None, None).is_none());
    let bybit = bybit_market(true, Some("BTCUSDT"), None, Some("BTC"), None, Some("Trading")).unwrap();
    assert_eq!((bybit.base.as_str(), bybit.quote.as_str(), bybit.active), ("BTC", "", true));

    let (lighter, id) = lighter_market(Some("XAU/USD/X"), Some(7), Some("active")).unwrap();
    assert_eq!((lighter.base.as_str(), lighter.quote.as_str(), id), ("XAU", "USD", 7));
    let (plain, _) = lighter_market(Some("ETH"), Some(1), Some("frozen")).unwrap();
    assert_eq!((plain.base.as_str(), plain.quote.as_str(), plain.active), ("ETH", "USDC", false));
    assert!(lighter_market(Some("ETH"), None, None).is_none());

    assert!(aster_market(Some("BTCUSDT"), None, None, Some("TRADING")).unwrap().active);
    assert!(ondo_market(Some("BTC-USD.P"), Some("BTC"), Some("USD"), None).unwrap().active);
    assert!(!ondo_market(Some("X"), None, None, Some(true)).unwrap().active);
    assert!(mexc_spot_market(Some("BTCUSDT"), None, None, Some("1")).unwrap().active);
    assert!(mexc_spot_market(Some("BTCUSDT"), None, None, Some("ENABLED")).unwrap().active);
    assert!(!mexc_spot_market(Some("BTCUSDT"), None, None, Some("2")).unwrap().active);
    assert!(mexc_perp_market(Some("BTC_USDT"), None, None, Some(0)).unwrap().active);
    assert!(!mexc_perp_market(Some("BTC_USDT"), None, None, None).unwrap().active);
    let okx = okx_market(Some("BTC-USD-SWAP"), None, Some("BTC"), None, Some("USD"), Some("live")).unwrap();
    assert_eq!((okx.base.as_str(), okx.quote.as_str(), okx.active), ("BTC", "USD", true));
    assert!(okx_market(None, None, None, None, None, None).is_none());
}

#[test]
fn lighter_markets_are_found_without_regard_to_case() {
    let map = vec![
        (market("ETH", "ETH", "USDC", true), 0),
        (market("BTC", "BTC", "USDC", true), 1),
    ];
    assert_eq!(lighter_market_id(&map, "btc").unwrap(), 1);
    match lighter_market_id(&map, "SOL") {
        Err(AppError::BadRequest(message)) => assert_eq!(message, "unknown Lighter market `SOL`"),
        other => panic!("unexpected {other:?}"),
    }
}

#[test]
fn interval_spellings_of_each_venue() {
    let hour: Interval = "1h".parse().unwrap();
    let day: Interval = "1d".parse().unwrap();
    assert_eq!(bybit_interval(hour), "60");
    assert_eq!(bybit_interval(day), "D");
    assert_eq!(ondo_resolution(day), "1D");
    assert_eq!(mexc_interval(hour), "Min60");
    assert_eq!(mexc_spot_interval(hour), "60m");
    assert_eq!(mexc_spot_interval(day), "1d");
    assert_eq!(okx_bar(day), "1Dutc");
    assert!(ensure_interval(Venue::OkxSpot, hour).is_ok());
    match ensure_interval(Venue::MexcPerp, "3m".parse().unwrap()) {
        Err(AppError::BadRequest(message)) => assert_eq!(
            message,
            "mexc_perp does not support interval 3m; supported: 1m, 5m, 15m, 30m, 1h, 4h, 1d"
        ),
        other => panic!("unexpected {other:?}"),
    }
}

#[test]
fn ondo_window_saturates_instead_of_overflowing() {
    let mut r = request(Venue::OndoPerp, "1d");
    r.from = i64::MIN;
    r.to = i64::MIN + 5;
    assert_eq!(ondo_request_from(&r), i64::MIN);
    assert_eq!(ondo_history_symbol("SPCX-USD.P"), "SPCXUSD.P");
    assert_eq!(mexc_contract_symbol("WLFI-USDT"), "WLFI_USDT");
}

#[test]
fn upstream_urls_encode_their_query() {
    let pairs = vec![("symbol", "xyz:TSLA".to_string()), ("note", "a b/c".to_string())];
    assert_eq!(
        build_url("https://example.test/path", &pairs),
        "https://example.test/path?symbol=xyz%3ATSLA&note=a+b%2Fc"
    );
    let r = request(Venue::BinancePerp, "1m");
    assert_eq!(
        binance_candles_url(&r, true),
        "https://fapi.binance.com/fapi/v1/klines?symbol=BTC-USDT&interval=1m&startTime=1700000000000&endTime=1700000600000&limit=1500"
    );
    assert!(binance_candles_url(&r, false).ends_with("&limit=1000"));
    assert_eq!(
        bybit_candles_url(&r, false),
        "https://api.bybit.com/v5/market/kline?category=linear&symbol=BTC-USDT&interval=1&start=1700000000000&end=1700000600000&limit=1000"
    );
    assert_eq!(
        bybit_instruments_url(false, "abc"),
        "https://api.bybit.com/v5/market/instruments-info?category=linear&limit=1000&cursor=abc"
    );
    assert_eq!(
        bybit_instruments_url(true, ""),
        "https://api.bybit.com/v5/market/instruments-info?category=spot&limit=1000"
    );
    assert!(lighter_candles_url(&r, 12).contains("market_id=12&resolution=1m"));
    assert!(lighter_candles_url(&r, 12).ends_with("count_back=500"));
    assert!(aster_candles_url(&r).ends_with("limit=1500"));
    assert_eq!(
        ondo_history_url(&request(Venue::OndoPerp, "1h")),
        "https://api.ondoperps.xyz/v1/perps/history?symbol=BTCUSDT&resolution=60&from=1700000000&to=1700000600"
    );
    assert!(mexc_spot_candles_url(&request(Venue::MexcSpot, "1h")).contains("interval=60m"));
    assert_eq!(
        mexc_perp_candles_url(&request(Venue::MexcPerp, "4h")),
        "https://contract.mexc.com/api/v1/contract/kline/BTC_USDT?interval=Hour4&start=1700000000&end=1700000600"
    );
    assert_eq!(
        okx_history_url(&request(Venue::OkxPerp, "2h"), 42, 300),
        "https://www.okx.com/api/v5/market/history-candles?instId=BTC-USDT&bar=2H&after=42&limit=300"
    );
    assert_eq!(okx_instruments_url(false), "https://www.okx.com/api/v5/public/instruments?instType=SWAP");
}

#[test]
fn decimal_text_and_second_conversion() {
    assert_eq!(decimal_i64(i64::MIN), "-9223372036854775808");
    assert_eq!(decimal_i64(0), "0");
    assert_eq!(decimal_usize(1500), "1500");
    assert_eq!(millis_to_seconds(-1_999), -1);
    assert_eq!(millis_to_seconds(1_999), 1);
}

#[test]
fn okx_paging_walks_backwards_inside_the_window() {
    assert_eq!(okx_first_cursor(1_000), 1_001);
    assert!(okx_should_fetch(0, 10, 1_001, 0));
    assert!(!okx_should_fetch(10, 10, 1_001, 0));
    assert_eq!(okx_page_limit(1000, 100), 300);
    assert_eq!(okx_page_limit(1000, 900), 100);
    assert_eq!(okx_page_limit(10, 20), 0);
    assert_eq!(okx_next_cursor(1_001, 0, &vec![900, 960, 1_000]), Some(900));
    assert_eq!(okx_next_cursor(1_001, 0, &vec![]), None);
    assert_eq!(okx_next_cursor(1_001, 950, &vec![900]), None);
    assert_eq!(okx_next_cursor(1_001, 0, &vec![1_001]), None);
    assert!(bybit_next_page(false, "next"));
    assert!(!bybit_next_page(true, "next"));
    assert!(!bybit_next_page(false, ""));
}

#[test]
fn canonical_requests_align_negative_and_exact_bounds() {
    let mut r = request(Venue::BybitSpot, "1m");
    r.from = -1;
    r.to = -1;
    let c = canonical_candle_request(r);
    assert_eq!((c.from, c.to), (0, -60_000));
    let mut exact = request(Venue::BybitSpot, "1m");
    exact.from = 120_000;
    exact.to = 180_000;
    let c = canonical_candle_request(exact);
    assert_eq!((c.from, c.to), (120_000, 180_000));
    let mut top = request(Venue::BybitSpot, "1m");
    top.from = i64::MAX;
    top.to = i64::MAX;
    assert_eq!(canonical_candle_request(top).from, i64::MAX);
}

#[test]
fn binance_weights_of_listings_and_spot_candles() {
    assert_eq!(binance_market_weight(Venue::BinanceSpot), Some(4));
    assert_eq!(binance_market_weight(Venue::BinancePerp), Some(1));
    assert_eq!(binance_market_weight(Venue::OkxPerp), None);
    assert_eq!(binance_candle_weight(&request(Venue::BinanceSpot, "1m")), Some(2));
    assert_eq!(binance_candle_weight(&request(Venue::BinancePerp, "1m")), Some(10));
}

#[test]
fn normalization_keeps_first_usable_candle_per_time_and_newest_times() {
    let times = vec![300_500, 60_100, 60_900, 120_000, 180_000, 200_000];
    let usable = vec![true, false, true, true, true, true];
    let plan = normalize_plan(&times, &usable, 60_000, 300_000, 3, 60_000);
    assert_eq!(plan, vec![(3, 120_000), (4, 180_000), (0, 300_000)]);
    let everything = normalize_plan(&times, &usable, 60_000, 300_000, 10, 60_000);
    assert_eq!(everything, vec![(2, 60_000), (3, 120_000), (4, 180_000), (0, 300_000)]);
    assert!(normalize_plan(&times, &usable, 60_000, 300_000, 0, 60_000).is_empty());
    assert!(normalize_plan(&vec![-1], &vec![true], -60_000, 0, 5, 60_000) == vec![(0, -60_000)]);
}

#[test]
fn join_uses_the_last_right_candle_of_a_time_and_skips_unusable_ones() {
    let left = vec![0, 60_000, 120_000];
    let right = vec![60_000, 0, 60_000, 120_000];
    let usable = vec![true, true, true, false];
    let join = join_on_time(&left, &right, &usable).unwrap();
    assert_eq!(join.pairs, vec![(0, 1), (1, 2)]);
    assert_eq!((join.matched, join.dropped_left, join.dropped_right), (2, 1, 2));
    let short = join_on_time(&vec![0, 0, 0], &vec![0], &vec![true]).unwrap();
    assert_eq!(short.dropped_right, 0);
}

#[test]
fn every_error_has_its_status_code_and_message() {
    let cases = vec![
        (AppError::BadRequest("nope".into()), 400, "bad_request", "nope"),
        (
            AppError::Upstream { venue: "okx_spot".into(), message: "HTTP 500".into() },
            502,
            "upstream_error",
            "venue `okx_spot` rejected the request: HTTP 500",
        ),
        (
            AppError::RateLimited { venue: "binance_spot".into(), message: "slow down".into(), retry_after_seconds: None },
            429,
            "upstream_rate_limited",
            "venue `binance_spot` is temporarily rate-limited: slow down",
        ),
        (AppError::Timeout("bybit_perp".into()), 504, "upstream_timeout", "venue `bybit_perp` timed out"),
        (AppError::NoOverlap, 422, "no_overlap", "no candles overlap at identical timestamps"),
        (AppError::Busy, 503, "busy", "service is busy; retry shortly"),
        (AppError::Internal, 500, "internal_error", "internal server error"),
    ];
    for (error, status, code, message) in cases {
        assert_eq!(error.status(), status);
        assert_eq!(error.code(), code);
        assert_eq!(error.message(), message);
    }
    assert_eq!(AppError::Internal.retry_after(), None);
    match upstream(Venue::AsterPerp, "missing symbols".into()) {
        AppError::Upstream { venue, message } => assert_eq!((venue.as_str(), message.as_str()), ("aster_perp", "missing symbols")),
        other => panic!("unexpected {other:?}"),
    }
}

#[test]
fn candle_and_compare_queries_are_checked_in_order() {
    let query = CandleQuery {
        venue: "okx_perp".into(),
        market: "BTC-USDT-SWAP".into(),
        interval: "5m".into(),
        from: 0,
        to: 3_600_000,
        limit: default_candle_limit(),
    };
    let parsed = query.clone().parse().unwrap();
    assert_eq!(parsed.venue, Venue::OkxPerp);
    assert_eq!(parsed.interval.millis, 300_000);
    assert_eq!(parsed.limit, 1000);
    let mut bad = query.clone();
    bad.venue = "nowhere".into();
    bad.market = "a b".into();
    match bad.parse() {
        Err(AppError::BadRequest(message)) => assert_eq!(message, "market must be 1–64 ASCII letters, numbers, or - _ . : / @"),
        other => panic!("unexpected {other:?}"),
    }
    let compare = CompareQuery {
        left_venue: "bybit_perp".into(),
        left_market: "WLFIUSDT".into(),
        right_venue: "mexc_perp".into(),
        right_market: "WLFI_USDT".into(),
        interval: "1h".into(),
        from: 0,
        to: 86_400_000,
        limit: 170,
    };
    let (left, right) = compare.clone().parse().unwrap();
    assert_eq!((left.venue, right.venue), (Venue::BybitPerp, Venue::MexcPerp));
    assert_eq!(right.market, "WLFI_USDT");
    let mut late = compare.clone();
    late.left_venue = "unknown".into();
    late.to = 0;
    match late.parse() {
        Err(AppError::BadRequest(message)) => assert_eq!(message, "`to` must be later than non-negative `from` (Unix milliseconds)"),
        other => panic!("unexpected {other:?}"),
    }
    let one_minute: Interval = "1m".parse().unwrap();
    assert!(validate_window(0, 1_200_060_000, 100, one_minute).is_err());
    assert!(validate_window(0, 1_200_000_000, 1500, one_minute).is_ok());
    assert_eq!(default_market_limit(), 200);
    assert_eq!(ticker_cache_control(), "public, max-age=30, stale-while-revalidate=300");
}

#[test]
fn finalized_markets_are_sorted_and_unique_by_symbol() {
    let markets = vec![
        market("ETHUSDT", "ETH", "USDT", true),
        market("BTCUSDT", "BTC", "USDT", true),
        market("ETHUSDT", "ETH", "USDT", false),
        market("ADAUSDT", "ADA", "USDT", true),
    ];
    let finalized = finalize_markets(markets);
    let symbols: Vec<&str> = finalized.iter().map(|m| m.symbol.as_str()).collect();
    assert_eq!(symbols, vec!["ADAUSDT", "BTCUSDT", "ETHUSDT"]);
}

#[test]
fn catalog_lists_active_markets_in_catalog_order() {
    let results = vec![
        (Venue::BybitPerp, Ok(vec![market("ETHUSDT", "ETH", "USDT", true), market("OLD", "OLD", "USDT", false)])),
        (Venue::BinanceSpot, Err(AppError::Timeout("binance_spot".into()))),
        (Venue::AsterPerp, Ok(vec![market("ETHUSDT", "ETH", "USDT", true), market("BTCUSDT", "BTC", "USDT", true)])),
    ];
    let catalog = assemble_catalog(&results).unwrap();
    let entries: Vec<(&str, &str)> = catalog.iter().map(|t| (t.normalized_symbol.as_str(), t.venue)).collect();
    assert_eq!(entries, vec![("BTC/USDT", "aster_perp"), ("ETH/USDT", "aster_perp"), ("ETH/USDT", "bybit_perp")]);

    let failed = vec![
        (Venue::BybitPerp, Ok(vec![market("OLD", "OLD", "USDT", false)])),
        (Venue::BinanceSpot, Err(AppError::Timeout("binance_spot".into()))),
        (Venue::OkxSpot, Err(AppError::Internal)),
    ];
    assert!(matches!(assemble_catalog(&failed), Err(AppError::Timeout(v)) if v == "binance_spot"));
    match assemble_catalog(&vec![]) {
        Err(AppError::Upstream { venue, message }) => {
            assert_eq!(venue, "ticker_catalog");
            assert_eq!(message, "no venue catalogs were available");
        },
        other => panic!("unexpected {other:?}"),
    }
}

#[test]
fn market_search_ranks_exact_matches_first_and_counts_all_hits() {
    let markets = vec![
        market("WLFIUSDT", "WLFI", "USDT", true),
        market("WLFI", "wlfi", "", true),
        market("WLFIUSDC", "WLFI", "USDC", true),
        market("AWLFI", "AWLFI", "USDT", true),
        market("WLFIOLD", "WLFI", "OLD", false),
    ];
    let (total, results) = search_markets(&markets, "wlfi", 3);
    assert_eq!(total, 4);
    let symbols: Vec<&str> = results.iter().map(|r| r.symbol.as_str()).collect();
    assert_eq!(symbols, vec!["WLFI", "WLFIUSDC", "WLFIUSDT"]);
    assert_eq!(results[0].normalized_symbol, "WLFI");
    let (all, everything) = search_markets(&markets, "", 10);
    assert_eq!((all, everything.len()), (4, 4));
    assert_eq!(everything[0].symbol, "AWLFI");
}

#[test]
fn ticker_search_filters_by_venue_and_ranks() {
    let tickers = vec![
        TickerListing::from_market(Venue::BybitPerp, &market("BTCUSDT", "BTC", "USDT", true)),
        TickerListing::from_market(Venue::OkxPerp, &market("BTC-USDT-SWAP", "BTC", "USDT", true)),
        TickerListing::from_market(Venue::HyperliquidPerp, &market("BTC", "BTC", "USD", true)),
        TickerListing::from_market(Venue::HyperliquidPerp, &market("ETH", "ETH", "USD", true)),
    ];
    let (total, found) = search_tickers(&tickers, None, "btc", 10);
    assert_eq!(total, 3);
    let venues: Vec<&str> = found.iter().map(|t| t.venue).collect();
    assert_eq!(venues, vec!["hyperliquid_perp", "bybit_perp", "okx_perp"]);
    let (only, hits) = search_tickers(&tickers, Some(Venue::HyperliquidPerp), "", 1);
    assert_eq!(only, 2);
    assert_eq!(hits.len(), 1);
    assert_eq!(hits[0].symbol, "BTC");
}

#[test]
fn hyperliquid_aliases_apply_only_to_the_exact_native_markets() {
    let names = ["xyz:GOLD", "io:ANTH", "io:OAI", "xyz:SILVER", "xyz:PLATINUM", "xyz:PALLADIUM", "xyz:COPPER", "other:GOLD", "xyz:SPCX", "BTC"];
    let bases = ["XAU", "ANTHROPIC", "OPENAI", "XAG", "XPT", "XPD", "XCU", "GOLD", "SPCX", "BTC"];
    for (name, base) in names.iter().zip(bases.iter()) {
        let m = hyperliquid_market(Some(name), None).unwrap();
        assert_eq!(m.symbol, *name);
        assert_eq!(m.base, *base);
        assert_eq!(m.quote, "USD");
    }
    assert_eq!(hyperliquid_alias_of("xyz:GOLD").as_deref(), Some("XAU"));
    assert_eq!(hyperliquid_alias_of("xyz:gold"), None);
    assert_eq!(hyperliquid_market(Some("xyz:GOLD"), None).unwrap().normalized_symbol(), "XAU/USD");
}

#[test]
fn ondo_copper_contract_is_quoted_as_xcu() {
    let copper = ondo_market(Some("COPPER-USD.P"), Some("COPPER"), Some("USD"), Some(false)).unwrap();
    assert_eq!(copper.symbol, "COPPER-USD.P");
    assert_eq!(copper.base, "XCU");
    assert_eq!(copper.quote, "USD");
    let gold = ondo_market(Some("GOLD-USD.P"), Some("GOLD"), Some("USD"), None).unwrap();
    assert_eq!(gold.base, "GOLD");
}

#[test]
fn upstream_responses_are_checked_for_size_then_status() {
    assert!(check_declared_length(Venue::OkxSpot, None).is_ok());
    assert!(check_declared_length(Venue::OkxSpot, Some(MAX_UPSTREAM_BYTES)).is_ok());
    match check_declared_length(Venue::OkxSpot, Some(MAX_UPSTREAM_BYTES + 1)) {
        Err(AppError::Upstream { venue, message }) => {
            assert_eq!(venue, "okx_spot");
            assert_eq!(message, "response exceeded the 12 MiB safety limit");
        }
        other => panic!("unexpected {other:?}"),
    }
    assert!(check_upstream_body(Venue::BybitSpot, 200, "200 OK", 10, "{}").is_ok());
    assert!(check_upstream_body(Venue::BybitSpot, 299, "299 <unknown status code>", 0, "").is_ok());
    match check_upstream_body(Venue::BybitSpot, 500, "500 Internal Server Error", (MAX_UPSTREAM_BYTES + 1) as usize, "x") {
        Err(AppError::Upstream { message, .. }) => assert_eq!(message, "response exceeded the 12 MiB safety limit"),
        other => panic!("unexpected {other:?}"),
    }
    let long: String = std::iter::repeat('é').take(300).collect();
    match check_upstream_body(Venue::BybitSpot, 429, "429 Too Many Requests", long.len(), &long) {
        Err(AppError::Upstream { venue, message }) => {
            assert_eq!(venue, "bybit_spot");
            let expected: String = std::iter::repeat('é').take(240).collect();
            assert_eq!(message, format!("HTTP 429 Too Many Requests: {expected}"));
        }
        other => panic!("unexpected {other:?}"),
    }
    match check_upstream_body(Venue::BybitSpot, 404, "404 Not Found", 9, "not found") {
        Err(AppError::Upstream { message, .. }) => assert_eq!(message, "HTTP 404 Not Found: not found"),
        other => panic!("unexpected {other:?}"),
    }
}

#[test]
fn dex_universes_follow_the_default_one_and_failures_are_skipped() {
    let main = vec![market("BTC", "BTC", "USD", true)];
    let dexes = vec![
        Ok(vec![market("xyz:SPCX", "SPCX", "USD", true), market("xyz:GOLD", "XAU", "USD", true)]),
        Err(AppError::Timeout("hyperliquid_perp".into())),
        Ok(vec![]),
        Ok(vec![market("io:ANTH", "ANTHROPIC", "USD", false)]),
    ];
    let merged = merge_dex_universes(main, &dexes);
    let symbols: Vec<&str> = merged.iter().map(|m| m.symbol.as_str()).collect();
    assert_eq!(symbols, vec!["BTC", "xyz:SPCX", "xyz:GOLD", "io:ANTH"]);
    assert!(!merged[3].active);
}

#[test]
fn empty_candle_windows_need_no_request() {
    let mut r = request(Venue::BinanceSpot, "1m");
    r.from = 120_000;
    r.to = 60_000;
    assert!(candle_window_is_empty(&r));
    r.to = 120_000;
    assert!(!candle_window_is_empty(&r));
}

#[test]
fn comparisons_need_one_canonical_base() {
    let left = vec![market("BTCUSDT", "BTC", "USDT", true), market("ETHUSDT", "ETH", "USDT", true)];
    let right = vec![market("XBT_USDT", "xbt", "usdt", true), market("NOBASE", "", "USD", true)];
    assert_eq!(find_market(Venue::BybitPerp, &left, "ETHUSDT"), Some(1));
    assert_eq!(find_market(Venue::BybitPerp, &left, "ethusdt"), None);
    assert_eq!(find_market(Venue::LighterPerp, &left, "ethusdt"), Some(1));
    assert_eq!(find_market(Venue::MexcPerp, &right, "XBT-USDT"), Some(0));
    let ondo_list = vec![market("BTC-USD.P", "BTC", "USD", true)];
    assert_eq!(find_market(Venue::OndoPerp, &ondo_list, "BTCUSD.P"), Some(0));
    assert_eq!(find_market(Venue::BybitPerp, &ondo_list, "BTCUSD.P"), None);
    assert!(ensure_matching_bases(&left[0], &right[0]).is_ok());
    let bad = |r: Result<(), AppError>| match r {
        Err(AppError::BadRequest(message)) => message,
        other => panic!("unexpected {other:?}"),
    };
    let (l, r) = (Venue::BybitPerp, Venue::MexcPerp);
    assert!(check_comparison_bases(l, &left, "BTCUSDT", r, &right, "XBT_USDT").is_ok());
    assert_eq!(
        bad(check_comparison_bases(l, &left, "ETHUSDT", r, &right, "XBT_USDT")),
        "left and right markets have different base assets: ETH vs BTC"
    );
    assert_eq!(
        bad(check_comparison_bases(l, &left, "BTCUSDT", r, &right, "NOBASE")),
        "left and right markets have different base assets: BTC vs "
    );
    assert_eq!(
        bad(check_comparison_bases(l, &left, "SOLUSDT", r, &right, "NOSUCH")),
        "bybit_perp does not list market `SOLUSDT`"
    );
    assert_eq!(
        bad(check_comparison_bases(l, &left, "BTCUSDT", r, &right, "NOSUCH")),
        "mexc_perp does not list market `NOSUCH`"
    );
    let hl = vec![hyperliquid_market(Some("xyz:COPPER"), None).unwrap()];
    let ondo = vec![ondo_market(Some("COPPER-USD.P"), Some("COPPER"), Some("USD"), None).unwrap()];
    assert!(check_comparison_bases(Venue::HyperliquidPerp, &hl, "xyz:COPPER", Venue::OndoPerp, &ondo, "COPPER-USD.P").is_ok());
    let timeout = AppError::Timeout("bybit_perp".into());
    assert!(check_comparison_listings(l, &Err(timeout), "ETHUSDT", r, &Ok(right.clone()), "XBT_USDT").is_ok());
    assert!(check_comparison_listings(l, &Ok(left.clone()), "ETHUSDT", r, &Err(AppError::Internal), "X").is_ok());
    assert_eq!(
        bad(check_comparison_listings(l, &Ok(left.clone()), "ETHUSDT", r, &Ok(right.clone()), "XBT-USDT")),
        "left and right markets have different base assets: ETH vs BTC"
    );
    assert!(check_comparison_listings(l, &Ok(left.clone()), "BTCUSDT", r, &Ok(right.clone()), "XBT_USDT").is_ok());
}

#[test]
fn retry_after_headers_are_decimal_seconds() {
    assert_eq!(AppError::Busy.retry_after_header().as_deref(), Some("1"));
    assert_eq!(AppError::NoOverlap.retry_after_header(), None);
    let limited = AppError::RateLimited { venue: "x".into(), message: "m".into(), retry_after_seconds: None };
    assert_eq!(limited.retry_after_header(), None);
    assert_eq!(decimal_u64(u64::MAX), "18446744073709551615");
    assert_eq!(decimal_u64(0), "0");
}

fn doc(body: &str) -> basis_lab::json::JsonDoc {
    read_upstream_json(Venue::OkxSpot, None, 200, "200 OK", body.as_bytes(), body).unwrap()
}

#[test]
fn upstream_bodies_are_parsed_after_size_and_status_checks() {
    let d = doc(r#"{"a": [1, "x", true, null], "b": {"c": -7}}"#);
    let a = json::field(&d, Some(0), "a");
    let members = json::items(&d, a).unwrap().clone();
    assert_eq!(members.len(), 4);
    assert_eq!(json::integer(&d, Some(members[0])), Some(1));
    assert_eq!(json::text(&d, Some(members[1])), Some("x"));
    assert_eq!(json::boolean(&d, Some(members[2])), Some(true));
    assert_eq!(json::text(&d, Some(members[3])), None);
    let c = json::field(&d, json::field(&d, Some(0), "b"), "c");
    assert_eq!(json::integer(&d, c), Some(-7));
    assert_eq!(json::field(&d, Some(0), "zz"), None);
    assert_eq!(json::field(&d, a, "c"), None);
    match read_upstream_json(Venue::OkxSpot, None, 200, "200 OK", b"{oops", "{oops") {
        Err(AppError::Upstream { venue, message }) => {
            assert_eq!(venue, "okx_spot");
            assert!(message.contains("line 1"));
        }
        other => panic!("unexpected {other:?}"),
    }
    match read_upstream_json(Venue::OkxSpot, None, 500, "500 Internal Server Error", b"{}", "{}") {
        Err(AppError::Upstream { message, .. }) => assert_eq!(message, "HTTP 500 Internal Server Error: {}"),
        other => panic!("unexpected {other:?}"),
    }
    match read_upstream_json(Venue::OkxSpot, Some(MAX_UPSTREAM_BYTES + 1), 200, "200 OK", b"{}", "{}") {
        Err(AppError::Upstream { message, .. }) => assert_eq!(message, "response exceeded the 12 MiB safety limit"),
        other => panic!("unexpected {other:?}"),
    }
}

#[test]
fn number_texts_read_as_integers_only_when_they_fit() {
    assert_eq!(json::integer_of_text("0"), Some(0));
    assert_eq!(json::integer_of_text("-12"), Some(-12));
    assert_eq!(json::integer_of_text("9223372036854775807"), Some(i64::MAX));
    assert_eq!(json::integer_of_text("9223372036854775808"), None);
    assert_eq!(json::integer_of_text("-9223372036854775808"), Some(i64::MIN));
    assert_eq!(json::integer_of_text("-9223372036854775809"), None);
    assert_eq!(json::integer_of_text("1.5"), None);
    assert_eq!(json::integer_of_text("1e3"), None);
    assert_eq!(json::integer_of_text("-"), None);
    assert_eq!(json::integer_of_text(""), None);
    assert_eq!(json::integer_of_text("123456789012345678901234567890"), None);
    let d = doc(r#"[1.0, 18446744073709551615, "5"]"#);
    assert_eq!(json::integer(&d, Some(1)), None);
    assert_eq!(json::integer(&d, Some(2)), None);
    assert_eq!(json::integer(&d, Some(3)), None);
}

#[test]
fn venue_listings_are_read_row_by_row() {
    let binance = doc(r#"[{"symbol":"BTCUSDT","price":"1"},{"price":"2"},{"symbol":"ETHBTC"}]"#);
    let ms = market_listing(Venue::BinanceSpot, &binance).unwrap();
    assert_eq!(ms.len(), 2);
    assert_eq!((ms[0].base.as_str(), ms[0].quote.as_str()), ("BTC", "USDT"));
    assert_eq!((ms[1].base.as_str(), ms[1].quote.as_str()), ("ETH", "BTC"));

    let hl = doc(r#"{"universe":[{"name":"xyz:GOLD"},{"name":"io:ANTH","isDelisted":true},{"name":"other:GOLD"},{"szDecimals":2}]}"#);
    let ms = market_listing(Venue::HyperliquidPerp, &hl).unwrap();
    let bases: Vec<&str> = ms.iter().map(|m| m.base.as_str()).collect();
    assert_eq!(bases, vec!["XAU", "ANTHROPIC", "GOLD"]);
    assert_eq!(ms[1].symbol, "io:ANTH");
    assert!(!ms[1].active && ms[0].active);
    match market_listing(Venue::HyperliquidPerp, &doc(r#"{"other":[]}"#)) {
        Err(AppError::Upstream { message, .. }) => assert_eq!(message, "missing universe"),
        other => panic!("unexpected {other:?}"),
    }

    let bybit = doc(r#"{"result":{"list":[{"symbol":"BTCUSDT","contractType":"LinearPerpetual","baseCoin":"BTC","quoteCoin":"USDT","status":"Trading"},{"symbol":"BTCUSD","contractType":"InversePerpetual"}],"nextPageCursor":"abc"}}"#);
    assert_eq!(market_listing(Venue::BybitPerp, &bybit).unwrap().len(), 1);
    assert_eq!(market_listing(Venue::BybitSpot, &bybit).unwrap().len(), 2);
    assert_eq!(bybit_cursor(&bybit), "abc");
    assert_eq!(bybit_cursor(&doc("{}")), "");

    let mexc = doc(r#"{"data":[{"symbol":"BTC_USDT","baseCoin":"BTC","quoteCoin":"USDT","state":0},{"symbol":"X_USDT","state":1}]}"#);
    let ms = market_listing(Venue::MexcPerp, &mexc).unwrap();
    assert!(ms[0].active && !ms[1].active);

    let okx = doc(r#"{"data":[{"instId":"BTC-USDT-SWAP","baseCcy":"","ctValCcy":"BTC","settleCcy":"USDT","state":"live"}]}"#);
    let ms = market_listing(Venue::OkxPerp, &okx).unwrap();
    assert_eq!((ms[0].base.as_str(), ms[0].quote.as_str()), ("", "USDT"));

    let ondo = doc(r#"{"result":[{"market":"COPPER-USD.P","baseCurrency":"COPPER","quoteCurrency":"USD","disabled":false}]}"#);
    assert_eq!(market_listing(Venue::OndoPerp, &ondo).unwrap()[0].base, "XCU");

    let lighter = doc(r#"{"order_books":[{"symbol":"ETH","market_id":0,"status":"active"},{"symbol":"NOID"},{"symbol":"BTC","market_id":1,"status":"frozen"}]}"#);
    let pairs = lighter_listing(Venue::LighterPerp, &lighter).unwrap();
    assert_eq!(pairs.len(), 2);
    assert_eq!((pairs[1].0.symbol.as_str(), pairs[1].1, pairs[1].0.active), ("BTC", 1, false));
    assert_eq!(market_listing(Venue::LighterPerp, &lighter).unwrap().len(), 2);

    let dexes = doc(r#"[null, {"name":"xyz"}, {"full":"x"}, {"name":"io"}]"#);
    assert_eq!(hyperliquid_dex_names(Venue::HyperliquidPerp, &dexes).unwrap(), vec!["xyz".to_string(), "io".to_string()]);
    assert!(hyperliquid_dex_names(Venue::HyperliquidPerp, &doc("{}")).is_err());
}

#[test]
fn venue_error_reports_inside_answers() {
    assert!(bybit_status(Venue::BybitSpot, &doc(r#"{"retCode":0}"#)).is_ok());
    assert!(bybit_status(Venue::BybitSpot, &doc(r#"{"retCode":"7"}"#)).is_ok());
    match bybit_status(Venue::BybitSpot, &doc(r#"{"retCode":10001,"retMsg":"bad symbol"}"#)) {
        Err(AppError::Upstream { message, .. }) => assert_eq!(message, "bad symbol"),
        other => panic!("unexpected {other:?}"),
    }
    match ondo_status(Venue::OndoPerp, &doc(r#"{"s":"error"}"#)) {
        Err(AppError::Upstream { message, .. }) => assert_eq!(message, "unknown error"),
        other => panic!("unexpected {other:?}"),
    }
    assert!(ondo_status(Venue::OndoPerp, &doc(r#"{"s":"ok"}"#)).is_ok());
    match mexc_perp_status(Venue::MexcPerp, &doc(r#"{"success":false,"message":"nope"}"#)) {
        Err(AppError::Upstream { message, .. }) => assert_eq!(message, "nope"),
        other => panic!("unexpected {other:?}"),
    }
    match mexc_perp_status(Venue::MexcPerp, &doc(r#"{"success":true,"data":{}}"#)) {
        Err(AppError::Upstream { message, .. }) => assert_eq!(message, "missing times"),
        other => panic!("unexpected {other:?}"),
    }
    assert!(mexc_perp_status(Venue::MexcPerp, &doc(r#"{"data":{"time":[]}}"#)).is_ok());
    assert!(okx_status(Venue::OkxSpot, &doc(r#"{"data":[]}"#)).is_ok());
    match okx_status(Venue::OkxSpot, &doc(r#"{"code":"51001","msg":"Instrument ID does not exist"}"#)) {
        Err(AppError::Upstream { message, .. }) => assert_eq!(message, "Instrument ID does not exist"),
        other => panic!("unexpected {other:?}"),
    }
}
