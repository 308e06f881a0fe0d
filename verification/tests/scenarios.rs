use basis_lab::adapters::{
    binance_perpetual_contract, hyperliquid_market, ondo_request_from, ONDO_MAX_BARS,
};
use basis_lab::api::{
    market_matches, search_rank, validate_market, validate_search, validate_window, MAX_LIMIT,
    MAX_RANGE_MS,
};
use basis_lab::error::AppError;
use basis_lab::model::{
    canonical_asset, compact_ticker, contract_unit_asset, CandleRequest, Interval, Market,
    TickerListing, Venue,
};
use basis_lab::series::{join_on_time, normalize_plan};
use basis_lab::service::{binance_candle_weight, canonical_candle_request};

fn adapter_request() -> CandleRequest {
    CandleRequest {
        venue: Venue::BinanceSpot,
        market: "BTCUSDT".into(),
        interval: "1m".parse().unwrap(),
        from: 60_000,
        to: 240_000,
        limit: 2,
    }
}

fn service_request(venue: Venue) -> CandleRequest {
    CandleRequest {
        venue,
        market: "BTCUSDT".into(),
        interval: Interval {
            name: "1m",
            millis: 60_000,
        },
        from: 0,
        to: 120_000,
        limit: 100,
    }
}

#[test]
fn normalization_aligns_deduplicates_filters_and_limits() {
    let request = adapter_request();
    let times = vec![121_000, 122_000, 181_000, 301_000];
    let usable = vec![true, true, true, true];
    let normalized = normalize_plan(
        &times,
        &usable,
        request.from,
        request.to,
        request.limit,
        request.interval.millis,
    );
    assert_eq!(normalized.len(), 2);
    assert_eq!(normalized[0].1, 120_000);
    assert_eq!(normalized[1].1, 180_000);
}

#[test]
fn hyperliquid_hip3_markets_preserve_dex_prefix_and_normalize_base() {
    let markets = vec![
        hyperliquid_market(Some("xyz:SPCX"), Some(false)).unwrap(),
        hyperliquid_market(Some("xyz:OLD"), Some(true)).unwrap(),
    ];
    assert_eq!(markets[0].symbol, "xyz:SPCX");
    assert_eq!(markets[0].base, "SPCX");
    assert_eq!(markets[0].normalized_symbol(), "SPCX/USD");
    assert!(markets[0].active);
    assert!(!markets[1].active);
}

#[test]
fn binance_discovery_accepts_crypto_and_tradfi_perpetual_contracts() {
    assert!(binance_perpetual_contract(Some("PERPETUAL")));
    assert!(binance_perpetual_contract(Some("TRADIFI_PERPETUAL")));
    assert!(!binance_perpetual_contract(Some("CURRENT_QUARTER")));
}

#[test]
fn ondo_requests_the_latest_supported_window_instead_of_failing() {
    let mut request = adapter_request();
    request.venue = Venue::OndoPerp;
    request.from = 0;
    request.to = 7 * 86_400_000;
    assert_eq!(
        ondo_request_from(&request),
        request.to - request.interval.millis * (ONDO_MAX_BARS - 1)
    );
    request.from = request.to - 86_400_000;
    assert_eq!(ondo_request_from(&request), request.from);
}

#[test]
fn market_validation_rejects_url_injection() {
    assert!(validate_market("BTCUSDT").is_ok());
    assert!(validate_market("xyz:TSLA").is_ok());
    assert!(validate_market("../secret?x=1").is_err());
}

#[test]
fn window_validation_is_bounded() {
    let interval: Interval = "1m".parse().unwrap();
    assert!(validate_window(0, 60_000, 100, interval).is_ok());
    assert!(validate_window(10, 0, 100, interval).is_err());
    assert!(validate_window(0, MAX_RANGE_MS + 1, 100, interval).is_err());
    assert!(validate_window(0, 60_000, MAX_LIMIT + 1, interval).is_err());
}

#[test]
fn ticker_search_matches_canonical_and_native_notation() {
    let market = Market {
        symbol: "BTC-USDT-SWAP".into(),
        base: "btc".into(),
        quote: "usdt".into(),
        active: true,
    };
    assert!(market_matches(&market, &compact_ticker("BTC/USDT")));
    assert!(market_matches(&market, &compact_ticker("btc-usdt-swap")));
    assert!(!market_matches(&market, &compact_ticker("ETH/USDT")));
    assert_eq!(
        search_rank(
            &market.symbol,
            &market.normalized_symbol(),
            &market.base,
            &compact_ticker("BTC/USDT"),
        ),
        0
    );
}

#[test]
fn ticker_search_parameters_are_bounded() {
    assert!(validate_search("WLFI/USDT", 100).is_ok());
    assert!(validate_search("BTC\nUSDT", 100).is_err());
    assert!(validate_search("币", 100).is_err());
    assert!(validate_search("///", 100).is_err());
    assert!(validate_search(&"x".repeat(65), 100).is_err());
    assert!(validate_search("BTC", 0).is_err());
    assert!(validate_search("BTC", 1001).is_err());
}

#[test]
fn busy_response_includes_retry_guidance() {
    let error = AppError::Busy;
    assert_eq!(error.status(), 503);
    assert_eq!(error.retry_after(), Some(1));
    assert_eq!(error.retry_after_header().as_deref(), Some("1"));
}

#[test]
fn upstream_rate_limit_keeps_its_status_and_retry_guidance() {
    let error = AppError::RateLimited {
        venue: "binance_perp".into(),
        message: "too many requests".into(),
        retry_after_seconds: Some(90),
    };
    assert_eq!(error.status(), 429);
    assert_eq!(error.retry_after(), Some(90));
    assert_eq!(error.retry_after_header().as_deref(), Some("90"));
}

#[test]
fn ticker_listing_preserves_native_symbol_and_adds_canonical_pair() {
    let market = Market {
        symbol: "BTC_USDT".into(),
        base: "btc".into(),
        quote: "usdt".into(),
        active: true,
    };
    let ticker = TickerListing::from_market(Venue::MexcPerp, &market);
    assert_eq!(ticker.symbol, "BTC_USDT");
    assert_eq!(ticker.normalized_symbol, "BTC/USDT");
    assert_eq!(ticker.venue, "mexc_perp");
    assert!(ticker.search_key().contains("BTCUSDT"));
    assert_eq!(compact_ticker(" btc-usdt.swap "), "BTCUSDTSWAP");
    assert_eq!(canonical_asset("xbt"), "BTC");
    assert_eq!(canonical_asset("WETH"), "ETH");
    assert_eq!(contract_unit_asset("1000PEPE").as_deref(), Some("PEPE"));
    assert_eq!(contract_unit_asset("1INCH"), None);
}

#[test]
fn candle_cache_keys_share_equivalent_opening_timestamp_windows() {
    let mut first = service_request(Venue::BinancePerp);
    first.from = 60_001;
    first.to = 120_030;
    let mut second = first.clone();
    second.from = 119_999;
    second.to = 120_059;

    assert_eq!(
        canonical_candle_request(first),
        canonical_candle_request(second)
    );
    assert_eq!(
        canonical_candle_request(service_request(Venue::BinancePerp)).from,
        0
    );
}

#[test]
fn binance_candle_weights_follow_the_requested_limit_tiers() {
    let mut request = service_request(Venue::BinancePerp);
    for (limit, weight) in [(99, 1), (100, 2), (499, 2), (500, 5), (1000, 5), (1001, 10)] {
        request.limit = limit;
        assert_eq!(binance_candle_weight(&request), Some(weight));
    }
    request.venue = Venue::BybitPerp;
    assert_eq!(binance_candle_weight(&request), None);
}

#[test]
fn comparison_joins_only_identical_opening_times() {
    let left = vec![0, 60_000];
    let right = vec![0, 120_000];
    let usable = vec![true, true];
    let result = join_on_time(&left, &right, &usable).unwrap();
    assert_eq!(result.pairs.len(), 1);
    assert_eq!(result.pairs[0], (0, 0));
    assert_eq!(result.matched, 1);
    assert_eq!(result.dropped_left, 1);
    assert_eq!(result.dropped_right, 1);
}

#[test]
fn comparison_rejects_non_overlapping_series() {
    let result = join_on_time(&vec![0], &vec![60_000], &vec![true]);
    assert!(matches!(result, Err(AppError::NoOverlap)));
}
