# basis_lab

A cross-venue candle comparison service for market research, with its
decision logic written in Verus and proved against its contracts.

Layout:

- `src/` — the verified library.
  - `text.rs`: character-level helpers (trimming, ASCII case, compaction, search) with their spec functions.
  - `error.rs`: the service's errors, their HTTP status, code, retry delay and message.
  - `model.rs`: venues, intervals, markets, catalog entries and symbol canonicalisation.
  - `api.rs`: validation of request parameters, query parsing and search matching/ranking.
  - `service.rs`: canonical candle requests (cache keys) and Binance request weights.
  - `adapters.rs`: per-venue interval spellings, request windows, paging and market-row construction.
  - `urls.rs`: query-string encoding and the venue request URLs.
  - `json.rs`: upstream JSON bodies parsed by `serde_json` into a document, and the lookups in it.
  - `listings.rs`: the market rows of each venue's listing answer, the Hyperliquid DEX names,
    the Bybit page cursor and the error reports venues send inside their answers.
  - `series.rs`: candle-series normalisation plan and the exact-timestamp join.
  - `order.rs`, `catalog.rs`: listing order, sorting, de-duplication, catalog assembly and ranked search.
  - `laws.rs`: properties that relate several functions, stated and proved.
- `tests/` — scenario tests and tests of the library's edge cases.
- `app/` — the HTTP server: routing, upstream I/O, JSON, caching, rate limiting and
  the floating-point candle arithmetic, calling the library for every decision.
