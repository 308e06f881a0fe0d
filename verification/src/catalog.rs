//! Market listings and the cross-venue ticker catalog: the order they are
//! listed in, duplicates removed, and the ranked search over them.
use vstd::prelude::*;
use crate::error::AppError;
use crate::model::{Market, TickerListing, Venue, venue_id, venue_label, venue_market_type};
use crate::order::{ListOrder, chars_less, is_sorted, lemma_text_less_irreflexive, lemma_text_less_transitive, sort_listed, text_less};
use crate::text::{chars_contain, chars_of, compact_chars, compact_text, contains_text, string_from, text_equal, trim_text, trim_upper, upper_text};
use crate::api::{market_matches, market_matches_text, search_rank, search_rank_of};
use crate::model::search_key_text;

verus! {

/// Whether `a` comes strictly before `b` in lexicographic order.
pub fn text_before(a: &str, b: &str) -> (res: bool)
    ensures
        res == text_less(a@, b@),
{
    let x = chars_of(a);
    let y = chars_of(b);
    chars_less(&x, &y)
}

impl Market {
    /// A copy of this market.
    pub fn duplicate(&self) -> (res: Market)
        ensures
            res == *self,
    {
        Market {
            symbol: self.symbol.clone(),
            base: self.base.clone(),
            quote: self.quote.clone(),
            active: self.active,
        }
    }
}

/// Markets are listed by native symbol.
impl ListOrder for Market {
    open spec fn precedes(self, other: Self) -> bool {
        text_less(self.symbol@, other.symbol@)
    }

    proof fn precedes_irreflexive(a: Self) {
        lemma_text_less_irreflexive(a.symbol@);
    }

    proof fn precedes_transitive(a: Self, b: Self, c: Self) {
        lemma_text_less_transitive(a.symbol@, b.symbol@, c.symbol@);
    }

    fn listed_before(&self, other: &Self) -> (res: bool) {
        text_before(self.symbol.as_str(), other.symbol.as_str())
    }
}

/// `s` with every market dropped whose symbol equals that of the last market
/// kept before it (`Vec::dedup_by` on the symbol).
pub open spec fn dedup_symbols(s: Seq<Market>) -> Seq<Market>
    decreases s.len(),
{
    if s.len() == 0 {
        s
    } else {
        let r = dedup_symbols(s.drop_last());
        if r.len() > 0 && r.last().symbol@ == s.last().symbol@ {
            r
        } else {
            r.push(s.last())
        }
    }
}

/// The final form of a venue's market list: sorted by symbol, one market per
/// symbol. Which of several markets with one symbol stays is left open, as
/// the sort does not order them.
pub fn finalize_markets(markets: Vec<Market>) -> (res: Vec<Market>)
    ensures
        exists|s: Seq<Market>| #![trigger dedup_symbols(s)]
            is_sorted(s) && s.to_multiset() == markets@.to_multiset() && res@ == dedup_symbols(s),
{
    let sorted = sort_listed(markets);
    let mut res: Vec<Market> = Vec::new();
    let mut i: usize = 0;
    while i < sorted.len()
        invariant
            i <= sorted.len(),
            res@ == dedup_symbols(sorted@.take(i as int)),
        decreases sorted.len() - i,
    {
        assert(sorted@.take(i + 1).drop_last() == sorted@.take(i as int));
        let keep = if res.len() > 0 {
            !text_equal(res[res.len() - 1].symbol.as_str(), sorted[i].symbol.as_str())
        } else {
            true
        };
        if keep {
            res.push(sorted[i].duplicate());
        }
        i += 1;
    }
    assert(sorted@.take(sorted.len() as int) == sorted@);
    assert(is_sorted(sorted@) && sorted@.to_multiset() == markets@.to_multiset() && res@ == dedup_symbols(sorted@));
    res
}


impl TickerListing {
    /// A copy of this listing.
    pub fn duplicate(&self) -> (res: TickerListing)
        ensures
            res == *self,
    {
        TickerListing {
            normalized_symbol: self.normalized_symbol.clone(),
            symbol: self.symbol.clone(),
            base: self.base.clone(),
            quote: self.quote.clone(),
            venue: self.venue,
            venue_label: self.venue_label,
            market_type: self.market_type,
        }
    }
}

/// Catalog entries are listed by canonical notation, then venue, then native symbol.
impl ListOrder for TickerListing {
    open spec fn precedes(self, other: Self) -> bool {
        ||| text_less(self.normalized_symbol@, other.normalized_symbol@)
        ||| self.normalized_symbol@ == other.normalized_symbol@ && text_less(self.venue@, other.venue@)
        ||| self.normalized_symbol@ == other.normalized_symbol@ && self.venue@ == other.venue@
            && text_less(self.symbol@, other.symbol@)
    }

    proof fn precedes_irreflexive(a: Self) {
        lemma_text_less_irreflexive(a.normalized_symbol@);
        lemma_text_less_irreflexive(a.venue@);
        lemma_text_less_irreflexive(a.symbol@);
    }

    proof fn precedes_transitive(a: Self, b: Self, c: Self) {
        if text_less(a.normalized_symbol@, b.normalized_symbol@) && text_less(b.normalized_symbol@, c.normalized_symbol@) {
            lemma_text_less_transitive(a.normalized_symbol@, b.normalized_symbol@, c.normalized_symbol@);
        }
        if text_less(a.venue@, b.venue@) && text_less(b.venue@, c.venue@) {
            lemma_text_less_transitive(a.venue@, b.venue@, c.venue@);
        }
        if text_less(a.symbol@, b.symbol@) && text_less(b.symbol@, c.symbol@) {
            lemma_text_less_transitive(a.symbol@, b.symbol@, c.symbol@);
        }
    }

    fn listed_before(&self, other: &Self) -> (res: bool) {
        if text_before(self.normalized_symbol.as_str(), other.normalized_symbol.as_str()) {
            return true;
        }
        if !text_equal(self.normalized_symbol.as_str(), other.normalized_symbol.as_str()) {
            return false;
        }
        if text_before(self.venue, other.venue) {
            return true;
        }
        if !text_equal(self.venue, other.venue) {
            return false;
        }
        text_before(self.symbol.as_str(), other.symbol.as_str())
    }
}

/// `t` is the catalog entry of market `m` of venue `v`.
pub open spec fn is_listing_of(t: TickerListing, v: Venue, m: Market) -> bool {
    &&& t.normalized_symbol@ == m.spec_normalized_symbol()
    &&& t.symbol@ == m.symbol@
    &&& t.base@ == upper_text(trim_text(m.base@))
    &&& t.quote@ == upper_text(trim_text(m.quote@))
    &&& t.venue@ == venue_id(v)
    &&& t.venue_label@ == venue_label(v)
    &&& t.market_type@ == venue_market_type(v)
}

/// The active markets of `ms`, in order, each with the venue `v`.
pub open spec fn active_in(v: Venue, ms: Seq<Market>) -> Seq<(Venue, Market)>
    decreases ms.len(),
{
    if ms.len() == 0 {
        Seq::empty()
    } else {
        let r = active_in(v, ms.drop_last());
        if ms.last().active {
            r.push((v, ms.last()))
        } else {
            r
        }
    }
}

/// The active markets of every venue whose listing succeeded, in the order of the results.
pub open spec fn catalog_entries(results: Seq<(Venue, Result<Vec<Market>, AppError>)>) -> Seq<(Venue, Market)>
    decreases results.len(),
{
    if results.len() == 0 {
        Seq::empty()
    } else {
        catalog_entries(results.drop_last()) + match results.last().1 {
            Ok(ms) => active_in(results.last().0, ms@),
            Err(_) => Seq::empty(),
        }
    }
}

/// The error of the first venue whose listing failed, if any.
pub open spec fn first_error(results: Seq<(Venue, Result<Vec<Market>, AppError>)>) -> Option<AppError>
    decreases results.len(),
{
    if results.len() == 0 {
        None
    } else {
        match first_error(results.drop_last()) {
            Some(e) => Some(e),
            None => match results.last().1 {
                Err(e) => Some(e),
                Ok(_) => None,
            },
        }
    }
}

/// `s` holds, position by position, the catalog entries of `entries`.
pub open spec fn listings_for(s: Seq<TickerListing>, entries: Seq<(Venue, Market)>) -> bool {
    &&& s.len() == entries.len()
    &&& forall|k: int| 0 <= k < s.len() ==> #[trigger] is_listing_of(s[k], entries[k].0, entries[k].1)
}

/// The catalog entries of the active markets of every listed venue, and
/// the error of the first venue whose listing failed.
pub fn catalog_listings(results: &Vec<(Venue, Result<Vec<Market>, AppError>)>) -> (res: (Vec<TickerListing>, Option<AppError>))
    ensures
        listings_for(res.0@, catalog_entries(results@)),
        res.1 == first_error(results@),
{
    let mut out: Vec<TickerListing> = Vec::new();
    let mut err: Option<AppError> = None;
    let mut i: usize = 0;
    while i < results.len()
        invariant
            i <= results.len(),
            listings_for(out@, catalog_entries(results@.take(i as int))),
            err == first_error(results@.take(i as int)),
        decreases results.len() - i,
    {
        assert(results@.take(i + 1).drop_last() == results@.take(i as int));
        let venue = results[i].0;
        match &results[i].1 {
            Ok(markets) => {
                let ghost base = out@;
                let ghost prefix = catalog_entries(results@.take(i as int));
                let mut j: usize = 0;
                while j < markets.len()
                    invariant
                        j <= markets.len(),
                        out@.len() == base.len() + active_in(venue, markets@.take(j as int)).len(),
                        out@.subrange(0, base.len() as int) == base,
                        listings_for(base, prefix),
                        forall|k: int| 0 <= k < active_in(venue, markets@.take(j as int)).len() ==> #[trigger] is_listing_of(
                            out@[base.len() + k],
                            active_in(venue, markets@.take(j as int))[k].0,
                            active_in(venue, markets@.take(j as int))[k].1,
                        ),
                    decreases markets.len() - j,
                {
                    assert(markets@.take(j + 1).drop_last() == markets@.take(j as int));
                    if markets[j].active {
                        let t = TickerListing::from_market(venue, &markets[j]);
                        out.push(t);
                    }
                    j += 1;
                    assert(out@.subrange(0, base.len() as int) =~= base);
                }
                assert(markets@.take(markets.len() as int) == markets@);
                proof {
                    let added = active_in(venue, markets@);
                    let all = catalog_entries(results@.take(i + 1));
                    assert(all == prefix + added);
                    assert forall|k: int| 0 <= k < out@.len() implies #[trigger] is_listing_of(out@[k], all[k].0, all[k].1) by {
                        if k < base.len() {
                            assert(out@[k] == base[k]);
                            assert(is_listing_of(base[k], prefix[k].0, prefix[k].1));
                        } else {
                            assert(is_listing_of(out@[base.len() + (k - base.len())], added[k - base.len()].0, added[k - base.len()].1));
                        }
                    }
                }
            },
            Err(e) => {
                if err.is_none() {
                    err = Some(e.duplicate());
                }
                assert(catalog_entries(results@.take(i + 1)) =~= catalog_entries(results@.take(i as int)));
            },
        }
        i += 1;
    }
    assert(results@.take(results.len() as int) == results@);
    (out, err)
}

/// `s` with every entry dropped whose venue and symbol equal those of the
/// last entry kept before it (`Vec::dedup_by`).
pub open spec fn dedup_listings(s: Seq<TickerListing>) -> Seq<TickerListing>
    decreases s.len(),
{
    if s.len() == 0 {
        s
    } else {
        let r = dedup_listings(s.drop_last());
        if r.len() > 0 && r.last().venue@ == s.last().venue@ && r.last().symbol@ == s.last().symbol@ {
            r
        } else {
            r.push(s.last())
        }
    }
}

/// The error of an empty catalog when no venue reported one.
pub open spec fn is_empty_catalog_error(e: AppError) -> bool {
    e matches AppError::Upstream { venue, message } && venue@ == "ticker_catalog"@ && message@
        == "no venue catalogs were available"@
}

/// The cross-venue ticker catalog: every active market of every venue whose
/// listing succeeded, sorted by canonical notation, venue and symbol, with
/// repeated venue-and-symbol entries dropped. When no venue contributes a
/// market, the error of the first failed venue, or else a catalog error.
pub fn assemble_catalog(results: &Vec<(Venue, Result<Vec<Market>, AppError>)>) -> (res: Result<Vec<TickerListing>, AppError>)
    ensures
        match res {
            Ok(c) => catalog_entries(results@).len() > 0 && exists|s: Seq<TickerListing>, t: Seq<TickerListing>|
                #![trigger listings_for(s, catalog_entries(results@)), dedup_listings(t)]
                listings_for(s, catalog_entries(results@)) && is_sorted(t) && t.to_multiset()
                    == s.to_multiset() && c@ == dedup_listings(t),
            Err(e) => catalog_entries(results@).len() == 0 && match first_error(results@) {
                Some(f) => e == f,
                None => is_empty_catalog_error(e),
            },
        },
{
    let (listings, err) = catalog_listings(results);
    if listings.len() == 0 {
        return match err {
            Some(e) => Err(e),
            None => Err(AppError::Upstream {
                venue: "ticker_catalog".to_owned(),
                message: "no venue catalogs were available".to_owned(),
            }),
        };
    }
    let ghost unsorted = listings@;
    let sorted = sort_listed(listings);
    let mut res: Vec<TickerListing> = Vec::new();
    let mut i: usize = 0;
    while i < sorted.len()
        invariant
            i <= sorted.len(),
            res@ == dedup_listings(sorted@.take(i as int)),
        decreases sorted.len() - i,
    {
        assert(sorted@.take(i + 1).drop_last() == sorted@.take(i as int));
        let keep = if res.len() > 0 {
            let last = &res[res.len() - 1];
            !(text_equal(last.venue, sorted[i].venue) && text_equal(last.symbol.as_str(), sorted[i].symbol.as_str()))
        } else {
            true
        };
        if keep {
            res.push(sorted[i].duplicate());
        }
        i += 1;
    }
    assert(sorted@.take(sorted.len() as int) == sorted@);
    assert(listings_for(unsorted, catalog_entries(results@)) && is_sorted(sorted@)
        && sorted@.to_multiset() == unsorted.to_multiset() && res@ == dedup_listings(sorted@));
    Ok(res)
}


/// A market found by a search, in the notations the API answers with.
#[derive(Debug, Clone, PartialEq)]
pub struct MarketSearchResult {
    pub symbol: String,
    pub normalized_symbol: String,
    pub base: String,
    pub quote: String,
    pub active: bool,
}

/// `r` presents market `m`.
pub open spec fn is_result_of(r: MarketSearchResult, m: Market) -> bool {
    &&& r.symbol@ == m.symbol@
    &&& r.normalized_symbol@ == m.spec_normalized_symbol()
    &&& r.base@ == upper_text(trim_text(m.base@))
    &&& r.quote@ == upper_text(trim_text(m.quote@))
    &&& r.active == m.active
}

impl MarketSearchResult {
    /// The presentation of `market` in search results.
    pub fn from_market(market: &Market) -> (res: MarketSearchResult)
        ensures
            is_result_of(res, *market),
    {
        let base = trim_upper(market.base.as_str());
        let quote = trim_upper(market.quote.as_str());
        MarketSearchResult {
            symbol: market.symbol.clone(),
            normalized_symbol: market.normalized_symbol(),
            base: string_from(&base),
            quote: string_from(&quote),
            active: market.active,
        }
    }
}

/// A search hit with its relevance rank.
#[derive(Debug, Clone)]
pub struct RankedMarket {
    pub rank: u8,
    pub result: MarketSearchResult,
}

/// Market hits are listed by rank, then canonical notation, then native symbol.
impl ListOrder for RankedMarket {
    open spec fn precedes(self, other: Self) -> bool {
        ||| self.rank < other.rank
        ||| self.rank == other.rank && text_less(self.result.normalized_symbol@, other.result.normalized_symbol@)
        ||| self.rank == other.rank && self.result.normalized_symbol@ == other.result.normalized_symbol@
            && text_less(self.result.symbol@, other.result.symbol@)
    }

    proof fn precedes_irreflexive(a: Self) {
        lemma_text_less_irreflexive(a.result.normalized_symbol@);
        lemma_text_less_irreflexive(a.result.symbol@);
    }

    proof fn precedes_transitive(a: Self, b: Self, c: Self) {
        let (x, y, z) = (a.result, b.result, c.result);
        if text_less(x.normalized_symbol@, y.normalized_symbol@) && text_less(y.normalized_symbol@, z.normalized_symbol@) {
            lemma_text_less_transitive(x.normalized_symbol@, y.normalized_symbol@, z.normalized_symbol@);
        }
        if text_less(x.symbol@, y.symbol@) && text_less(y.symbol@, z.symbol@) {
            lemma_text_less_transitive(x.symbol@, y.symbol@, z.symbol@);
        }
    }

    fn listed_before(&self, other: &Self) -> (res: bool) {
        if self.rank != other.rank {
            return self.rank < other.rank;
        }
        if text_before(self.result.normalized_symbol.as_str(), other.result.normalized_symbol.as_str()) {
            return true;
        }
        if !text_equal(self.result.normalized_symbol.as_str(), other.result.normalized_symbol.as_str()) {
            return false;
        }
        text_before(self.result.symbol.as_str(), other.result.symbol.as_str())
    }
}

/// The active markets of `ms` that a search for `needle` finds, in order.
pub open spec fn market_hits(ms: Seq<Market>, needle: Seq<char>) -> Seq<Market>
    decreases ms.len(),
{
    if ms.len() == 0 {
        Seq::empty()
    } else {
        let r = market_hits(ms.drop_last(), needle);
        if ms.last().active && market_matches_text(ms.last(), needle) {
            r.push(ms.last())
        } else {
            r
        }
    }
}

/// `t` holds, position by position, the ranked presentations of `hits`.
pub open spec fn ranked_for(t: Seq<RankedMarket>, hits: Seq<Market>, needle: Seq<char>) -> bool {
    &&& t.len() == hits.len()
    &&& forall|k: int| 0 <= k < t.len() ==> #[trigger] is_result_of(t[k].result, hits[k]) && t[k].rank
        == search_rank_of(t[k].result.symbol@, t[k].result.normalized_symbol@, t[k].result.base@, needle)
}

/// The first `n` entries of `t`, or all of them when there are fewer.
pub open spec fn first_results(t: Seq<RankedMarket>, n: usize) -> Seq<MarketSearchResult> {
    let m = if t.len() < n { t.len() as int } else { n as int };
    t.take(m).map_values(|x: RankedMarket| x.result)
}

/// The markets of one venue that a search finds: the active ones whose
/// notations contain the compact query, ranked and then listed by canonical
/// notation and symbol, at most `limit` of them, with the number found.
pub fn search_markets(markets: &Vec<Market>, query: &str, limit: usize) -> (res: (usize, Vec<MarketSearchResult>))
    ensures
        res.0 == market_hits(markets@, compact_text(query@)).len(),
        exists|u: Seq<RankedMarket>, t: Seq<RankedMarket>| #![trigger ranked_for(u, market_hits(markets@, compact_text(query@)), compact_text(query@)), first_results(t, limit)]
            ranked_for(u, market_hits(markets@, compact_text(query@)), compact_text(query@))
            && is_sorted(t) && t.to_multiset() == u.to_multiset() && res.1@ == first_results(t, limit),
{
    let needle_chars = compact_chars(query);
    let needle = string_from(&needle_chars);
    let ghost n = compact_text(query@);
    let mut hits: Vec<RankedMarket> = Vec::new();
    let mut i: usize = 0;
    while i < markets.len()
        invariant
            i <= markets.len(),
            needle@ == n,
            ranked_for(hits@, market_hits(markets@.take(i as int), n), n),
        decreases markets.len() - i,
    {
        assert(markets@.take(i + 1).drop_last() == markets@.take(i as int));
        let m = &markets[i];
        if m.active && market_matches(m, needle.as_str()) {
            let result = MarketSearchResult::from_market(m);
            let rank = search_rank(result.symbol.as_str(), result.normalized_symbol.as_str(), result.base.as_str(), needle.as_str());
            let ghost before = hits@;
            hits.push(RankedMarket { rank, result });
            proof {
                let h = market_hits(markets@.take(i + 1), n);
                assert forall|k: int| 0 <= k < hits@.len() implies #[trigger] is_result_of(hits@[k].result, h[k]) && hits@[k].rank
                    == search_rank_of(hits@[k].result.symbol@, hits@[k].result.normalized_symbol@, hits@[k].result.base@, n) by {
                    if k < before.len() {
                        assert(hits@[k] == before[k]);
                        assert(is_result_of(before[k].result, market_hits(markets@.take(i as int), n)[k]));
                    }
                }
            }
        }
        i += 1;
    }
    assert(markets@.take(markets.len() as int) == markets@);
    let ghost unsorted = hits@;
    let total = hits.len();
    let mut sorted = sort_listed(hits);
    let ghost whole = sorted@;
    if sorted.len() > limit {
        sorted.truncate(limit);
    }
    let mut out: Vec<MarketSearchResult> = Vec::new();
    let mut k: usize = 0;
    while k < sorted.len()
        invariant
            k <= sorted.len(),
            sorted@ == whole.take(sorted@.len() as int),
            sorted@.len() == (if whole.len() < limit { whole.len() as int } else { limit as int }),
            out@ == whole.take(k as int).map_values(|x: RankedMarket| x.result),
        decreases sorted.len() - k,
    {
        let r = &sorted[k].result;
        out.push(MarketSearchResult {
            symbol: r.symbol.clone(),
            normalized_symbol: r.normalized_symbol.clone(),
            base: r.base.clone(),
            quote: r.quote.clone(),
            active: r.active,
        });
        k += 1;
        assert(whole.take(k as int).map_values(|x: RankedMarket| x.result) =~= whole.take(k - 1).map_values(|x: RankedMarket| x.result).push(whole[k - 1].result));
    }
    assert(ranked_for(unsorted, market_hits(markets@, n), n) && is_sorted(whole)
        && whole.to_multiset() == unsorted.to_multiset() && out@ == first_results(whole, limit));
    (total, out)
}


/// A catalog entry found by a search, with its relevance rank.
#[derive(Debug, Clone)]
pub struct RankedTicker {
    pub rank: u8,
    pub listing: TickerListing,
}

/// Ticker hits are listed by rank, then catalog order.
impl ListOrder for RankedTicker {
    open spec fn precedes(self, other: Self) -> bool {
        ||| self.rank < other.rank
        ||| self.rank == other.rank && self.listing.precedes(other.listing)
    }

    proof fn precedes_irreflexive(a: Self) {
        TickerListing::precedes_irreflexive(a.listing);
    }

    proof fn precedes_transitive(a: Self, b: Self, c: Self) {
        if a.listing.precedes(b.listing) && b.listing.precedes(c.listing) {
            TickerListing::precedes_transitive(a.listing, b.listing, c.listing);
        }
    }

    fn listed_before(&self, other: &Self) -> (res: bool) {
        if self.rank != other.rank {
            return self.rank < other.rank;
        }
        self.listing.listed_before(&other.listing)
    }
}

/// Whether a ticker search restricted to `venue` (if any) for the compact `needle` finds `t`.
pub open spec fn ticker_found(t: TickerListing, venue: Option<Venue>, needle: Seq<char>) -> bool {
    &&& match venue {
        Some(v) => t.venue@ == venue_id(v),
        None => true,
    }
    &&& needle.len() == 0 || contains_text(search_key_text(t), needle)
}

/// The entries of `ts` that a ticker search finds, in order.
pub open spec fn ticker_hits(ts: Seq<TickerListing>, venue: Option<Venue>, needle: Seq<char>) -> Seq<TickerListing>
    decreases ts.len(),
{
    if ts.len() == 0 {
        Seq::empty()
    } else {
        let r = ticker_hits(ts.drop_last(), venue, needle);
        if ticker_found(ts.last(), venue, needle) {
            r.push(ts.last())
        } else {
            r
        }
    }
}

/// `t` holds, position by position, `hits` with their ranks.
pub open spec fn ranked_tickers_for(t: Seq<RankedTicker>, hits: Seq<TickerListing>, needle: Seq<char>) -> bool {
    &&& t.len() == hits.len()
    &&& forall|k: int| 0 <= k < t.len() ==> #[trigger] t[k].listing == hits[k] && t[k].rank == search_rank_of(
        hits[k].symbol@,
        hits[k].normalized_symbol@,
        hits[k].base@,
        needle,
    )
}

/// The first `n` entries of `t`, or all of them when there are fewer.
pub open spec fn first_tickers(t: Seq<RankedTicker>, n: usize) -> Seq<TickerListing> {
    let m = if t.len() < n { t.len() as int } else { n as int };
    t.take(m).map_values(|x: RankedTicker| x.listing)
}

/// The catalog entries that a ticker search finds: those of the requested
/// venue (if any) whose search key contains the compact query, ranked and
/// then listed in catalog order, at most `limit` of them, with the number found.
pub fn search_tickers(tickers: &Vec<TickerListing>, venue: Option<Venue>, query: &str, limit: usize) -> (res: (usize, Vec<TickerListing>))
    ensures
        res.0 == ticker_hits(tickers@, venue, compact_text(query@)).len(),
        exists|u: Seq<RankedTicker>, t: Seq<RankedTicker>| #![trigger ranked_tickers_for(u, ticker_hits(tickers@, venue, compact_text(query@)), compact_text(query@)), first_tickers(t, limit)]
            ranked_tickers_for(u, ticker_hits(tickers@, venue, compact_text(query@)), compact_text(query@))
            && is_sorted(t) && t.to_multiset() == u.to_multiset() && res.1@ == first_tickers(t, limit),
{
    let needle_chars = compact_chars(query);
    let needle = string_from(&needle_chars);
    let ghost n = compact_text(query@);
    let mut hits: Vec<RankedTicker> = Vec::new();
    let mut i: usize = 0;
    while i < tickers.len()
        invariant
            i <= tickers.len(),
            needle@ == n,
            needle_chars@ == n,
            ranked_tickers_for(hits@, ticker_hits(tickers@.take(i as int), venue, n), n),
        decreases tickers.len() - i,
    {
        assert(tickers@.take(i + 1).drop_last() == tickers@.take(i as int));
        let t = &tickers[i];
        let venue_ok = match venue {
            Some(v) => text_equal(t.venue, v.id()),
            None => true,
        };
        let key = t.search_key();
        let key_chars = chars_of(key.as_str());
        let contained = chars_contain(&key_chars, &needle_chars);
        let found = venue_ok && (needle_chars.len() == 0 || contained);
        assert(found == ticker_found(*t, venue, n));
        assert(tickers@.take(i + 1).last() == *t);
        if found {
            let rank = search_rank(t.symbol.as_str(), t.normalized_symbol.as_str(), t.base.as_str(), needle.as_str());
            let ghost before = hits@;
            hits.push(RankedTicker { rank, listing: t.duplicate() });
            proof {
                let h = ticker_hits(tickers@.take(i + 1), venue, n);
                assert(h == ticker_hits(tickers@.take(i as int), venue, n).push(*t));
                assert forall|k: int| 0 <= k < hits@.len() implies #[trigger] hits@[k].listing == h[k] && hits@[k].rank
                    == search_rank_of(h[k].symbol@, h[k].normalized_symbol@, h[k].base@, n) by {
                    if k < before.len() {
                        assert(hits@[k] == before[k]);
                    }
                }
            }
        } else {
            assert(ticker_hits(tickers@.take(i + 1), venue, n) == ticker_hits(tickers@.take(i as int), venue, n));
        }
        i += 1;
    }
    assert(tickers@.take(tickers.len() as int) == tickers@);
    let ghost unsorted = hits@;
    let total = hits.len();
    let mut sorted = sort_listed(hits);
    let ghost whole = sorted@;
    if sorted.len() > limit {
        sorted.truncate(limit);
    }
    let mut out: Vec<TickerListing> = Vec::new();
    let mut k: usize = 0;
    while k < sorted.len()
        invariant
            k <= sorted.len(),
            sorted@ == whole.take(sorted@.len() as int),
            sorted@.len() == (if whole.len() < limit { whole.len() as int } else { limit as int }),
            out@ == whole.take(k as int).map_values(|x: RankedTicker| x.listing),
        decreases sorted.len() - k,
    {
        out.push(sorted[k].listing.duplicate());
        k += 1;
        assert(whole.take(k as int).map_values(|x: RankedTicker| x.listing) =~= whole.take(k - 1).map_values(|x: RankedTicker| x.listing).push(whole[k - 1].listing));
    }
    assert(ranked_tickers_for(unsorted, ticker_hits(tickers@, venue, n), n) && is_sorted(whole)
        && whole.to_multiset() == unsorted.to_multiset() && out@ == first_tickers(whole, limit));
    (total, out)
}

} // verus!
