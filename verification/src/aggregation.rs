//! Aggregation across providers: merging the per-provider answers of a
//! fan-out query, merging order books, and spotting cross-provider
//! arbitrage.
use vstd::prelude::*;
use crate::adapters::{OrderBookLevel, OrderBookSnapshot};
use crate::decimal::{decimal_micros, fixed_text, format_micros, lemma_decimal_micros_bounded, parse_price_micros, MAX_PRICE_MICROS};
use crate::smart_router::trunc_div;
use crate::text::{str_eq, texts};
use crate::types::Market;

verus! {

// ─── Fan-out results ────────────────────────────────────────

/// What one provider answered to a fan-out query.
#[derive(Debug, Clone)]
pub struct ProviderResult<T> {
    pub provider: String,
    pub data: Option<T>,
    pub error: Option<String>,
    pub latency_ms: u64,
}

/// A provider that failed, with its error.
#[derive(Debug, Clone)]
pub struct ProviderError {
    pub provider: String,
    pub error: String,
}

/// Markets gathered from every provider.
#[derive(Debug, Clone)]
pub struct AggregatedMarkets {
    pub markets: Vec<Market>,
    /// Per provider: how many markets it returned.
    pub provider_results: Vec<ProviderResult<usize>>,
    pub total: usize,
    pub errors: Vec<ProviderError>,
}

/// Sort key of a market: its 24-hour volume in micros, zero when unreadable.
pub open spec fn volume_key(m: Market) -> int {
    match decimal_micros(m.volume.volume_24h@) {
        Some(v) => v,
        None => 0,
    }
}

/// `m` placed into a list ordered by falling volume: before the first market
/// with a strictly smaller volume, so that equal volumes keep their order.
pub open spec fn insert_by_volume(g: Seq<Market>, m: Market) -> Seq<Market>
    decreases g.len(),
{
    if g.len() == 0 {
        seq![m]
    } else if volume_key(m) > volume_key(g[0]) {
        seq![m] + g
    } else {
        seq![g[0]] + insert_by_volume(g.drop_first(), m)
    }
}

/// Markets ordered by falling 24-hour volume, ties in their original order.
pub open spec fn by_volume(s: Seq<Market>) -> Seq<Market>
    decreases s.len(),
{
    if s.len() == 0 {
        Seq::empty()
    } else {
        insert_by_volume(by_volume(s.drop_last()), s.last())
    }
}

/// Markets a provider answered with; none for a failed provider.
pub open spec fn markets_of(r: ProviderResult<Vec<Market>>) -> Seq<Market> {
    match r.data {
        Some(v) => v@,
        None => Seq::empty(),
    }
}

/// All markets of all answers, provider by provider.
pub open spec fn all_markets(rs: Seq<ProviderResult<Vec<Market>>>) -> Seq<Market>
    decreases rs.len(),
{
    if rs.len() == 0 {
        Seq::empty()
    } else {
        all_markets(rs.drop_last()) + markets_of(rs.last())
    }
}

/// The errors reported, as (provider, error) texts, in provider order: one
/// for each provider without data that gave an error.
pub open spec fn errors_of(rs: Seq<ProviderResult<Vec<Market>>>) -> Seq<(Seq<char>, Seq<char>)>
    decreases rs.len(),
{
    if rs.len() == 0 {
        Seq::empty()
    } else {
        let r = rs.last();
        let rest = errors_of(rs.drop_last());
        match (r.data, r.error) {
            (None, Some(e)) => rest.push((r.provider@, e@)),
            _ => rest,
        }
    }
}

/// The summary line of one provider's answer: the count of markets it
/// returned (zero when it failed), and its error only when it failed.
pub open spec fn summarises(s: ProviderResult<usize>, r: ProviderResult<Vec<Market>>) -> bool {
    &&& s.provider@ == r.provider@
    &&& s.latency_ms == r.latency_ms
    &&& match r.data {
        Some(v) => s.data == Some(v@.len() as usize) && s.error is None,
        None => s.data == Some(0usize) && s.error == r.error,
    }
}

proof fn lemma_insert_by_volume_at(g: Seq<Market>, m: Market, p: int)
    requires
        0 <= p <= g.len(),
        forall|k: int| 0 <= k < p ==> !(volume_key(m) > volume_key(#[trigger] g[k])),
        p < g.len() ==> volume_key(m) > volume_key(g[p]),
    ensures
        insert_by_volume(g, m) == g.insert(p, m),
    decreases p,
{
    if p == 0 {
        if g.len() == 0 {
            assert(g.insert(0, m) =~= seq![m]);
        } else {
            assert(g.insert(0, m) =~= seq![m] + g);
        }
    } else {
        let t = g.drop_first();
        assert(!(volume_key(m) > volume_key(g[0])));
        assert forall|k: int| 0 <= k < p - 1 implies !(volume_key(m) > volume_key(#[trigger] t[k])) by {
            assert(t[k] == g[k + 1]);
        }
        lemma_insert_by_volume_at(t, m, p - 1);
        assert(seq![g[0]] + t.insert(p - 1, m) =~= g.insert(p, m));
    }
}

/// Volume key of a market, computed.
fn market_volume_key(m: &Market) -> (k: i64)
    ensures
        k == volume_key(*m),
{
    match parse_price_micros(m.volume.volume_24h.as_str()) {
        Some(v) => v,
        None => 0,
    }
}

/// Merge the answers of a fan-out market query: every market returned,
/// ordered by falling 24-hour volume (ties in provider order), a summary
/// line per provider, and the errors of the providers that failed.
pub fn merge_market_results(results: Vec<ProviderResult<Vec<Market>>>) -> (agg: AggregatedMarkets)
    ensures
        agg.markets@ == by_volume(all_markets(results@)),
        agg.total == agg.markets@.len(),
        agg.provider_results@.len() == results@.len(),
        forall|i: int| 0 <= i < results@.len() ==> summarises(#[trigger] agg.provider_results@[i], results@[i]),
        agg.errors@.map_values(|e: ProviderError| (e.provider@, e.error@)) == errors_of(results@),
{
    let ghost orig = results@;
    assert(orig.len() == results.len());
    let mut rest = results;
    let mut sorted: Vec<Market> = Vec::new();
    let mut keys: Vec<i64> = Vec::new();
    let mut summaries: Vec<ProviderResult<usize>> = Vec::new();
    let mut errors: Vec<ProviderError> = Vec::new();
    let mut i: usize = 0;
    while rest.len() > 0
        invariant
            i <= orig.len(),
            rest@ == orig.skip(i as int),
            orig.skip(i as int).len() == orig.len() - i,
            orig.len() <= usize::MAX,
            sorted@ == by_volume(all_markets(orig.take(i as int))),
            keys@.len() == sorted@.len(),
            forall|k: int| 0 <= k < keys@.len() ==> keys@[k] == volume_key(#[trigger] sorted@[k]),
            summaries@.len() == i,
            forall|k: int| 0 <= k < i ==> summarises(#[trigger] summaries@[k], orig[k]),
            errors@.map_values(|e: ProviderError| (e.provider@, e.error@)) == errors_of(orig.take(i as int)),
        decreases orig.len() - i,
    {
        assert(orig.skip(i as int).len() == orig.len() - i);
        let r = rest.remove(0);
        assert(r == orig[i as int]);
        let ghost prefix = orig.take(i as int);
        let ghost next = orig.take(i as int + 1);
        assert(next.drop_last() =~= prefix);
        assert(next.last() == r);
        let ProviderResult { provider, data, error, latency_ms } = r;
        match data {
            Some(markets) => {
                let count = markets.len();
                let ghost incoming = markets@;
                let mut pending = markets;
                let mut j: usize = 0;
                while pending.len() > 0
                    invariant
                        j <= incoming.len(),
                        pending@ == incoming.skip(j as int),
                        incoming.skip(j as int).len() == incoming.len() - j,
                        incoming.len() == count,
                        sorted@ == by_volume(all_markets(prefix) + incoming.take(j as int)),
                        keys@.len() == sorted@.len(),
                        forall|k: int| 0 <= k < keys@.len() ==> keys@[k] == volume_key(#[trigger] sorted@[k]),
                    decreases incoming.len() - j,
                {
                    assert(incoming.skip(j as int).len() == incoming.len() - j);
                    let m = pending.remove(0);
                    assert(m == incoming[j as int]);
                    let key = market_volume_key(&m);
                    let mut p: usize = 0;
                    let mut found = false;
                    while p < sorted.len() && !found
                        invariant
                            key == volume_key(m),
                            keys@.len() == sorted@.len(),
                            forall|k: int| 0 <= k < keys@.len() ==> keys@[k] == volume_key(#[trigger] sorted@[k]),
                            p <= sorted@.len(),
                            forall|k: int| 0 <= k < p ==> !(volume_key(m) > volume_key(#[trigger] sorted@[k])),
                            found ==> p < sorted@.len() && volume_key(m) > volume_key(sorted@[p as int]),
                        decreases sorted@.len() - p, (if found { 0int } else { 1int }),
                    {
                        assert(keys@[p as int] == volume_key(sorted@[p as int]));
                        if key > keys[p] {
                            found = true;
                        } else {
                            p = p + 1;
                        }
                    }
                    proof {
                        let before = all_markets(prefix) + incoming.take(j as int);
                        let after = all_markets(prefix) + incoming.take(j as int + 1);
                        assert(after.drop_last() =~= before);
                        assert(after.last() == m);
                        lemma_insert_by_volume_at(sorted@, m, p as int);
                    }
                    let ghost ks = keys@;
                    let ghost ss = sorted@;
                    sorted.insert(p, m);
                    keys.insert(p, key);
                    proof {
                        assert forall|k: int| 0 <= k < keys@.len() implies keys@[k] == volume_key(#[trigger] sorted@[k]) by {
                            if k < p {
                                assert(keys@[k] == ks[k] && sorted@[k] == ss[k]);
                            } else if k == p {
                            } else {
                                assert(keys@[k] == ks[k - 1] && sorted@[k] == ss[k - 1]);
                            }
                        }
                    }
                    j = j + 1;
                }
                proof {
                    assert(incoming.skip(j as int).len() == incoming.len() - j);
                    assert(incoming.take(incoming.len() as int) =~= incoming);
                    assert(all_markets(next) == all_markets(prefix) + incoming);
                }
                summaries.push(ProviderResult { provider, data: Some(count), error: None, latency_ms });
                proof {
                    assert(errors_of(next) == errors_of(prefix));
                }
            },
            None => {
                proof {
                    assert(all_markets(prefix) + Seq::<Market>::empty() =~= all_markets(prefix));
                }
                match error {
                    Some(e) => {
                        let ghost before = errors@;
                        errors.push(ProviderError { provider: provider.clone(), error: e.clone() });
                        assert(errors@.map_values(|e: ProviderError| (e.provider@, e.error@)) =~= before.map_values(
                            |e: ProviderError| (e.provider@, e.error@),
                        ).push((provider@, e@)));
                        summaries.push(ProviderResult { provider, data: Some(0), error: Some(e), latency_ms });
                    },
                    None => {
                        summaries.push(ProviderResult { provider, data: Some(0), error: None, latency_ms });
                    },
                }
            },
        }
        proof {
            assert(orig.skip(i as int).drop_first() =~= orig.skip(i as int + 1));
        }
        i = i + 1;
    }
    proof {
        assert(orig.skip(i as int).len() == 0);
        assert(orig.take(i as int) =~= orig);
    }
    let total = sorted.len();
    AggregatedMarkets { markets: sorted, provider_results: summaries, total, errors }
}


// ─── Merged order books ─────────────────────────────────────

/// The order books one provider returned, with how long it took.
#[derive(Debug, Clone)]
pub struct ProviderBooks {
    pub provider: String,
    pub snapshots: Vec<OrderBookSnapshot>,
    pub latency_ms: u64,
}

/// What one provider offers at a merged price level.
#[derive(Debug, Clone)]
pub struct ProviderLevelContribution {
    pub provider: String,
    pub quantity: i64,
}

/// A price level of the merged book: the providers offering at that price
/// (the price as they wrote it) and their total.
#[derive(Debug, Clone)]
pub struct MergedLevel {
    pub price: String,
    pub total_quantity: i64,
    pub providers: Vec<ProviderLevelContribution>,
}

/// One provider's book as it was received.
#[derive(Debug, Clone)]
pub struct ProviderOrderBook {
    pub provider: String,
    pub bids: Vec<OrderBookLevel>,
    pub asks: Vec<OrderBookLevel>,
    pub latency_ms: u64,
}

/// A price divergence between two providers: one bids more than the other asks.
#[derive(Debug, Clone)]
pub struct ArbitrageOpportunity {
    pub description: String,
    /// Where to sell.
    pub bid_provider: String,
    pub bid_price: String,
    /// Where to buy.
    pub ask_provider: String,
    pub ask_price: String,
    /// The spread as a percentage of the ask, in millionths of a percent;
    /// `None` when the ask is zero.
    pub spread_pct_micros: Option<i128>,
    pub profit_per_contract: String,
}

/// The merged book of all providers.
#[derive(Debug, Clone)]
pub struct MergedOrderBook {
    pub market_id: String,
    pub outcome_id: String,
    /// Best (highest) bid first.
    pub bids: Vec<MergedLevel>,
    /// Best (lowest) ask first.
    pub asks: Vec<MergedLevel>,
    pub provider_books: Vec<ProviderOrderBook>,
    pub arbitrage: Option<ArbitrageOpportunity>,
}

/// A level offered by a provider: (price text, provider, quantity).
pub type LevelItem = (Seq<char>, Seq<char>, i64);

/// The levels of one side of some snapshots, all by the same provider.
pub open spec fn snapshot_items(ss: Seq<OrderBookSnapshot>, provider: Seq<char>, bids: bool) -> Seq<LevelItem>
    decreases ss.len(),
{
    if ss.len() == 0 {
        Seq::empty()
    } else {
        let s = ss.last();
        let ls = if bids { s.bids@ } else { s.asks@ };
        snapshot_items(ss.drop_last(), provider, bids) + ls.map_values(
            |l: OrderBookLevel| (l.price@, provider, l.quantity),
        )
    }
}

/// The levels of one side of every answer, in answer, snapshot and book order.
pub open spec fn side_items(answers: Seq<ProviderBooks>, bids: bool) -> Seq<LevelItem>
    decreases answers.len(),
{
    if answers.len() == 0 {
        Seq::empty()
    } else {
        side_items(answers.drop_last(), bids) + snapshot_items(
            answers.last().snapshots@,
            answers.last().provider@,
            bids,
        )
    }
}

/// The distinct price texts of some levels, in order of first appearance.
pub open spec fn distinct_prices(items: Seq<LevelItem>) -> Seq<Seq<char>>
    decreases items.len(),
{
    if items.len() == 0 {
        Seq::empty()
    } else {
        let d = distinct_prices(items.drop_last());
        if d.contains(items.last().0) { d } else { d.push(items.last().0) }
    }
}

/// The (provider, quantity) offers at one price text, in order.
pub open spec fn offers_at(items: Seq<LevelItem>, price: Seq<char>) -> Seq<(Seq<char>, i64)>
    decreases items.len(),
{
    if items.len() == 0 {
        Seq::empty()
    } else {
        let o = offers_at(items.drop_last(), price);
        if items.last().0 == price { o.push((items.last().1, items.last().2)) } else { o }
    }
}

/// Total quantity of some offers.
pub open spec fn offers_total(o: Seq<(Seq<char>, i64)>) -> int
    decreases o.len(),
{
    if o.len() == 0 {
        0
    } else {
        offers_total(o.drop_last()) + o.last().1
    }
}

/// Numeric value of a price text in micros; zero when it does not parse.
pub open spec fn price_key(p: Seq<char>) -> int {
    match decimal_micros(p) {
        Some(v) => v,
        None => 0,
    }
}

/// `p` comes strictly before `q` in a book side: bids best (highest) first,
/// asks best (lowest) first.
pub open spec fn level_ahead(p: Seq<char>, q: Seq<char>, bids: bool) -> bool {
    if bids { price_key(p) > price_key(q) } else { price_key(p) < price_key(q) }
}

/// `p` placed into an ordered list of price texts, after those it is not ahead of.
pub open spec fn insert_price(g: Seq<Seq<char>>, p: Seq<char>, bids: bool) -> Seq<Seq<char>>
    decreases g.len(),
{
    if g.len() == 0 {
        seq![p]
    } else if level_ahead(p, g[0], bids) {
        seq![p] + g
    } else {
        seq![g[0]] + insert_price(g.drop_first(), p, bids)
    }
}

/// Price texts in book order, equal values in order of first appearance.
pub open spec fn ordered_prices(s: Seq<Seq<char>>, bids: bool) -> Seq<Seq<char>>
    decreases s.len(),
{
    if s.len() == 0 {
        Seq::empty()
    } else {
        insert_price(ordered_prices(s.drop_last(), bids), s.last(), bids)
    }
}

/// The price texts of one side of the merged book, in book order.
pub open spec fn merged_prices(answers: Seq<ProviderBooks>, bids: bool) -> Seq<Seq<char>> {
    ordered_prices(distinct_prices(side_items(answers, bids)), bids)
}

/// One side of the merged book is: a level per distinct price text, in book
/// order, each with every provider's offer at that text and their total.
pub open spec fn is_merged_side(levels: Seq<MergedLevel>, answers: Seq<ProviderBooks>, bids: bool) -> bool {
    let items = side_items(answers, bids);
    let prices = merged_prices(answers, bids);
    &&& levels.len() == prices.len()
    &&& forall|k: int| 0 <= k < levels.len() ==> {
        let o = offers_at(items, prices[k]);
        &&& (#[trigger] levels[k]).price@ == prices[k]
        &&& levels[k].total_quantity == offers_total(o)
        &&& levels[k].providers@.map_values(|c: ProviderLevelContribution| (c.provider@, c.quantity)) == o
    }
}

/// Every price level's total quantity fits in an `i64`.
pub open spec fn totals_fit(answers: Seq<ProviderBooks>, bids: bool) -> bool {
    let items = side_items(answers, bids);
    forall|p: Seq<char>| i64::MIN <= #[trigger] offers_total(offers_at(items, p)) <= i64::MAX
}

/// The best price a provider quoted on one side of each snapshot: the
/// first level's price, when there is one and it parses.
pub open spec fn snapshot_tops(ss: Seq<OrderBookSnapshot>, provider: Seq<char>, bids: bool) -> Seq<(Seq<char>, int)>
    decreases ss.len(),
{
    if ss.len() == 0 {
        Seq::empty()
    } else {
        let s = ss.last();
        let ls = if bids { s.bids@ } else { s.asks@ };
        let rest = snapshot_tops(ss.drop_last(), provider, bids);
        if ls.len() > 0 && decimal_micros(ls[0].price@) is Some {
            rest.push((provider, decimal_micros(ls[0].price@)->0))
        } else {
            rest
        }
    }
}

/// Best quotes of every answer on one side, in answer and snapshot order.
pub open spec fn side_tops(answers: Seq<ProviderBooks>, bids: bool) -> Seq<(Seq<char>, int)>
    decreases answers.len(),
{
    if answers.len() == 0 {
        Seq::empty()
    } else {
        side_tops(answers.drop_last(), bids) + snapshot_tops(answers.last().snapshots@, answers.last().provider@, bids)
    }
}


// ─── Arbitrage detection ────────────────────────────────────

/// Bid `i` and ask `j` exist and come from different providers.
pub open spec fn cross_pair(bids: Seq<(Seq<char>, int)>, asks: Seq<(Seq<char>, int)>, i: int, j: int) -> bool {
    0 <= i < bids.len() && 0 <= j < asks.len() && bids[i].0 != asks[j].0
}

/// The pair (bid `i`, ask `j`) is preferred to, or is, the pair (`i2`, `j2`):
/// a wider spread first, then the later bid, then the earlier ask.
pub open spec fn pair_preferred(
    bids: Seq<(Seq<char>, int)>,
    asks: Seq<(Seq<char>, int)>,
    i: int,
    j: int,
    i2: int,
    j2: int,
) -> bool {
    let s = bids[i].1 - asks[j].1;
    let s2 = bids[i2].1 - asks[j2].1;
    s > s2 || (s == s2 && (i > i2 || (i == i2 && j <= j2)))
}

/// Bid `i` against ask `j` is the best cross-provider pair: the highest bid
/// and lowest ask that come from different providers.
pub open spec fn best_cross_pair(bids: Seq<(Seq<char>, int)>, asks: Seq<(Seq<char>, int)>, i: int, j: int) -> bool {
    &&& cross_pair(bids, asks, i, j)
    &&& forall|i2: int, j2: int| #[trigger] cross_pair(bids, asks, i2, j2) ==> pair_preferred(bids, asks, i, j, i2, j2)
}

/// The spread as a percentage of the ask, in millionths of a percent,
/// rounded toward zero; `None` for a zero ask.
pub open spec fn spread_pct_of(spread: int, ask: int) -> Option<int> {
    if ask == 0 {
        None
    } else if ask > 0 {
        Some(trunc_div(spread * 100_000_000, ask))
    } else {
        Some(-trunc_div(spread * 100_000_000, -ask))
    }
}

/// An optional `i128` as an optional integer.
pub open spec fn widen(o: Option<i128>) -> Option<int> {
    match o {
        Some(v) => Some(v as int),
        None => None,
    }
}

/// A percentage written with two decimals; `inf` when infinite.
pub open spec fn pct_text(p: Option<int>) -> Seq<char> {
    match p {
        Some(v) => fixed_text(v, 2),
        None => "inf"@,
    }
}

/// The sentence describing an opportunity.
pub open spec fn opportunity_text(bid_provider: Seq<char>, bid: int, ask_provider: Seq<char>, ask: int) -> Seq<char> {
    "Buy on "@ + ask_provider + " at "@ + fixed_text(ask, 4) + ", sell on "@ + bid_provider + " at "@
        + fixed_text(bid, 4) + " for "@ + fixed_text(bid - ask, 4) + " profit ("@ + pct_text(
        spread_pct_of(bid - ask, ask),
    ) + "%)"@
}

/// `o` describes selling at bid quote `b` and buying at ask quote `a`.
pub open spec fn describes(o: ArbitrageOpportunity, b: (Seq<char>, int), a: (Seq<char>, int)) -> bool {
    &&& o.bid_provider@ == b.0
    &&& o.bid_price@ == fixed_text(b.1, 4)
    &&& o.ask_provider@ == a.0
    &&& o.ask_price@ == fixed_text(a.1, 4)
    &&& widen(o.spread_pct_micros) == spread_pct_of(b.1 - a.1, a.1)
    &&& o.profit_per_contract@ == fixed_text(b.1 - a.1, 4)
    &&& o.description@ == opportunity_text(b.0, b.1, a.0, a.1)
}

/// The arbitrage found among best quotes: the best cross-provider pair,
/// when its bid is higher than its ask; none when no bid of one provider
/// is higher than an ask of another.
pub open spec fn is_detection(r: Option<ArbitrageOpportunity>, bids: Seq<(Seq<char>, int)>, asks: Seq<(Seq<char>, int)>) -> bool {
    match r {
        Some(o) => exists|i: int, j: int|
            #[trigger] best_cross_pair(bids, asks, i, j) && bids[i].1 > asks[j].1 && describes(o, bids[i], asks[j]),
        None => forall|i: int, j: int| #[trigger] cross_pair(bids, asks, i, j) ==> bids[i].1 <= asks[j].1,
    }
}

/// There is at most one best cross-provider pair.
pub proof fn law_best_cross_pair_unique(
    bids: Seq<(Seq<char>, int)>,
    asks: Seq<(Seq<char>, int)>,
    i: int,
    j: int,
    i2: int,
    j2: int,
)
    requires
        best_cross_pair(bids, asks, i, j),
        best_cross_pair(bids, asks, i2, j2),
    ensures
        i == i2 && j == j2,
{
    assert(cross_pair(bids, asks, i2, j2));
    assert(cross_pair(bids, asks, i, j));
}

/// When some provider bids above another provider's ask, an opportunity is
/// reported, and its spread is the widest of all cross-provider pairs.
pub proof fn law_detection_finds_widest_spread(
    r: Option<ArbitrageOpportunity>,
    bids: Seq<(Seq<char>, int)>,
    asks: Seq<(Seq<char>, int)>,
    i: int,
    j: int,
)
    requires
        is_detection(r, bids, asks),
        cross_pair(bids, asks, i, j),
        bids[i].1 > asks[j].1,
    ensures
        r is Some,
        exists|bi: int, aj: int|
            #[trigger] best_cross_pair(bids, asks, bi, aj) && bids[bi].1 - asks[aj].1 >= bids[i].1 - asks[j].1
                && describes(r->0, bids[bi], asks[aj]),
{
    if r is None {
        assert(bids[i].1 <= asks[j].1);
    }
    let (bi, aj) = choose|bi: int, aj: int|
        #[trigger] best_cross_pair(bids, asks, bi, aj) && bids[bi].1 > asks[aj].1 && describes(r->0, bids[bi], asks[aj]);
    assert(cross_pair(bids, asks, i, j));
    assert(pair_preferred(bids, asks, bi, aj, i, j));
}

/// Best quotes as texts and numbers.
pub open spec fn quotes_view(v: Seq<(String, i64)>) -> Seq<(Seq<char>, int)> {
    v.map_values(|q: (String, i64)| (q.0@, q.1 as int))
}

/// Find a cross-provider arbitrage among the providers' best bids and asks.
pub fn detect_arbitrage(best_bids: &Vec<(String, i64)>, best_asks: &Vec<(String, i64)>) -> (r: Option<ArbitrageOpportunity>)
    ensures
        is_detection(r, quotes_view(best_bids@), quotes_view(best_asks@)),
{
    let ghost bv = quotes_view(best_bids@);
    let ghost av = quotes_view(best_asks@);
    match best_cross_provider_pair(best_bids, best_asks) {
        None => None,
        Some((i, j)) => {
            let bid = best_bids[i].1;
            let ask = best_asks[j].1;
            if bid > ask {
                let o = describe_opportunity(&best_bids[i].0, bid, &best_asks[j].0, ask);
                assert(best_cross_pair(bv, av, i as int, j as int));
                Some(o)
            } else {
                assert forall|i2: int, j2: int| #[trigger] cross_pair(bv, av, i2, j2) implies bv[i2].1 <= av[j2].1 by {
                    assert(pair_preferred(bv, av, i as int, j as int, i2, j2));
                }
                None
            }
        },
    }
}

/// The pair (bid `i`, ask `j`) comes before (`i2`, `j2`) in the scan order.
pub open spec fn scanned_before(i: int, j: int, i2: int, j2: int) -> bool {
    i < i2 || (i == i2 && j < j2)
}

/// The best cross-provider pair among the quotes, if any pair has two
/// different providers.
fn best_cross_provider_pair(best_bids: &Vec<(String, i64)>, best_asks: &Vec<(String, i64)>) -> (r: Option<(usize, usize)>)
    ensures
        match r {
            Some((i, j)) => best_cross_pair(quotes_view(best_bids@), quotes_view(best_asks@), i as int, j as int),
            None => forall|i: int, j: int| !#[trigger] cross_pair(quotes_view(best_bids@), quotes_view(best_asks@), i, j),
        },
{
    let ghost bv = quotes_view(best_bids@);
    let ghost av = quotes_view(best_asks@);
    let n = best_bids.len();
    let m = best_asks.len();
    let mut best: Option<(usize, usize)> = None;
    let mut i: usize = 0;
    while i < n
        invariant
            bv == quotes_view(best_bids@),
            av == quotes_view(best_asks@),
            n == bv.len(),
            m == av.len(),
            i <= n,
            match best {
                Some((bi, bj)) => cross_pair(bv, av, bi as int, bj as int) && bi < i && forall|i2: int, j2: int|
                    #[trigger] cross_pair(bv, av, i2, j2) && i2 < i ==> pair_preferred(bv, av, bi as int, bj as int, i2, j2),
                None => forall|i2: int, j2: int| #[trigger] cross_pair(bv, av, i2, j2) ==> i2 >= i,
            },
        decreases n - i,
    {
        let mut j: usize = 0;
        while j < m
            invariant
                bv == quotes_view(best_bids@),
                av == quotes_view(best_asks@),
                n == bv.len(),
                m == av.len(),
                i < n,
                j <= m,
                match best {
                    Some((bi, bj)) => cross_pair(bv, av, bi as int, bj as int) && scanned_before(bi as int, bj as int, i as int, j as int)
                        && forall|i2: int, j2: int| #[trigger] cross_pair(bv, av, i2, j2) && scanned_before(i2, j2, i as int, j as int)
                        ==> pair_preferred(bv, av, bi as int, bj as int, i2, j2),
                    None => forall|i2: int, j2: int| #[trigger] cross_pair(bv, av, i2, j2) ==> !scanned_before(i2, j2, i as int, j as int),
                },
            decreases m - j,
        {
            if !str_eq(best_bids[i].0.as_str(), best_asks[j].0.as_str()) {
                assert(cross_pair(bv, av, i as int, j as int));
                let spread: i128 = (best_bids[i].1 as i128) - (best_asks[j].1 as i128);
                let take = match best {
                    None => true,
                    Some((bi, bj)) => {
                        let best_spread: i128 = (best_bids[bi].1 as i128) - (best_asks[bj].1 as i128);
                        spread > best_spread || (spread == best_spread && i > bi)
                    },
                };
                if take {
                    best = Some((i, j));
                }
            }
            j = j + 1;
        }
        i = i + 1;
    }
    best
}

/// The opportunity of selling at `bid` to `bid_provider` and buying at `ask`
/// from `ask_provider`.
fn describe_opportunity(bid_provider: &String, bid: i64, ask_provider: &String, ask: i64) -> (o: ArbitrageOpportunity)
    ensures
        describes(o, (bid_provider@, bid as int), (ask_provider@, ask as int)),
{
    let spread: i128 = (bid as i128) - (ask as i128);
    let pct: Option<i128> = if ask == 0 {
        None
    } else if ask > 0 {
        Some(div_toward_zero_i128(spread * 100_000_000, ask as i128))
    } else {
        Some(-div_toward_zero_i128(spread * 100_000_000, -(ask as i128)))
    };
    let bid_text = format_micros(bid as i128, 4);
    let ask_text = format_micros(ask as i128, 4);
    let spread_text = format_micros(spread, 4);
    let pct_string = match pct {
        Some(v) => {
            assert(v > i128::MIN) by {
                assert(-100_000_000 * 0x1_0000_0000_0000_0000 <= spread * 100_000_000 <= 100_000_000 * 0x1_0000_0000_0000_0000);
            }
            format_micros(v, 2)
        },
        None => {
            proof { reveal_strlit("inf"); }
            String::from_str("inf")
        },
    };
    proof {
        reveal_strlit("Buy on ");
        reveal_strlit(" at ");
        reveal_strlit(", sell on ");
        reveal_strlit(" for ");
        reveal_strlit(" profit (");
        reveal_strlit("%)");
        reveal_strlit("inf");
    }
    let mut d = String::from_str("Buy on ");
    d.append(ask_provider.as_str());
    d.append(" at ");
    d.append(ask_text.as_str());
    d.append(", sell on ");
    d.append(bid_provider.as_str());
    d.append(" at ");
    d.append(bid_text.as_str());
    d.append(" for ");
    d.append(spread_text.as_str());
    d.append(" profit (");
    d.append(pct_string.as_str());
    d.append("%)");
    ArbitrageOpportunity {
        description: d,
        bid_provider: bid_provider.clone(),
        bid_price: bid_text,
        ask_provider: ask_provider.clone(),
        ask_price: ask_text,
        spread_pct_micros: pct,
        profit_per_contract: spread_text,
    }
}

/// `a` divided by a positive `b`, rounded toward zero.
fn div_toward_zero_i128(a: i128, b: i128) -> (q: i128)
    requires
        b > 0,
        a > i128::MIN,
    ensures
        q == trunc_div(a as int, b as int),
        -(if a >= 0 { a as int } else { -a }) <= q <= (if a >= 0 { a as int } else { -a }),
{
    if a >= 0 {
        assert(a / b <= a) by (nonlinear_arith)
            requires
                a >= 0,
                b > 0,
        ;
        a / b
    } else {
        let m: i128 = -a;
        assert(m / b <= m) by (nonlinear_arith)
            requires
                m >= 0,
                b > 0,
        ;
        -(m / b)
    }
}


// ─── Merging the books ──────────────────────────────────────

/// A level offered by a provider, as collected.
#[derive(Debug, Clone)]
pub struct PricedOffer {
    pub price: String,
    pub provider: String,
    pub quantity: i64,
}

/// The collected levels as texts and quantities.
pub open spec fn offers_view(v: Seq<PricedOffer>) -> Seq<LevelItem> {
    v.map_values(|o: PricedOffer| (o.price@, o.provider@, o.quantity))
}

/// The per-provider books of some answers: one per snapshot, in order.
pub open spec fn books_of(answers: Seq<ProviderBooks>) -> Seq<(Seq<char>, Seq<OrderBookLevel>, Seq<OrderBookLevel>, u64)>
    decreases answers.len(),
{
    if answers.len() == 0 {
        Seq::empty()
    } else {
        let a = answers.last();
        books_of(answers.drop_last()) + a.snapshots@.map_values(
            |s: OrderBookSnapshot| (a.provider@, s.bids@, s.asks@, a.latency_ms),
        )
    }
}

/// The received books as texts and levels.
pub open spec fn provider_books_view(v: Seq<ProviderOrderBook>) -> Seq<(Seq<char>, Seq<OrderBookLevel>, Seq<OrderBookLevel>, u64)> {
    v.map_values(|b: ProviderOrderBook| (b.provider@, b.bids@, b.asks@, b.latency_ms))
}

/// A copy of some levels.
fn copy_levels(ls: &Vec<OrderBookLevel>) -> (r: Vec<OrderBookLevel>)
    ensures
        r@ == ls@,
{
    let mut r: Vec<OrderBookLevel> = Vec::new();
    let mut i: usize = 0;
    while i < ls.len()
        invariant
            i <= ls@.len(),
            r@ == ls@.take(i as int),
        decreases ls@.len() - i,
    {
        r.push(OrderBookLevel { price: ls[i].price.clone(), quantity: ls[i].quantity });
        assert(r@ =~= ls@.take(i as int + 1));
        i = i + 1;
    }
    assert(ls@.take(ls@.len() as int) =~= ls@);
    r
}

/// Append the offers of some levels of one provider.
fn push_offers(out: &mut Vec<PricedOffer>, ls: &Vec<OrderBookLevel>, provider: &String)
    ensures
        offers_view(final(out)@) == offers_view(old(out)@) + ls@.map_values(
            |l: OrderBookLevel| (l.price@, provider@, l.quantity),
        ),
{
    let ghost start = offers_view(out@);
    let mut i: usize = 0;
    while i < ls.len()
        invariant
            i <= ls@.len(),
            offers_view(out@) == start + ls@.take(i as int).map_values(
                |l: OrderBookLevel| (l.price@, provider@, l.quantity),
            ),
        decreases ls@.len() - i,
    {
        let ghost before = offers_view(out@);
        let price = ls[i].price.clone();
        let who = provider.clone();
        out.push(PricedOffer { price, provider: who, quantity: ls[i].quantity });
        assert(offers_view(out@) =~= before.push((ls@[i as int].price@, provider@, ls@[i as int].quantity)));
        assert(ls@.take(i as int + 1).map_values(|l: OrderBookLevel| (l.price@, provider@, l.quantity)) =~= ls@.take(
            i as int,
        ).map_values(|l: OrderBookLevel| (l.price@, provider@, l.quantity)).push(
            (ls@[i as int].price@, provider@, ls@[i as int].quantity),
        ));
        i = i + 1;
    }
    assert(ls@.take(ls@.len() as int) =~= ls@);
}

/// Append the best quote of some levels, when there is one and it parses.
fn push_top(out: &mut Vec<(String, i64)>, ls: &Vec<OrderBookLevel>, provider: &String)
    ensures
        quotes_view(final(out)@) == (if ls@.len() > 0 && decimal_micros(ls@[0].price@) is Some {
            quotes_view(old(out)@).push((provider@, decimal_micros(ls@[0].price@)->0))
        } else {
            quotes_view(old(out)@)
        }),
{
    let ghost start = quotes_view(out@);
    if ls.len() > 0 {
        match parse_price_micros(ls[0].price.as_str()) {
            Some(p) => {
                out.push((provider.clone(), p));
                assert(quotes_view(out@) =~= start.push((provider@, p as int)));
            },
            None => {},
        }
    }
}

/// Everything collected from the answers, side by side.
struct Collected {
    bids: Vec<PricedOffer>,
    asks: Vec<PricedOffer>,
    top_bids: Vec<(String, i64)>,
    top_asks: Vec<(String, i64)>,
    books: Vec<ProviderOrderBook>,
}

fn collect_answers(answers: &Vec<ProviderBooks>) -> (c: Collected)
    ensures
        offers_view(c.bids@) == side_items(answers@, true),
        offers_view(c.asks@) == side_items(answers@, false),
        quotes_view(c.top_bids@) == side_tops(answers@, true),
        quotes_view(c.top_asks@) == side_tops(answers@, false),
        provider_books_view(c.books@) == books_of(answers@),
{
    let mut c = Collected {
        bids: Vec::new(),
        asks: Vec::new(),
        top_bids: Vec::new(),
        top_asks: Vec::new(),
        books: Vec::new(),
    };
    let mut i: usize = 0;
    while i < answers.len()
        invariant
            i <= answers@.len(),
            offers_view(c.bids@) == side_items(answers@.take(i as int), true),
            offers_view(c.asks@) == side_items(answers@.take(i as int), false),
            quotes_view(c.top_bids@) == side_tops(answers@.take(i as int), true),
            quotes_view(c.top_asks@) == side_tops(answers@.take(i as int), false),
            provider_books_view(c.books@) == books_of(answers@.take(i as int)),
        decreases answers@.len() - i,
    {
        let a = &answers[i];
        let ghost pre = answers@.take(i as int);
        let ghost b0 = offers_view(c.bids@);
        let ghost a0 = offers_view(c.asks@);
        let ghost tb0 = quotes_view(c.top_bids@);
        let ghost ta0 = quotes_view(c.top_asks@);
        let ghost bk0 = provider_books_view(c.books@);
        let mut j: usize = 0;
        while j < a.snapshots.len()
            invariant
                j <= a.snapshots@.len(),
                offers_view(c.bids@) == b0 + snapshot_items(a.snapshots@.take(j as int), a.provider@, true),
                offers_view(c.asks@) == a0 + snapshot_items(a.snapshots@.take(j as int), a.provider@, false),
                quotes_view(c.top_bids@) == tb0 + snapshot_tops(a.snapshots@.take(j as int), a.provider@, true),
                quotes_view(c.top_asks@) == ta0 + snapshot_tops(a.snapshots@.take(j as int), a.provider@, false),
                provider_books_view(c.books@) == bk0 + a.snapshots@.take(j as int).map_values(
                    |s: OrderBookSnapshot| (a.provider@, s.bids@, s.asks@, a.latency_ms),
                ),
            decreases a.snapshots@.len() - j,
        {
            let snap = &a.snapshots[j];
            let ghost t = a.snapshots@.take(j as int + 1);
            assert(t.drop_last() =~= a.snapshots@.take(j as int));
            assert(t.last() == *snap);
            let ghost sb = snapshot_items(a.snapshots@.take(j as int), a.provider@, true);
            let ghost sa = snapshot_items(a.snapshots@.take(j as int), a.provider@, false);
            let ghost stb = snapshot_tops(a.snapshots@.take(j as int), a.provider@, true);
            let ghost sta = snapshot_tops(a.snapshots@.take(j as int), a.provider@, false);
            let ghost bks = provider_books_view(c.books@);
            push_offers(&mut c.bids, &snap.bids, &a.provider);
            push_offers(&mut c.asks, &snap.asks, &a.provider);
            push_top(&mut c.top_bids, &snap.bids, &a.provider);
            push_top(&mut c.top_asks, &snap.asks, &a.provider);
            let who = a.provider.clone();
            let bids_copy = copy_levels(&snap.bids);
            let asks_copy = copy_levels(&snap.asks);
            c.books.push(ProviderOrderBook { provider: who, bids: bids_copy, asks: asks_copy, latency_ms: a.latency_ms });
            assert(provider_books_view(c.books@) =~= bks.push((a.provider@, snap.bids@, snap.asks@, a.latency_ms)));
            assert(t.map_values(|s: OrderBookSnapshot| (a.provider@, s.bids@, s.asks@, a.latency_ms)) =~= a.snapshots@.take(
                j as int,
            ).map_values(|s: OrderBookSnapshot| (a.provider@, s.bids@, s.asks@, a.latency_ms)).push(
                (a.provider@, snap.bids@, snap.asks@, a.latency_ms),
            ));
            proof {
                assert(offers_view(c.bids@) =~= b0 + snapshot_items(t, a.provider@, true));
                assert(offers_view(c.asks@) =~= a0 + snapshot_items(t, a.provider@, false));
                assert(quotes_view(c.top_bids@) =~= tb0 + snapshot_tops(t, a.provider@, true));
                assert(quotes_view(c.top_asks@) =~= ta0 + snapshot_tops(t, a.provider@, false));
                assert(provider_books_view(c.books@) =~= bk0 + t.map_values(
                    |s: OrderBookSnapshot| (a.provider@, s.bids@, s.asks@, a.latency_ms),
                ));
            }
            j = j + 1;
        }
        proof {
            let t = answers@.take(i as int + 1);
            assert(t.drop_last() =~= pre);
            assert(t.last() == *a);
            assert(a.snapshots@.take(a.snapshots@.len() as int) =~= a.snapshots@);
            assert(offers_view(c.bids@) =~= side_items(t, true));
            assert(offers_view(c.asks@) =~= side_items(t, false));
            assert(quotes_view(c.top_bids@) =~= side_tops(t, true));
            assert(quotes_view(c.top_asks@) =~= side_tops(t, false));
            assert(provider_books_view(c.books@) =~= books_of(t));
        }
        i = i + 1;
    }
    assert(answers@.take(answers@.len() as int) =~= answers@);
    c
}


/// The distinct price texts of the collected levels, first appearance first.
fn distinct_price_texts(items: &Vec<PricedOffer>) -> (r: Vec<String>)
    ensures
        texts(r@) == distinct_prices(offers_view(items@)),
{
    let ghost iv = offers_view(items@);
    let mut r: Vec<String> = Vec::new();
    let mut i: usize = 0;
    while i < items.len()
        invariant
            iv == offers_view(items@),
            i <= items@.len(),
            texts(r@) == distinct_prices(iv.take(i as int)),
        decreases items@.len() - i,
    {
        let price = &items[i].price;
        let mut k: usize = 0;
        let mut found = false;
        while k < r.len() && !found
            invariant
                k <= r@.len(),
                forall|m: int| 0 <= m < k ==> (#[trigger] r@[m])@ != price@,
                found ==> k < r@.len() && r@[k as int]@ == price@,
            decreases r@.len() - k, (if found { 0int } else { 1int }),
        {
            if str_eq(r[k].as_str(), price.as_str()) {
                found = true;
            } else {
                k = k + 1;
            }
        }
        let ghost t = iv.take(i as int + 1);
        assert(t.drop_last() =~= iv.take(i as int));
        assert(t.last().0 == price@);
        let ghost d = texts(r@);
        if found {
            assert(d[k as int] == price@);
            assert(d.contains(price@));
        } else {
            assert forall|m: int| 0 <= m < d.len() implies d[m] != price@ by {
                assert(d[m] == r@[m]@);
            }
            assert(!d.contains(price@));
            r.push(price.clone());
            assert(texts(r@) =~= d.push(price@));
        }
        i = i + 1;
    }
    assert(iv.take(items@.len() as int) =~= iv);
    r
}

proof fn lemma_insert_price_at(g: Seq<Seq<char>>, x: Seq<char>, bids: bool, p: int)
    requires
        0 <= p <= g.len(),
        forall|k: int| 0 <= k < p ==> !level_ahead(x, #[trigger] g[k], bids),
        p < g.len() ==> level_ahead(x, g[p], bids),
    ensures
        insert_price(g, x, bids) == g.insert(p, x),
    decreases p,
{
    if p == 0 {
        if g.len() == 0 {
            assert(g.insert(0, x) =~= seq![x]);
        } else {
            assert(g.insert(0, x) =~= seq![x] + g);
        }
    } else {
        let t = g.drop_first();
        assert(!level_ahead(x, g[0], bids));
        assert forall|k: int| 0 <= k < p - 1 implies !level_ahead(x, #[trigger] t[k], bids) by {
            assert(t[k] == g[k + 1]);
        }
        lemma_insert_price_at(t, x, bids, p - 1);
        assert(seq![g[0]] + t.insert(p - 1, x) =~= g.insert(p, x));
    }
}

/// Price texts in book order.
fn order_price_texts(prices: &Vec<String>, bids: bool) -> (r: Vec<String>)
    ensures
        texts(r@) == ordered_prices(texts(prices@), bids),
{
    let ghost pv = texts(prices@);
    let mut r: Vec<String> = Vec::new();
    let mut keys: Vec<i64> = Vec::new();
    let mut i: usize = 0;
    while i < prices.len()
        invariant
            pv == texts(prices@),
            i <= prices@.len(),
            texts(r@) == ordered_prices(pv.take(i as int), bids),
            keys@.len() == r@.len(),
            forall|k: int| 0 <= k < keys@.len() ==> keys@[k] == price_key((#[trigger] r@[k])@),
        decreases prices@.len() - i,
    {
        let x = &prices[i];
        let key: i64 = match parse_price_micros(x.as_str()) {
            Some(v) => v,
            None => 0,
        };
        let ghost g = texts(r@);
        let mut p: usize = 0;
        let mut found = false;
        while p < r.len() && !found
            invariant
                g == texts(r@),
                key == price_key(x@),
                keys@.len() == r@.len(),
                forall|k: int| 0 <= k < keys@.len() ==> keys@[k] == price_key((#[trigger] r@[k])@),
                p <= r@.len(),
                forall|k: int| 0 <= k < p ==> !level_ahead(x@, #[trigger] g[k], bids),
                found ==> p < r@.len() && level_ahead(x@, g[p as int], bids),
            decreases r@.len() - p, (if found { 0int } else { 1int }),
        {
            assert(keys@[p as int] == price_key(r@[p as int]@));
            assert(g[p as int] == r@[p as int]@);
            let ahead = if bids { key > keys[p] } else { key < keys[p] };
            if ahead {
                found = true;
            } else {
                p = p + 1;
            }
        }
        proof {
            lemma_insert_price_at(g, x@, bids, p as int);
            let t = pv.take(i as int + 1);
            assert(t.drop_last() =~= pv.take(i as int));
            assert(t.last() == x@);
        }
        let ghost ks = keys@;
        let ghost rs = r@;
        r.insert(p, x.clone());
        keys.insert(p, key);
        proof {
            assert(texts(r@) =~= g.insert(p as int, x@));
            assert forall|k: int| 0 <= k < keys@.len() implies keys@[k] == price_key((#[trigger] r@[k])@) by {
                if k < p {
                    assert(keys@[k] == ks[k] && r@[k] == rs[k]);
                } else if k > p {
                    assert(keys@[k] == ks[k - 1] && r@[k] == rs[k - 1]);
                }
            }
        }
        i = i + 1;
    }
    assert(pv.take(prices@.len() as int) =~= pv);
    r
}

/// The offers at one price text and their total.
fn offers_for(items: &Vec<PricedOffer>, price: &String) -> (r: (Vec<ProviderLevelContribution>, i128))
    ensures
        r.0@.map_values(|c: ProviderLevelContribution| (c.provider@, c.quantity)) == offers_at(offers_view(items@), price@),
        r.1 == offers_total(offers_at(offers_view(items@), price@)),
{
    let ghost iv = offers_view(items@);
    let n = items.len();
    assert(items@.len() == n);
    let mut out: Vec<ProviderLevelContribution> = Vec::new();
    let mut total: i128 = 0;
    let mut i: usize = 0;
    while i < items.len()
        invariant
            iv == offers_view(items@),
            i <= items@.len(),
            items@.len() <= usize::MAX,
            out@.map_values(|c: ProviderLevelContribution| (c.provider@, c.quantity)) == offers_at(iv.take(i as int), price@),
            total == offers_total(offers_at(iv.take(i as int), price@)),
            -(i as int) * 0x8000_0000_0000_0000 <= total <= (i as int) * 0x8000_0000_0000_0000,
        decreases items@.len() - i,
    {
        let t = &items[i];
        let ghost pre = iv.take(i as int);
        let ghost nxt = iv.take(i as int + 1);
        assert(nxt.drop_last() =~= pre);
        assert(nxt.last() == (t.price@, t.provider@, t.quantity));
        if str_eq(t.price.as_str(), price.as_str()) {
            let ghost before = out@.map_values(|c: ProviderLevelContribution| (c.provider@, c.quantity));
            out.push(ProviderLevelContribution { provider: t.provider.clone(), quantity: t.quantity });
            assert(out@.map_values(|c: ProviderLevelContribution| (c.provider@, c.quantity)) =~= before.push(
                (t.provider@, t.quantity),
            ));
            let ghost o = offers_at(nxt, price@);
            assert(o.drop_last() =~= offers_at(pre, price@));
            total = total + t.quantity as i128;
        }
        i = i + 1;
    }
    assert(iv.take(items@.len() as int) =~= iv);
    (out, total)
}

/// One side of the merged book.
fn merge_side(items: &Vec<PricedOffer>, bids: bool) -> (levels: Vec<MergedLevel>)
    requires
        forall|p: Seq<char>| i64::MIN <= #[trigger] offers_total(offers_at(offers_view(items@), p)) <= i64::MAX,
    ensures
        ({
            let iv = offers_view(items@);
            let prices = ordered_prices(distinct_prices(iv), bids);
            &&& levels@.len() == prices.len()
            &&& forall|k: int| 0 <= k < levels@.len() ==> {
                let o = offers_at(iv, prices[k]);
                &&& (#[trigger] levels@[k]).price@ == prices[k]
                &&& levels@[k].total_quantity == offers_total(o)
                &&& levels@[k].providers@.map_values(|c: ProviderLevelContribution| (c.provider@, c.quantity)) == o
            }
        }),
{
    let ghost iv = offers_view(items@);
    let distinct = distinct_price_texts(items);
    let ordered = order_price_texts(&distinct, bids);
    let ghost prices = texts(ordered@);
    let mut levels: Vec<MergedLevel> = Vec::new();
    let mut k: usize = 0;
    while k < ordered.len()
        invariant
            iv == offers_view(items@),
            prices == texts(ordered@),
            prices == ordered_prices(distinct_prices(iv), bids),
            forall|p: Seq<char>| i64::MIN <= #[trigger] offers_total(offers_at(iv, p)) <= i64::MAX,
            k <= ordered@.len(),
            levels@.len() == k,
            forall|m: int| 0 <= m < k ==> {
                let o = offers_at(iv, prices[m]);
                &&& (#[trigger] levels@[m]).price@ == prices[m]
                &&& levels@[m].total_quantity == offers_total(o)
                &&& levels@[m].providers@.map_values(|c: ProviderLevelContribution| (c.provider@, c.quantity)) == o
            },
        decreases ordered@.len() - k,
    {
        let (offers, total) = offers_for(items, &ordered[k]);
        assert(prices[k as int] == ordered@[k as int]@);
        assert(i64::MIN <= offers_total(offers_at(iv, ordered@[k as int]@)) <= i64::MAX);
        levels.push(MergedLevel { price: ordered[k].clone(), total_quantity: total as i64, providers: offers });
        k = k + 1;
    }
    levels
}

/// Merge the books every provider returned into one book: a level per
/// distinct price text on each side (bids best first, asks best first),
/// every received book as it came, and the cross-provider arbitrage among
/// the providers' best quotes.
pub fn merge_orderbooks(answers: &Vec<ProviderBooks>, outcome_id: Option<&str>) -> (book: MergedOrderBook)
    requires
        totals_fit(answers@, true),
        totals_fit(answers@, false),
    ensures
        is_merged_side(book.bids@, answers@, true),
        is_merged_side(book.asks@, answers@, false),
        provider_books_view(book.provider_books@) == books_of(answers@),
        is_detection(book.arbitrage, side_tops(answers@, true), side_tops(answers@, false)),
        book.market_id@ == Seq::<char>::empty(),
        book.outcome_id@ == (match outcome_id {
            Some(o) => o@,
            None => "yes"@,
        }),
{
    let c = collect_answers(answers);
    let bids = merge_side(&c.bids, true);
    let asks = merge_side(&c.asks, false);
    let arbitrage = detect_arbitrage(&c.top_bids, &c.top_asks);
    let outcome = match outcome_id {
        Some(o) => o.to_string(),
        None => {
            proof { reveal_strlit("yes"); }
            "yes".to_string()
        },
    };
    MergedOrderBook {
        market_id: String::new(),
        outcome_id: outcome,
        bids,
        asks,
        provider_books: c.books,
        arbitrage,
    }
}


// ─── Laws ───────────────────────────────────────────────────

proof fn lemma_insert_by_volume_len(g: Seq<Market>, m: Market)
    ensures
        insert_by_volume(g, m).len() == g.len() + 1,
    decreases g.len(),
{
    if g.len() > 0 && !(volume_key(m) > volume_key(g[0])) {
        lemma_insert_by_volume_len(g.drop_first(), m);
    }
}

/// Merging the answers loses no market and invents none: the merged list
/// is as long as all the answers' lists together.
pub proof fn law_merge_keeps_every_market(s: Seq<Market>)
    ensures
        by_volume(s).len() == s.len(),
    decreases s.len(),
{
    if s.len() > 0 {
        law_merge_keeps_every_market(s.drop_last());
        lemma_insert_by_volume_len(by_volume(s.drop_last()), s.last());
    }
}

/// No price text comes after one it is ahead of.
pub open spec fn prices_ordered(g: Seq<Seq<char>>, bids: bool) -> bool {
    forall|i: int, j: int| 0 <= i < j < g.len() ==> !level_ahead(#[trigger] g[j], #[trigger] g[i], bids)
}

proof fn lemma_insert_price_members(g: Seq<Seq<char>>, x: Seq<char>, bids: bool)
    ensures
        insert_price(g, x, bids).len() == g.len() + 1,
        forall|k: int|
            0 <= k < g.len() + 1 ==> #[trigger] insert_price(g, x, bids)[k] == x || g.contains(insert_price(g, x, bids)[k]),
    decreases g.len(),
{
    let r = insert_price(g, x, bids);
    if g.len() > 0 && !level_ahead(x, g[0], bids) {
        let t = g.drop_first();
        lemma_insert_price_members(t, x, bids);
        assert forall|k: int| 0 <= k < g.len() + 1 implies #[trigger] r[k] == x || g.contains(r[k]) by {
            if k > 0 {
                let rt = insert_price(t, x, bids);
                assert(r[k] == rt[k - 1]);
                if rt[k - 1] != x {
                    let w = choose|w: int| 0 <= w < t.len() && t[w] == rt[k - 1];
                    assert(g[w + 1] == r[k]);
                }
            } else {
                assert(r[0] == g[0]);
            }
        }
    } else if g.len() > 0 {
        assert forall|k: int| 0 <= k < g.len() + 1 implies #[trigger] r[k] == x || g.contains(r[k]) by {
            if k > 0 {
                assert(r[k] == g[k - 1]);
            }
        }
    }
}

proof fn lemma_insert_price_ordered(g: Seq<Seq<char>>, x: Seq<char>, bids: bool)
    requires
        prices_ordered(g, bids),
    ensures
        prices_ordered(insert_price(g, x, bids), bids),
    decreases g.len(),
{
    let r = insert_price(g, x, bids);
    if g.len() == 0 {
    } else if level_ahead(x, g[0], bids) {
        assert forall|i: int, j: int| 0 <= i < j < r.len() implies !level_ahead(#[trigger] r[j], #[trigger] r[i], bids) by {
            if i == 0 {
                assert(r[j] == g[j - 1]);
                if j - 1 > 0 {
                    assert(!level_ahead(g[j - 1], g[0], bids));
                }
            } else {
                assert(r[i] == g[i - 1] && r[j] == g[j - 1]);
            }
        }
    } else {
        let t = g.drop_first();
        assert forall|i: int, j: int| 0 <= i < j < t.len() implies !level_ahead(#[trigger] t[j], #[trigger] t[i], bids) by {
            assert(t[i] == g[i + 1] && t[j] == g[j + 1]);
        }
        lemma_insert_price_ordered(t, x, bids);
        lemma_insert_price_members(t, x, bids);
        let rt = insert_price(t, x, bids);
        assert forall|i: int, j: int| 0 <= i < j < r.len() implies !level_ahead(#[trigger] r[j], #[trigger] r[i], bids) by {
            if i == 0 {
                assert(r[0] == g[0]);
                assert(r[j] == rt[j - 1]);
                if rt[j - 1] != x {
                    let w = choose|w: int| 0 <= w < t.len() && t[w] == rt[j - 1];
                    assert(t[w] == g[w + 1]);
                    assert(!level_ahead(g[w + 1], g[0], bids));
                }
            } else {
                assert(r[i] == rt[i - 1] && r[j] == rt[j - 1]);
            }
        }
    }
}

/// A merged book side is in book order: no bid level is above an earlier
/// one, no ask level below an earlier one.
pub proof fn law_merged_side_best_first(s: Seq<Seq<char>>, bids: bool)
    ensures
        prices_ordered(ordered_prices(s, bids), bids),
    decreases s.len(),
{
    if s.len() > 0 {
        law_merged_side_best_first(s.drop_last(), bids);
        lemma_insert_price_ordered(ordered_prices(s.drop_last(), bids), s.last(), bids);
    }
}


// ─── Bounded merging ────────────────────────────────────────

/// A price with offers on a side is one of its distinct prices.
proof fn lemma_offered_price_is_distinct(items: Seq<LevelItem>, p: Seq<char>)
    requires
        offers_at(items, p).len() > 0,
    ensures
        distinct_prices(items).contains(p),
    decreases items.len(),
{
    if items.len() > 0 {
        let d = distinct_prices(items.drop_last());
        if items.last().0 == p {
            if !d.contains(p) {
                assert(d.push(p)[d.len() as int] == p);
            }
        } else {
            lemma_offered_price_is_distinct(items.drop_last(), p);
            if !d.contains(items.last().0) {
                let k = choose|k: int| 0 <= k < d.len() && d[k] == p;
                assert(d.push(items.last().0)[k] == p);
            }
        }
    }
}

/// `true` when every price total of these offers fits in an `i64`.
fn totals_within_i64(items: &Vec<PricedOffer>) -> (r: bool)
    ensures
        r == forall|p: Seq<char>| i64::MIN <= #[trigger] offers_total(offers_at(offers_view(items@), p)) <= i64::MAX,
{
    let ghost iv = offers_view(items@);
    let distinct = distinct_price_texts(items);
    let ghost ds = texts(distinct@);
    let mut k: usize = 0;
    while k < distinct.len()
        invariant
            iv == offers_view(items@),
            ds == texts(distinct@),
            ds == distinct_prices(iv),
            k <= distinct@.len(),
            forall|m: int| 0 <= m < k ==> i64::MIN <= #[trigger] offers_total(offers_at(iv, ds[m])) <= i64::MAX,
        decreases distinct@.len() - k,
    {
        let (_, total) = offers_for(items, &distinct[k]);
        assert(ds[k as int] == distinct@[k as int]@);
        if total < i64::MIN as i128 || total > i64::MAX as i128 {
            return false;
        }
        k = k + 1;
    }
    assert forall|p: Seq<char>| i64::MIN <= #[trigger] offers_total(offers_at(iv, p)) <= i64::MAX by {
        if offers_at(iv, p).len() > 0 {
            lemma_offered_price_is_distinct(iv, p);
            let m = choose|m: int| 0 <= m < ds.len() && ds[m] == p;
            assert(i64::MIN <= offers_total(offers_at(iv, ds[m])) <= i64::MAX);
        } else {
            assert(offers_total(offers_at(iv, p)) == 0);
        }
    }
    true
}

/// The merged book of some answers when every price level's total quantity
/// fits in an `i64`; `None` when some level's total does not.
pub fn merge_orderbooks_checked(answers: &Vec<ProviderBooks>, outcome_id: Option<&str>) -> (r: Option<MergedOrderBook>)
    ensures
        r is Some <==> totals_fit(answers@, true) && totals_fit(answers@, false),
        r matches Some(book) ==> {
            &&& is_merged_side(book.bids@, answers@, true)
            &&& is_merged_side(book.asks@, answers@, false)
            &&& provider_books_view(book.provider_books@) == books_of(answers@)
            &&& is_detection(book.arbitrage, side_tops(answers@, true), side_tops(answers@, false))
            &&& book.market_id@ == Seq::<char>::empty()
            &&& book.outcome_id@ == (match outcome_id {
                Some(o) => o@,
                None => "yes"@,
            })
        },
{
    let c = collect_answers(answers);
    if totals_within_i64(&c.bids) && totals_within_i64(&c.asks) {
        Some(merge_orderbooks(answers, outcome_id))
    } else {
        None
    }
}

} // verus!
