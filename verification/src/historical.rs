//! Historical data ingestion: validated price ticks, the per-provider data
//! sources and the pipeline that feeds fetched history into the price index.
//! Prices and volumes are micros; times are Unix seconds.
use vstd::prelude::*;
use crate::price_index::{
    PriceIndex, PriceTick, Resolution, MAX_EPOCH_SECONDS, series_ingested, max_candles_of, align_of, seconds_of,
    Candle,
};
use crate::types::UniversalMarketId;

verus! {

/// Errors of historical data operations.
#[derive(Debug, Clone)]
pub enum HistoricalError {
    ProviderNotAvailable(String),
    NoDataAvailable(String),
    ApiError { provider: String, message: String },
    ValidationError(String),
    TimeRangeError(String),
}

/// A price tick from a historical source.
#[derive(Debug, Clone, Copy)]
pub struct HistoricalTick {
    pub timestamp: i64,
    pub price: i64,
    pub volume: i64,
    pub bid: Option<i64>,
    pub ask: Option<i64>,
}

/// Why a tick is rejected, if it is: a price outside `[0, 1]`, a negative
/// volume, or a bid above the ask.
pub open spec fn tick_rejection(t: HistoricalTick) -> Option<Seq<char>> {
    if !(0 <= t.price <= 1_000_000) {
        Some("Price outside valid range [0, 1]"@)
    } else if t.volume < 0 {
        Some("Volume cannot be negative"@)
    } else if t.bid is Some && t.ask is Some && t.bid.unwrap() > t.ask.unwrap() {
        Some("Bid price cannot exceed ask price"@)
    } else {
        None
    }
}

impl HistoricalTick {
    pub fn new(timestamp: i64, price: i64, volume: i64) -> (r: Self)
        ensures
            r == (HistoricalTick { timestamp, price, volume, bid: None, ask: None }),
    {
        HistoricalTick { timestamp, price, volume, bid: None, ask: None }
    }

    pub fn with_spreads(timestamp: i64, price: i64, volume: i64, bid: i64, ask: i64) -> (r: Self)
        ensures
            r == (HistoricalTick { timestamp, price, volume, bid: Some(bid), ask: Some(ask) }),
    {
        HistoricalTick { timestamp, price, volume, bid: Some(bid), ask: Some(ask) }
    }

    /// Check the tick: price in `[0, 1]`, non-negative volume, bid not
    /// above ask.
    pub fn validate(&self) -> (r: Result<(), HistoricalError>)
        ensures
            match tick_rejection(*self) {
                None => r is Ok,
                Some(msg) => r matches Err(HistoricalError::ValidationError(m)) && m@ == msg,
            },
    {
        if !(0 <= self.price && self.price <= 1_000_000) {
            return Err(HistoricalError::ValidationError(String::from_str("Price outside valid range [0, 1]")));
        }
        if self.volume < 0 {
            return Err(HistoricalError::ValidationError(String::from_str("Volume cannot be negative")));
        }
        match (self.bid, self.ask) {
            (Some(bid), Some(ask)) => {
                if bid > ask {
                    return Err(HistoricalError::ValidationError(String::from_str("Bid price cannot exceed ask price")));
                }
            },
            _ => {},
        }
        Ok(())
    }
}

/// What a source holds for one market.
#[derive(Debug, Clone)]
pub struct HistoricalMarketInfo {
    pub native_market_id: String,
    pub description: String,
    pub earliest_data: i64,
    pub latest_data: i64,
    pub tick_count: u64,
}

impl HistoricalMarketInfo {
    pub fn new(id: String, description: String, earliest: i64, latest: i64, ticks: u64) -> (r: Self)
        ensures
            r.native_market_id == id,
            r.description == description,
            r.earliest_data == earliest,
            r.latest_data == latest,
            r.tick_count == ticks,
    {
        HistoricalMarketInfo { native_market_id: id, description, earliest_data: earliest, latest_data: latest, tick_count: ticks }
    }
}

/// A history request must start strictly before it ends.
pub fn check_time_range(from: i64, to: i64) -> (r: Result<(), HistoricalError>)
    ensures
        r is Ok <==> from < to,
        r matches Err(e) ==> e matches HistoricalError::TimeRangeError(m) && m@ == "Start time must be before end time"@,
{
    if from >= to {
        return Err(HistoricalError::TimeRangeError(String::from_str("Start time must be before end time")));
    }
    Ok(())
}

/// Seeded xorshift64 generator for reproducible mock data.
#[derive(Debug, Clone, Copy)]
pub struct SimpleRng {
    pub state: u64,
}

/// One xorshift64 step (shifts 13, 7, 17).
pub open spec fn xorshift_step(s: u64) -> u64 {
    let a = s ^ ((s << 13u64) as u64);
    let b = a ^ (a >> 7u64);
    b ^ ((b << 17u64) as u64)
}

impl SimpleRng {
    /// A generator seeded with `seed`; a zero seed is replaced by `0xDEADBEEF`.
    pub fn from_seed(seed: u64) -> (r: Self)
        ensures
            r.state == if seed == 0 { 0xDEADBEEFu64 } else { seed },
    {
        SimpleRng { state: if seed == 0 { 0xDEADBEEF } else { seed } }
    }

    /// Advance the generator and return its new state.
    pub fn next_u64(&mut self) -> (r: u64)
        ensures
            final(self).state == xorshift_step(old(self).state),
            r == final(self).state,
    {
        let s = self.state;
        let a = s ^ (s << 13u64);
        let b = a ^ (a >> 7u64);
        let c = b ^ (b << 17u64);
        self.state = c;
        c
    }
}

/// A nonzero state never steps to zero, so the generator never sticks.
pub proof fn lemma_xorshift_nonzero(s: u64)
    requires
        s != 0,
    ensures
        xorshift_step(s) != 0,
{
    assert(s != 0 ==> (s ^ ((s << 13u64) as u64)) != 0) by (bit_vector);
    let a = s ^ ((s << 13u64) as u64);
    assert(a != 0 ==> (a ^ (a >> 7u64)) != 0) by (bit_vector);
    let b = a ^ (a >> 7u64);
    assert(b != 0 ==> (b ^ ((b << 17u64) as u64)) != 0) by (bit_vector);
}

/// Kalshi historical source (mock data in development).
#[derive(Debug, Clone)]
pub struct KalshiHistorical {
    pub api_endpoint: String,
    pub use_mock_data: bool,
}

impl KalshiHistorical {
    pub fn new(api_endpoint: String, use_mock_data: bool) -> (r: Self)
        ensures
            r.api_endpoint == api_endpoint,
            r.use_mock_data == use_mock_data,
    {
        KalshiHistorical { api_endpoint, use_mock_data }
    }

    pub fn dev() -> (r: Self)
        ensures
            r.api_endpoint@ == "https://api.kalshi.com/v2"@,
            r.use_mock_data,
    {
        Self::new(String::from_str("https://api.kalshi.com/v2"), true)
    }

    pub fn provider_id(&self) -> (r: &'static str)
        ensures
            r@ == "kalshi.com"@,
    {
        "kalshi.com"
    }
}

/// Polymarket historical source (mock data in development).
#[derive(Debug, Clone)]
pub struct PolymarketHistorical {
    pub subgraph_url: String,
    pub use_mock_data: bool,
}

impl PolymarketHistorical {
    pub fn new(subgraph_url: String, use_mock_data: bool) -> (r: Self)
        ensures
            r.subgraph_url == subgraph_url,
            r.use_mock_data == use_mock_data,
    {
        PolymarketHistorical { subgraph_url, use_mock_data }
    }

    pub fn dev() -> (r: Self)
        ensures
            r.subgraph_url@ == "https://api.thegraph.com/subgraphs/name/polymarket/subgraph"@,
            r.use_mock_data,
    {
        Self::new(String::from_str("https://api.thegraph.com/subgraphs/name/polymarket/subgraph"), true)
    }

    pub fn provider_id(&self) -> (r: &'static str)
        ensures
            r@ == "polymarket.com"@,
    {
        "polymarket.com"
    }
}

/// Opinion.trade historical source (mock data in development).
#[derive(Debug, Clone)]
pub struct OpinionHistorical {
    pub api_key: Option<String>,
    pub use_mock_data: bool,
}

impl OpinionHistorical {
    pub fn new(api_key: Option<String>, use_mock_data: bool) -> (r: Self)
        ensures
            r.api_key == api_key,
            r.use_mock_data == use_mock_data,
    {
        OpinionHistorical { api_key, use_mock_data }
    }

    pub fn dev() -> (r: Self)
        ensures
            r.api_key is None,
            r.use_mock_data,
    {
        Self::new(None, true)
    }

    pub fn provider_id(&self) -> (r: &'static str)
        ensures
            r@ == "opinion.trade"@,
    {
        "opinion.trade"
    }
}

/// Counters of the ingestion pipeline.
#[derive(Debug, Clone, Copy)]
pub struct IngestionStats {
    pub ticks_ingested: u64,
    pub errors_encountered: u64,
    pub markets_processed: u64,
}

impl Default for IngestionStats {
    fn default() -> (r: Self)
        ensures
            r.ticks_ingested == 0,
            r.errors_encountered == 0,
            r.markets_processed == 0,
    {
        IngestionStats { ticks_ingested: 0, errors_encountered: 0, markets_processed: 0 }
    }
}

/// The price index after feeding these ticks, in order, to market `m`,
/// outcome `o`.
pub open spec fn candles_after(c: Seq<Candle>, ticks: Seq<HistoricalTick>, r: Resolution) -> Seq<Candle>
    decreases ticks.len(),
{
    if ticks.len() == 0 {
        c
    } else {
        let t = ticks.last();
        series_ingested(
            candles_after(c, ticks.drop_last(), r),
            max_candles_of(r),
            t.price,
            align_of(r, t.timestamp as int) as i64,
            seconds_of(r),
        )
    }
}

/// Feeds fetched history into a price index and counts what it did. The
/// fetching itself (asynchronous calls to the sources) is done by the caller,
/// which reports each outcome here.
#[derive(Debug)]
pub struct IngestionPipeline {
    price_index: PriceIndex,
    ticks_ingested: u64,
    errors_encountered: u64,
    markets_processed: u64,
}

impl IngestionPipeline {
    /// The index the pipeline feeds.
    pub closed spec fn index(&self) -> PriceIndex {
        self.price_index
    }

    /// The index the pipeline feeds.
    pub fn price_index(&self) -> (r: &PriceIndex)
        ensures
            *r == self.index(),
    {
        &self.price_index
    }

    pub closed spec fn counters(&self) -> (u64, u64, u64) {
        (self.ticks_ingested, self.errors_encountered, self.markets_processed)
    }

    pub fn new(price_index: PriceIndex) -> (r: Self)
        ensures
            r.index() == price_index,
            r.counters() == (0u64, 0u64, 0u64),
    {
        IngestionPipeline { price_index, ticks_ingested: 0, errors_encountered: 0, markets_processed: 0 }
    }

    /// Record that fetching history from a source failed.
    pub fn record_fetch_error(&mut self)
        ensures
            final(self).index() == old(self).index(),
            final(self).counters() == (old(self).counters().0, old(self).counters().1.wrapping_add(1), old(self).counters().2),
    {
        self.errors_encountered = self.errors_encountered.wrapping_add(1);
    }

    /// Ingest the ticks fetched for `provider_id`/`market_id` under the
    /// market `upp:{provider}:{market}`, outcome `yes`; returns the tick count.
    pub fn ingest_fetched(&mut self, provider_id: &str, market_id: &str, ticks: Vec<HistoricalTick>) -> (r: u64)
        requires
            forall|i: int| 0 <= i < ticks@.len() ==> -MAX_EPOCH_SECONDS <= (#[trigger] ticks@[i]).timestamp <= MAX_EPOCH_SECONDS,
        ensures
            r == ticks@.len(),
            final(self).counters() == (
                old(self).counters().0.wrapping_add(ticks@.len() as u64),
                old(self).counters().1,
                old(self).counters().2.wrapping_add(1),
            ),
            ({
                let m = crate::types::full_id_of(provider_id@, market_id@);
                &&& forall|res: Resolution| #[trigger] final(self).index().candles(m, "yes"@, res)
                    == candles_after(old(self).index().candles(m, "yes"@, res), ticks@, res)
                &&& forall|m2: Seq<char>, o2: Seq<char>, res: Resolution| !(m2 == m && o2 == "yes"@)
                    ==> #[trigger] final(self).index().candles(m2, o2, res) == old(self).index().candles(m2, o2, res)
            }),
    {
        let id = UniversalMarketId::new(provider_id, market_id);
        let full = id.to_full_id();
        let ghost m = full@;
        let n = ticks.len();
        let mut i: usize = 0;
        while i < n
            invariant
                i <= n,
                n == ticks@.len(),
                m == full@,
                forall|k: int| 0 <= k < ticks@.len() ==> -MAX_EPOCH_SECONDS <= (#[trigger] ticks@[k]).timestamp <= MAX_EPOCH_SECONDS,
                forall|res: Resolution| #[trigger] self.price_index.candles(m, "yes"@, res)
                    == candles_after(old(self).price_index.candles(m, "yes"@, res), ticks@.subrange(0, i as int), res),
                forall|m2: Seq<char>, o2: Seq<char>, res: Resolution| !(m2 == m && o2 == "yes"@)
                    ==> #[trigger] self.price_index.candles(m2, o2, res) == old(self).price_index.candles(m2, o2, res),
                self.counters() == old(self).counters(),
            decreases n - i,
        {
            let t = ticks[i];
            let tick = PriceTick {
                market_id: String::from_str(full.as_str()),
                outcome_id: String::from_str("yes"),
                price: t.price,
                timestamp: t.timestamp,
            };
            assert(tick.market_id@ == m);
            assert(tick.outcome_id@ == "yes"@);
            self.price_index.ingest(tick);
            proof {
                assert forall|res: Resolution| #[trigger] self.price_index.candles(m, "yes"@, res)
                    == candles_after(old(self).price_index.candles(m, "yes"@, res), ticks@.subrange(0, i + 1), res) by {
                    assert(ticks@.subrange(0, i + 1).drop_last() =~= ticks@.subrange(0, i as int));
                    assert(ticks@.subrange(0, i + 1).last() == t);
                }
            }
            i = i + 1;
        }
        assert(ticks@.subrange(0, n as int) =~= ticks@);
        assert(self.index() == self.price_index);
        assert(old(self).index() == old(self).price_index);
        self.ticks_ingested = self.ticks_ingested.wrapping_add(n as u64);
        self.markets_processed = self.markets_processed.wrapping_add(1);
        n as u64
    }

    /// Feed one live tick to the index the history goes to; the counters,
    /// which count history, stay as they are.
    pub fn ingest_live(&mut self, tick: PriceTick)
        requires
            -MAX_EPOCH_SECONDS <= tick.timestamp <= MAX_EPOCH_SECONDS,
        ensures
            final(self).counters() == old(self).counters(),
            final(self).index().ticks() == old(self).index().ticks().wrapping_add(1),
            final(self).index().markets_seen() == old(self).index().markets_seen().insert(tick.market_id@),
            forall|m: Seq<char>, o: Seq<char>, r: Resolution| #[trigger] final(self).index().candles(m, o, r) == if m
                == tick.market_id@ && o == tick.outcome_id@ {
                series_ingested(
                    old(self).index().candles(m, o, r),
                    max_candles_of(r),
                    tick.price,
                    align_of(r, tick.timestamp as int) as i64,
                    seconds_of(r),
                )
            } else {
                old(self).index().candles(m, o, r)
            },
    {
        self.price_index.ingest(tick);
    }

    /// Current counters.
    pub fn stats(&self) -> (r: IngestionStats)
        ensures
            (r.ticks_ingested, r.errors_encountered, r.markets_processed) == self.counters(),
    {
        IngestionStats {
            ticks_ingested: self.ticks_ingested,
            errors_encountered: self.errors_encountered,
            markets_processed: self.markets_processed,
        }
    }
}

} // verus!
