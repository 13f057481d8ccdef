//! Historical price indexer: OHLCV candles per market, outcome and
//! resolution (1m, 5m, 1h, 1d), kept in bounded series, with range and
//! limit queries. Prices are micros (see `decimal`).
use vstd::prelude::*;
use crate::text::str_eq;
use std::collections::VecDeque;

verus! {

/// Bound on the Unix times handled (seconds); calendar dates reach far
/// less than this.
pub const MAX_EPOCH_SECONDS: i64 = 1_000_000_000_000_000;

// ─── Resolutions ────────────────────────────────────────────────

/// Supported candle resolutions.
#[derive(Debug, Clone, Copy, PartialEq, Eq, Structural)]
pub enum Resolution {
    OneMinute,
    FiveMinute,
    OneHour,
    OneDay,
}

/// Length of a period, in seconds.
pub open spec fn seconds_of(r: Resolution) -> u64 {
    match r {
        Resolution::OneMinute => 60,
        Resolution::FiveMinute => 300,
        Resolution::OneHour => 3600,
        Resolution::OneDay => 86400,
    }
}

/// Number of candles retained per series.
pub open spec fn max_candles_of(r: Resolution) -> usize {
    match r {
        Resolution::OneMinute => 1440,
        Resolution::FiveMinute => 2016,
        Resolution::OneHour => 720,
        Resolution::OneDay => 365,
    }
}

/// Start of the period holding `epoch`: the largest multiple of the
/// period length that is not after it (days start at midnight UTC).
pub open spec fn align_of(r: Resolution, epoch: int) -> int {
    let p = seconds_of(r) as int;
    epoch - epoch % p
}

/// The aligned time starts the period that holds the time: it is a
/// multiple of the period length, not after the time, and less than one
/// period before it.
pub proof fn law_align_starts_period(r: Resolution, epoch: int)
    ensures
        align_of(r, epoch) % (seconds_of(r) as int) == 0,
        align_of(r, epoch) <= epoch < align_of(r, epoch) + seconds_of(r),
{
    let p = seconds_of(r) as int;
    vstd::arithmetic::div_mod::lemma_fundamental_div_mod(epoch, p);
    vstd::arithmetic::div_mod::lemma_mod_bound(epoch, p);
    vstd::arithmetic::div_mod::lemma_mod_multiples_basic(epoch / p, p);
    assert(epoch - epoch % p == (epoch / p) * p) by (nonlinear_arith)
        requires
            epoch == p * (epoch / p) + epoch % p,
    ;
}

/// The resolution a query value names.
pub open spec fn resolution_named(s: Seq<char>) -> Option<Resolution> {
    if s == "1m"@ || s == "1min"@ {
        Some(Resolution::OneMinute)
    } else if s == "5m"@ || s == "5min"@ {
        Some(Resolution::FiveMinute)
    } else if s == "1h"@ || s == "1hr"@ || s == "1hour"@ {
        Some(Resolution::OneHour)
    } else if s == "1d"@ || s == "1day"@ {
        Some(Resolution::OneDay)
    } else {
        None
    }
}

/// Remainder of a negative number by a positive one, from that of its negation.
proof fn lemma_negative_mod(e: int, p: int)
    requires
        e < 0,
        p > 0,
    ensures
        e % p == (if (-e) % p == 0 { 0 } else { p - (-e) % p }),
{
    let m = (-e) % p;
    let q = (-e) / p;
    vstd::arithmetic::div_mod::lemma_fundamental_div_mod(-e, p);
    vstd::arithmetic::div_mod::lemma_mod_bound(-e, p);
    if m == 0 {
        assert(e == (-q) * p + 0) by (nonlinear_arith)
            requires
                -e == p * q + m,
                m == 0,
        ;
        vstd::arithmetic::div_mod::lemma_fundamental_div_mod_converse(e, p, -q, 0);
    } else {
        assert(e == (-q - 1) * p + (p - m)) by (nonlinear_arith)
            requires
                -e == p * q + m,
        ;
        vstd::arithmetic::div_mod::lemma_fundamental_div_mod_converse(e, p, -q - 1, p - m);
    }
}

impl Resolution {
    pub fn seconds(&self) -> (r: u64)
        ensures
            r == seconds_of(*self),
    {
        match self {
            Resolution::OneMinute => 60,
            Resolution::FiveMinute => 300,
            Resolution::OneHour => 3600,
            Resolution::OneDay => 86400,
        }
    }

    /// Start of the period holding the Unix time `epoch` (seconds).
    pub fn align(&self, epoch: i64) -> (r: i64)
        requires
            -MAX_EPOCH_SECONDS <= epoch <= MAX_EPOCH_SECONDS,
        ensures
            r == align_of(*self, epoch as int),
    {
        let p: i128 = self.seconds() as i128;
        let e: i128 = epoch as i128;
        let aligned: i128 = if e >= 0 {
            e - e % p
        } else {
            let m = (-e) % p;
            if m == 0 { e } else { e - (p - m) }
        };
        proof {
            if e < 0 {
                lemma_negative_mod(e as int, p as int);
            }
        }
        aligned as i64
    }

    pub fn max_candles(&self) -> (r: usize)
        ensures
            r == max_candles_of(*self),
    {
        match self {
            Resolution::OneMinute => 1440,
            Resolution::FiveMinute => 2016,
            Resolution::OneHour => 720,
            Resolution::OneDay => 365,
        }
    }

    /// The resolution a query value names (`1m`, `5min`, `1hour`, ...).
    pub fn parse(s: &str) -> (r: Option<Self>)
        ensures
            r == resolution_named(s@),
    {
        if str_eq(s, "1m") || str_eq(s, "1min") {
            Some(Resolution::OneMinute)
        } else if str_eq(s, "5m") || str_eq(s, "5min") {
            Some(Resolution::FiveMinute)
        } else if str_eq(s, "1h") || str_eq(s, "1hr") || str_eq(s, "1hour") {
            Some(Resolution::OneHour)
        } else if str_eq(s, "1d") || str_eq(s, "1day") {
            Some(Resolution::OneDay)
        } else {
            None
        }
    }

    /// All resolutions, finest first.
    pub fn all() -> (r: [Resolution; 4])
        ensures
            r@ == seq![Resolution::OneMinute, Resolution::FiveMinute, Resolution::OneHour, Resolution::OneDay],
    {
        [Resolution::OneMinute, Resolution::FiveMinute, Resolution::OneHour, Resolution::OneDay]
    }
}

// ─── Ticks and candles ──────────────────────────────────────────

/// A price observation: price in micros, Unix time in seconds.
#[derive(Debug, Clone)]
pub struct PriceTick {
    pub market_id: String,
    pub outcome_id: String,
    pub price: i64,
    pub timestamp: i64,
}

/// OHLCV candle: prices in micros, `volume` counts ticks, `timestamp` is
/// the period start (Unix seconds).
#[derive(Debug, Clone, Copy, PartialEq, Eq, Structural)]
pub struct Candle {
    pub open: i64,
    pub high: i64,
    pub low: i64,
    pub close: i64,
    pub volume: u64,
    pub timestamp: i64,
    pub period_seconds: u64,
}

/// The range of a candle holds its open and close, and it counts a tick.
pub open spec fn candle_wf(c: Candle) -> bool {
    &&& c.low <= c.open <= c.high
    &&& c.low <= c.close <= c.high
    &&& c.volume >= 1
}

/// The candle a first tick opens.
pub open spec fn candle_opened(price: i64, ts: i64, period: u64) -> Candle {
    Candle { open: price, high: price, low: price, close: price, volume: 1, timestamp: ts, period_seconds: period }
}

/// The candle after one more tick in its period (the tick count stops at
/// `u64::MAX`).
pub open spec fn candle_updated(c: Candle, price: i64) -> Candle {
    Candle {
        high: if price > c.high { price } else { c.high },
        low: if price < c.low { price } else { c.low },
        close: price,
        volume: if c.volume < u64::MAX { (c.volume + 1) as u64 } else { c.volume },
        ..c
    }
}

impl Candle {
    pub fn new(price: i64, ts: i64, period: u64) -> (r: Self)
        ensures
            r == candle_opened(price, ts, period),
    {
        Candle { open: price, high: price, low: price, close: price, volume: 1, timestamp: ts, period_seconds: period }
    }

    pub fn update(&mut self, price: i64)
        ensures
            *final(self) == candle_updated(*old(self), price),
    {
        if price > self.high {
            self.high = price;
        }
        if price < self.low {
            self.low = price;
        }
        self.close = price;
        if self.volume < u64::MAX {
            self.volume = self.volume + 1;
        }
    }
}

// ─── Series ─────────────────────────────────────────────────────

/// The series after a tick whose period starts at `ts`: the last candle is
/// updated when it is of that period; otherwise a new candle is appended,
/// first dropping the oldest when the series is full.
pub open spec fn series_ingested(s: Seq<Candle>, max_len: usize, price: i64, ts: i64, period: u64) -> Seq<Candle> {
    if s.len() > 0 && s.last().timestamp == ts {
        s.update(s.len() - 1, candle_updated(s.last(), price))
    } else {
        let kept = if s.len() >= max_len && s.len() > 0 { s.drop_first() } else { s };
        kept.push(candle_opened(price, ts, period))
    }
}

/// The candle lies in the optional closed time window.
pub open spec fn in_window(c: Candle, from: Option<i64>, to: Option<i64>) -> bool {
    &&& (from matches Some(f) ==> c.timestamp >= f)
    &&& (to matches Some(t) ==> c.timestamp <= t)
}

/// The candles of `s` in the window, in order.
pub open spec fn windowed(s: Seq<Candle>, from: Option<i64>, to: Option<i64>) -> Seq<Candle>
    decreases s.len(),
{
    if s.len() == 0 {
        seq![]
    } else {
        let rest = windowed(s.drop_last(), from, to);
        if in_window(s.last(), from, to) { rest.push(s.last()) } else { rest }
    }
}

/// The latest `limit` candles of the window, oldest first.
pub open spec fn queried(s: Seq<Candle>, from: Option<i64>, to: Option<i64>, limit: usize) -> Seq<Candle> {
    let w = windowed(s, from, to);
    let k = if limit < w.len() { limit as int } else { w.len() as int };
    w.subrange(w.len() - k, w.len() as int)
}

/// A bounded series of candles for one (market, outcome, resolution).
#[derive(Debug, Clone)]
pub struct CandleSeries {
    pub candles: VecDeque<Candle>,
    pub max_len: usize,
}

/// Every candle is well formed and the series is within its bound.
pub open spec fn series_wf(s: Seq<Candle>, max_len: usize) -> bool {
    &&& s.len() <= max_len || s.len() <= 1
    &&& forall|i: int| 0 <= i < s.len() ==> candle_wf(#[trigger] s[i])
}

impl CandleSeries {
    pub fn new(max_len: usize) -> (r: Self)
        ensures
            r.candles@ == Seq::<Candle>::empty(),
            r.max_len == max_len,
    {
        CandleSeries { candles: VecDeque::new(), max_len }
    }

    /// Add a tick whose period starts at `aligned_ts`.
    pub fn ingest(&mut self, price: i64, aligned_ts: i64, period: u64)
        requires
            series_wf(old(self).candles@, old(self).max_len),
        ensures
            final(self).max_len == old(self).max_len,
            final(self).candles@ == series_ingested(old(self).candles@, old(self).max_len, price, aligned_ts, period),
            series_wf(final(self).candles@, final(self).max_len),
    {
        let n = self.candles.len();
        if n > 0 {
            let mut last = self.candles[n - 1];
            if last.timestamp == aligned_ts {
                last.update(price);
                self.candles.pop_back();
                self.candles.push_back(last);
                assert forall|i: int| 0 <= i < self.candles@.len() implies candle_wf(#[trigger] self.candles@[i]) by {
                    if i < n - 1 {
                        assert(self.candles@[i] == old(self).candles@[i]);
                    }
                }
                return;
            }
        }
        if n >= self.max_len && n > 0 {
            self.candles.pop_front();
        }
        self.candles.push_back(Candle::new(price, aligned_ts, period));
        proof {
            let kept = if n >= old(self).max_len && n > 0 { old(self).candles@.drop_first() } else { old(self).candles@ };
            assert(self.candles@ =~= kept.push(candle_opened(price, aligned_ts, period)));
            assert forall|i: int| 0 <= i < self.candles@.len() implies candle_wf(#[trigger] self.candles@[i]) by {
                if i < self.candles@.len() - 1 {
                    if n >= old(self).max_len && n > 0 {
                        assert(self.candles@[i] == old(self).candles@[i + 1]);
                    } else {
                        assert(self.candles@[i] == old(self).candles@[i]);
                    }
                }
            }
        }
    }

    /// The latest `limit` candles whose period start lies in `[from, to]`.
    pub fn query(&self, from: Option<i64>, to: Option<i64>, limit: usize) -> (r: Vec<Candle>)
        ensures
            r@ == queried(self.candles@, from, to, limit),
    {
        let mut w: Vec<Candle> = Vec::new();
        let n = self.candles.len();
        let mut i: usize = 0;
        while i < n
            invariant
                i <= n,
                n == self.candles@.len(),
                w@ == windowed(self.candles@.subrange(0, i as int), from, to),
            decreases n - i,
        {
            let c = self.candles[i];
            proof {
                let next = self.candles@.subrange(0, i + 1);
                assert(next.drop_last() =~= self.candles@.subrange(0, i as int));
                assert(next.last() == c);
            }
            let inside = match from {
                Some(f) => c.timestamp >= f,
                None => true,
            } && match to {
                Some(t) => c.timestamp <= t,
                None => true,
            };
            if inside {
                w.push(c);
            }
            i = i + 1;
        }
        assert(self.candles@.subrange(0, n as int) =~= self.candles@);
        let wn = w.len();
        let k = if limit < wn { limit } else { wn };
        let mut r: Vec<Candle> = Vec::new();
        let mut j: usize = wn - k;
        while j < wn
            invariant
                k <= wn,
                wn - k <= j <= wn,
                wn == w@.len(),
                r@ == w@.subrange(wn - k, j as int),
            decreases wn - j,
        {
            r.push(w[j]);
            proof {
                assert(w@.subrange(wn - k, j + 1) =~= w@.subrange(wn - k, j as int).push(w@[j as int]));
            }
            j = j + 1;
        }
        r
    }

    /// The latest candle, if any.
    pub fn latest(&self) -> (r: Option<Candle>)
        ensures
            self.candles@.len() == 0 ==> r is None,
            self.candles@.len() > 0 ==> r == Some(self.candles@.last()),
    {
        let n = self.candles.len();
        if n == 0 {
            None
        } else {
            Some(self.candles[n - 1])
        }
    }
}

/// After any tick, the latest candle of the series closes at that price and
/// starts at the tick's period.
pub proof fn lemma_latest_closes_at_tick(s: Seq<Candle>, max_len: usize, price: i64, ts: i64, period: u64)
    ensures
        series_ingested(s, max_len, price, ts, period).len() > 0,
        series_ingested(s, max_len, price, ts, period).last().close == price,
        series_ingested(s, max_len, price, ts, period).last().timestamp == ts,
{
}

/// A tick in the period of the latest candle aggregates into it: the series
/// keeps its length, the open stays, the range widens to the price and the
/// tick count grows by one (saturating).
pub proof fn lemma_same_period_aggregates(s: Seq<Candle>, max_len: usize, price: i64, ts: i64, period: u64)
    requires
        s.len() > 0,
        s.last().timestamp == ts,
    ensures
        ({
            let r = series_ingested(s, max_len, price, ts, period);
            &&& r.len() == s.len()
            &&& r.subrange(0, s.len() - 1) == s.subrange(0, s.len() - 1)
            &&& r.last().open == s.last().open
            &&& r.last().high >= price && r.last().high >= s.last().high
            &&& (r.last().high == price || r.last().high == s.last().high)
            &&& r.last().low <= price && r.last().low <= s.last().low
            &&& (r.last().low == price || r.last().low == s.last().low)
            &&& r.last().close == price
            &&& r.last().timestamp == s.last().timestamp
            &&& r.last().period_seconds == s.last().period_seconds
            &&& (s.last().volume < u64::MAX ==> r.last().volume == s.last().volume + 1)
            &&& (s.last().volume == u64::MAX ==> r.last().volume == u64::MAX)
        }),
{
    let r = series_ingested(s, max_len, price, ts, period);
    assert(r.subrange(0, s.len() - 1) =~= s.subrange(0, s.len() - 1));
}

/// A tick of a new period appends a fresh candle; a full series first drops
/// its oldest candle, so it never grows past its bound (when that is at
/// least one).
pub proof fn lemma_new_period_appends(s: Seq<Candle>, max_len: usize, price: i64, ts: i64, period: u64)
    requires
        s.len() == 0 || s.last().timestamp != ts,
        max_len >= 1,
        s.len() <= max_len,
    ensures
        ({
            let r = series_ingested(s, max_len, price, ts, period);
            &&& r.last() == candle_opened(price, ts, period)
            &&& r.last().open == price && r.last().high == price && r.last().low == price
            &&& r.last().close == price && r.last().volume == 1
            &&& r.last().timestamp == ts && r.last().period_seconds == period
            &&& r.len() == if s.len() < max_len { s.len() + 1 } else { s.len() }
            &&& s.len() < max_len ==> r.drop_last() == s
            &&& s.len() == max_len ==> r.drop_last() == s.drop_first()
        }),
{
    let r = series_ingested(s, max_len, price, ts, period);
    if s.len() < max_len {
        assert(r.drop_last() =~= s);
    } else {
        assert(r.drop_last() =~= s.drop_first());
    }
}

proof fn lemma_windowed_props(s: Seq<Candle>, from: Option<i64>, to: Option<i64>)
    ensures
        windowed(s, from, to).len() <= s.len(),
        forall|i: int| 0 <= i < windowed(s, from, to).len() ==> in_window(#[trigger] windowed(s, from, to)[i], from, to),
    decreases s.len(),
{
    if s.len() > 0 {
        lemma_windowed_props(s.drop_last(), from, to);
    }
}

/// A query returns at most `limit` candles, every one inside the window,
/// and exactly `limit` when the window holds that many.
pub proof fn lemma_query_bounds(s: Seq<Candle>, from: Option<i64>, to: Option<i64>, limit: usize)
    ensures
        queried(s, from, to, limit).len() <= limit,
        queried(s, from, to, limit).len() <= s.len(),
        windowed(s, from, to).len() >= limit ==> queried(s, from, to, limit).len() == limit,
        forall|i: int| 0 <= i < queried(s, from, to, limit).len() ==> in_window(#[trigger] queried(s, from, to, limit)[i], from, to),
{
    lemma_windowed_props(s, from, to);
    let w = windowed(s, from, to);
    let k = if limit < w.len() { limit as int } else { w.len() as int };
    assert forall|i: int| 0 <= i < queried(s, from, to, limit).len() implies in_window(#[trigger] queried(s, from, to, limit)[i], from, to) by {
        assert(queried(s, from, to, limit)[i] == w[w.len() - k + i]);
    }
}

/// The last `k` in-window candles of `s` are the in-window candles of some
/// suffix of `s`.
proof fn lemma_window_tail_is_suffix(s: Seq<Candle>, from: Option<i64>, to: Option<i64>, k: int) -> (p: int)
    requires
        0 <= k <= windowed(s, from, to).len(),
    ensures
        0 <= p <= s.len(),
        windowed(s.skip(p), from, to) == windowed(s, from, to).subrange(windowed(s, from, to).len() - k, windowed(s, from, to).len() as int),
    decreases s.len(),
{
    let w = windowed(s, from, to);
    if k == 0 {
        assert(s.skip(s.len() as int) =~= Seq::<Candle>::empty());
        assert(w.subrange(w.len() as int, w.len() as int) =~= Seq::<Candle>::empty());
        s.len() as int
    } else {
        let t = s.drop_last();
        let wt = windowed(t, from, to);
        if in_window(s.last(), from, to) {
            let q = lemma_window_tail_is_suffix(t, from, to, k - 1);
            assert(s.skip(q) =~= t.skip(q).push(s.last()));
            assert(s.skip(q).drop_last() =~= t.skip(q));
            assert(w.subrange(w.len() - k, w.len() as int) =~= wt.subrange(wt.len() - (k - 1), wt.len() as int).push(s.last()));
            q
        } else {
            let q = lemma_window_tail_is_suffix(t, from, to, k);
            assert(s.skip(q) =~= t.skip(q).push(s.last()));
            assert(s.skip(q).drop_last() =~= t.skip(q));
            q
        }
    }
}

/// A query keeps the most recent candles: its result is exactly the
/// in-window candles of some final stretch of the series, and it holds
/// `limit` of them, or every in-window candle when there are fewer.
pub proof fn law_query_keeps_latest(s: Seq<Candle>, from: Option<i64>, to: Option<i64>, limit: usize)
    ensures
        exists|p: int| 0 <= p <= s.len() && #[trigger] windowed(s.skip(p), from, to) == queried(s, from, to, limit),
        queried(s, from, to, limit).len() == if limit < windowed(s, from, to).len() {
            limit as int
        } else {
            windowed(s, from, to).len() as int
        },
{
    let w = windowed(s, from, to);
    let k = if limit < w.len() { limit as int } else { w.len() as int };
    let p = lemma_window_tail_is_suffix(s, from, to, k);
    assert(windowed(s.skip(p), from, to) == queried(s, from, to, limit));
}

// ─── Index ──────────────────────────────────────────────────────

/// Key of one candle series.
#[derive(Debug, Clone)]
pub struct SeriesKey {
    pub market_id: String,
    pub outcome_id: String,
    pub resolution: Resolution,
}

/// A keyed series.
#[derive(Debug, Clone)]
pub struct SeriesEntry {
    pub key: SeriesKey,
    pub series: CandleSeries,
}

/// The entry is keyed by this market, outcome and resolution.
pub open spec fn keyed(e: SeriesEntry, m: Seq<char>, o: Seq<char>, r: Resolution) -> bool {
    e.key.market_id@ == m && e.key.outcome_id@ == o && e.key.resolution == r
}

/// The entries hold each key once, each series bounded by its resolution.
pub open spec fn entries_wf(es: Seq<SeriesEntry>) -> bool {
    &&& forall|i: int, j: int|
        0 <= i < es.len() && 0 <= j < es.len() && i != j ==> !keyed(
            #[trigger] es[i],
            es[j].key.market_id@,
            es[j].key.outcome_id@,
            #[trigger] es[j].key.resolution,
        )
    &&& forall|i: int|
        0 <= i < es.len() ==> (#[trigger] es[i]).series.max_len == max_candles_of(es[i].key.resolution)
            && series_wf(es[i].series.candles@, es[i].series.max_len)
}

/// The candles of the series with this key; empty when there is none.
pub open spec fn lookup(es: Seq<SeriesEntry>, m: Seq<char>, o: Seq<char>, r: Resolution) -> Seq<Candle> {
    if exists|i: int| 0 <= i < es.len() && keyed(#[trigger] es[i], m, o, r) {
        es[choose|i: int| 0 <= i < es.len() && keyed(#[trigger] es[i], m, o, r)].series.candles@
    } else {
        seq![]
    }
}

/// Some series has this key.
pub open spec fn has_key(es: Seq<SeriesEntry>, m: Seq<char>, o: Seq<char>, r: Resolution) -> bool {
    exists|i: int| 0 <= i < es.len() && keyed(#[trigger] es[i], m, o, r)
}

proof fn lemma_lookup_at(es: Seq<SeriesEntry>, i: int)
    requires
        entries_wf(es),
        0 <= i < es.len(),
    ensures
        lookup(es, es[i].key.market_id@, es[i].key.outcome_id@, es[i].key.resolution) == es[i].series.candles@,
{
    let m = es[i].key.market_id@;
    let o = es[i].key.outcome_id@;
    let r = es[i].key.resolution;
    assert(keyed(es[i], m, o, r));
    let j = choose|j: int| 0 <= j < es.len() && keyed(#[trigger] es[j], m, o, r);
    if j != i {
        assert(!keyed(es[j], es[i].key.market_id@, es[i].key.outcome_id@, es[i].key.resolution));
    }
}

/// Index of the entry with this key, if any.
fn find_entry(es: &Vec<SeriesEntry>, m: &str, o: &str, r: Resolution) -> (idx: Option<usize>)
    ensures
        match idx {
            Some(i) => i < es@.len() && keyed(es@[i as int], m@, o@, r),
            None => !has_key(es@, m@, o@, r),
        },
{
    let n = es.len();
    let mut i: usize = 0;
    while i < n
        invariant
            i <= n,
            n == es@.len(),
            forall|j: int| 0 <= j < i ==> !keyed(#[trigger] es@[j], m@, o@, r),
        decreases n - i,
    {
        let e = &es[i];
        if e.key.resolution == r && str_eq(e.key.market_id.as_str(), m) && str_eq(e.key.outcome_id.as_str(), o) {
            return Some(i);
        }
        i = i + 1;
    }
    None
}

/// The series keyed `(m, o, r)` absorbs a tick of this price and time;
/// the other series are left as they were. A missing series is created.
fn ingest_into(es: &mut Vec<SeriesEntry>, m: &str, o: &str, r: Resolution, price: i64, epoch: i64)
    requires
        entries_wf(old(es)@),
        -MAX_EPOCH_SECONDS <= epoch <= MAX_EPOCH_SECONDS,
    ensures
        entries_wf(final(es)@),
        lookup(final(es)@, m@, o@, r) == series_ingested(
            lookup(old(es)@, m@, o@, r),
            max_candles_of(r),
            price,
            align_of(r, epoch as int) as i64,
            seconds_of(r),
        ),
        has_key(final(es)@, m@, o@, r),
        forall|m2: Seq<char>, o2: Seq<char>, r2: Resolution|
            !(m2 == m@ && o2 == o@ && r2 == r) ==> #[trigger] lookup(final(es)@, m2, o2, r2) == lookup(old(es)@, m2, o2, r2),
        forall|m2: Seq<char>, o2: Seq<char>, r2: Resolution|
            !(m2 == m@ && o2 == o@ && r2 == r) ==> #[trigger] has_key(final(es)@, m2, o2, r2) == has_key(old(es)@, m2, o2, r2),
        final(es)@.len() == old(es)@.len() + (if has_key(old(es)@, m@, o@, r) { 0int } else { 1int }),
{
    let aligned = r.align(epoch);
    let period = r.seconds();
    let ghost old_es = es@;
    match find_entry(es, m, o, r) {
        Some(i) => {
            proof { lemma_lookup_at(old_es, i as int); }
            let mut entry = es.remove(i);
            entry.series.ingest(price, aligned, period);
            let ghost new_entry = entry;
            es.insert(i, entry);
            proof {
                assert(es@ =~= old_es.update(i as int, new_entry));
                assert forall|a: int| 0 <= a < es@.len() && a != i implies es@[a] == old_es[a] by {}
                assert(entries_wf(es@)) by {
                    assert forall|a: int, b: int|
                        0 <= a < es@.len() && 0 <= b < es@.len() && a != b implies !keyed(
                            #[trigger] es@[a],
                            es@[b].key.market_id@,
                            es@[b].key.outcome_id@,
                            #[trigger] es@[b].key.resolution,
                        ) by {
                        assert(es@[a].key == old_es[a].key);
                        assert(es@[b].key == old_es[b].key);
                    }
                }
                lemma_lookup_at(es@, i as int);
                assert forall|m2: Seq<char>, o2: Seq<char>, r2: Resolution|
                    !(m2 == m@ && o2 == o@ && r2 == r) implies lookup(es@, m2, o2, r2) == lookup(old_es, m2, o2, r2)
                        && has_key(es@, m2, o2, r2) == has_key(old_es, m2, o2, r2) by {
                    if has_key(old_es, m2, o2, r2) {
                        let j = choose|j: int| 0 <= j < old_es.len() && keyed(#[trigger] old_es[j], m2, o2, r2);
                        assert(j != i);
                        lemma_lookup_at(old_es, j);
                        assert(keyed(es@[j], m2, o2, r2));
                        lemma_lookup_at(es@, j);
                    }
                    if has_key(es@, m2, o2, r2) {
                        let j = choose|j: int| 0 <= j < es@.len() && keyed(#[trigger] es@[j], m2, o2, r2);
                        assert(j != i);
                        assert(keyed(old_es[j], m2, o2, r2));
                    }
                }
                assert forall|m2: Seq<char>, o2: Seq<char>, r2: Resolution|
                    !(m2 == m@ && o2 == o@ && r2 == r) implies #[trigger] lookup(es@, m2, o2, r2) == lookup(old_es, m2, o2, r2) by {}
                assert forall|m2: Seq<char>, o2: Seq<char>, r2: Resolution|
                    !(m2 == m@ && o2 == o@ && r2 == r) implies #[trigger] has_key(es@, m2, o2, r2) == has_key(old_es, m2, o2, r2) by {}
            }
        },
        None => {
            let mut series = CandleSeries::new(r.max_candles());
            series.ingest(price, aligned, period);
            let key = SeriesKey { market_id: String::from_str(m), outcome_id: String::from_str(o), resolution: r };
            es.push(SeriesEntry { key, series });
            proof {
                let n = old_es.len() as int;
                assert(entries_wf(es@)) by {
                    assert forall|a: int, b: int|
                        0 <= a < es@.len() && 0 <= b < es@.len() && a != b implies !keyed(
                            #[trigger] es@[a],
                            es@[b].key.market_id@,
                            es@[b].key.outcome_id@,
                            #[trigger] es@[b].key.resolution,
                        ) by {
                        if a == n {
                            assert(!keyed(old_es[b], m@, o@, r));
                        } else if b == n {
                            assert(!keyed(old_es[a], m@, o@, r));
                        } else {
                            assert(es@[a] == old_es[a]);
                            assert(es@[b] == old_es[b]);
                        }
                    }
                }
                lemma_lookup_at(es@, n);
                assert(keyed(es@[n], m@, o@, r));
                assert(lookup(old_es, m@, o@, r) == Seq::<Candle>::empty());
                assert(series_ingested(Seq::<Candle>::empty(), max_candles_of(r), price, aligned, period)
                    =~= seq![candle_opened(price, aligned, period)]);
                assert forall|m2: Seq<char>, o2: Seq<char>, r2: Resolution|
                    !(m2 == m@ && o2 == o@ && r2 == r) implies lookup(es@, m2, o2, r2) == lookup(old_es, m2, o2, r2)
                        && has_key(es@, m2, o2, r2) == has_key(old_es, m2, o2, r2) by {
                    if has_key(old_es, m2, o2, r2) {
                        let j = choose|j: int| 0 <= j < old_es.len() && keyed(#[trigger] old_es[j], m2, o2, r2);
                        lemma_lookup_at(old_es, j);
                        assert(es@[j] == old_es[j]);
                        lemma_lookup_at(es@, j);
                    }
                    if has_key(es@, m2, o2, r2) {
                        let j = choose|j: int| 0 <= j < es@.len() && keyed(#[trigger] es@[j], m2, o2, r2);
                        assert(j != n);
                        assert(es@[j] == old_es[j]);
                    }
                }
                assert forall|m2: Seq<char>, o2: Seq<char>, r2: Resolution|
                    !(m2 == m@ && o2 == o@ && r2 == r) implies #[trigger] lookup(es@, m2, o2, r2) == lookup(old_es, m2, o2, r2) by {}
                assert forall|m2: Seq<char>, o2: Seq<char>, r2: Resolution|
                    !(m2 == m@ && o2 == o@ && r2 == r) implies #[trigger] has_key(es@, m2, o2, r2) == has_key(old_es, m2, o2, r2) by {}
            }
        },
    }
}

/// Counters reported by the index.
#[derive(Debug, Clone, Copy)]
pub struct PriceIndexStats {
    pub ticks_ingested: u64,
    pub markets_tracked: usize,
    pub total_series: usize,
}

/// Candle series for every (market, outcome, resolution) seen so far.
#[derive(Debug)]
pub struct PriceIndex {
    series: Vec<SeriesEntry>,
    ticks_ingested: u64,
    markets_tracked: Vec<String>,
}

/// How many of the four series of market `m`, outcome `o` the index does
/// not hold yet.
pub open spec fn missing_series(idx: PriceIndex, m: Seq<char>, o: Seq<char>) -> int {
    (if idx.has_series(m, o, Resolution::OneMinute) { 0int } else { 1int }) + (if idx.has_series(
        m,
        o,
        Resolution::FiveMinute,
    ) { 0int } else { 1int }) + (if idx.has_series(m, o, Resolution::OneHour) { 0int } else { 1int }) + (
    if idx.has_series(m, o, Resolution::OneDay) { 0int } else { 1int })
}

impl PriceIndex {
    /// Candles of the series `(m, o, r)`, oldest first (empty if never fed).
    pub closed spec fn candles(&self, m: Seq<char>, o: Seq<char>, r: Resolution) -> Seq<Candle> {
        lookup(self.series@, m, o, r)
    }

    /// The series `(m, o, r)` exists.
    pub closed spec fn has_series(&self, m: Seq<char>, o: Seq<char>, r: Resolution) -> bool {
        has_key(self.series@, m, o, r)
    }

    /// Markets seen so far.
    pub closed spec fn markets_seen(&self) -> Set<Seq<char>> {
        Set::new(|m: Seq<char>| exists|i: int| 0 <= i < self.markets_tracked@.len() && (#[trigger] self.markets_tracked@[i])@ == m)
    }

    /// Ticks ingested so far (modulo 2^64).
    pub closed spec fn ticks(&self) -> u64 {
        self.ticks_ingested
    }

    /// Number of series.
    pub closed spec fn series_count(&self) -> nat {
        self.series@.len()
    }

    #[verifier::type_invariant]
    closed spec fn index_wf(&self) -> bool {
        &&& entries_wf(self.series@)
        &&& forall|i: int, j: int|
            0 <= i < self.markets_tracked@.len() && 0 <= j < self.markets_tracked@.len() && i != j
                ==> (#[trigger] self.markets_tracked@[i])@ != (#[trigger] self.markets_tracked@[j])@
    }

    pub fn new() -> (r: Self)
        ensures
            forall|m: Seq<char>, o: Seq<char>, res: Resolution| #[trigger] r.candles(m, o, res) == Seq::<Candle>::empty()
                && !r.has_series(m, o, res),
            r.markets_seen() == Set::<Seq<char>>::empty(),
            r.ticks() == 0,
            r.series_count() == 0,
    {
        let r = PriceIndex { series: Vec::new(), ticks_ingested: 0, markets_tracked: Vec::new() };
        assert(r.markets_seen() =~= Set::<Seq<char>>::empty());
        r
    }

    /// Ingest a tick into the series of its market and outcome at every
    /// resolution.
    pub fn ingest(&mut self, tick: PriceTick)
        requires
            -MAX_EPOCH_SECONDS <= tick.timestamp <= MAX_EPOCH_SECONDS,
        ensures
            final(self).ticks() == old(self).ticks().wrapping_add(1),
            final(self).markets_seen() == old(self).markets_seen().insert(tick.market_id@),
            forall|m: Seq<char>, o: Seq<char>, r: Resolution| #[trigger] final(self).candles(m, o, r) == if m
                == tick.market_id@ && o == tick.outcome_id@ {
                series_ingested(
                    old(self).candles(m, o, r),
                    max_candles_of(r),
                    tick.price,
                    align_of(r, tick.timestamp as int) as i64,
                    seconds_of(r),
                )
            } else {
                old(self).candles(m, o, r)
            },
            forall|m: Seq<char>, o: Seq<char>, r: Resolution| #[trigger] final(self).has_series(m, o, r) == (old(
                self,
            ).has_series(m, o, r) || (m == tick.market_id@ && o == tick.outcome_id@)),
            forall|m: Seq<char>, o: Seq<char>, r: Resolution|
                series_wf(#[trigger] final(self).candles(m, o, r), max_candles_of(r)),
            final(self).series_count() == old(self).series_count() + missing_series(
                *old(self),
                tick.market_id@,
                tick.outcome_id@,
            ),
    {
        proof { use_type_invariant(&*self); }
        let ghost old_series = self.series@;
        let ghost old_seen = self.markets_seen();
        let mut es: Vec<SeriesEntry> = Vec::new();
        std::mem::swap(&mut es, &mut self.series);
        let m = tick.market_id.as_str();
        let o = tick.outcome_id.as_str();
        let ghost s0 = es@;
        ingest_into(&mut es, m, o, Resolution::OneMinute, tick.price, tick.timestamp);
        let ghost s1 = es@;
        ingest_into(&mut es, m, o, Resolution::FiveMinute, tick.price, tick.timestamp);
        let ghost s2 = es@;
        ingest_into(&mut es, m, o, Resolution::OneHour, tick.price, tick.timestamp);
        let ghost s3 = es@;
        ingest_into(&mut es, m, o, Resolution::OneDay, tick.price, tick.timestamp);
        assert(es@.len() == s0.len() + missing_series(*old(self), m@, o@));
        std::mem::swap(&mut es, &mut self.series);
        self.ticks_ingested = self.ticks_ingested.wrapping_add(1);
        let mut known = false;
        let n = self.markets_tracked.len();
        let mut i: usize = 0;
        while i < n
            invariant
                i <= n,
                n == self.markets_tracked@.len(),
                known ==> exists|j: int| 0 <= j < n && (#[trigger] self.markets_tracked@[j])@ == m@,
                !known ==> forall|j: int| 0 <= j < i ==> (#[trigger] self.markets_tracked@[j])@ != m@,
            decreases n - i,
        {
            if !known && str_eq(self.markets_tracked[i].as_str(), m) {
                known = true;
            }
            i = i + 1;
        }
        if !known {
            let mut seen: Vec<String> = Vec::new();
            std::mem::swap(&mut seen, &mut self.markets_tracked);
            seen.push(String::from_str(m));
            std::mem::swap(&mut seen, &mut self.markets_tracked);
        }
        proof {
            assert forall|x: Seq<char>| #[trigger] self.markets_seen().contains(x) <==> old_seen.insert(tick.market_id@).contains(x) by {
                if !known {
                    assert(self.markets_tracked@ =~= old(self).markets_tracked@.push(self.markets_tracked@.last()));
                    if x == tick.market_id@ {
                        assert(self.markets_tracked@[n as int]@ == x);
                    }
                    if self.markets_seen().contains(x) && x != tick.market_id@ {
                        let j = choose|j: int| 0 <= j < self.markets_tracked@.len() && (#[trigger] self.markets_tracked@[j])@ == x;
                        assert(j < n);
                        assert(old(self).markets_tracked@[j]@ == x);
                    }
                    if old_seen.contains(x) {
                        let j = choose|j: int| 0 <= j < old(self).markets_tracked@.len() && (#[trigger] old(self).markets_tracked@[j])@ == x;
                        assert(self.markets_tracked@[j]@ == x);
                    }
                } else {
                    assert(self.markets_tracked@ == old(self).markets_tracked@);
                    if x == tick.market_id@ {
                        let j = choose|j: int| 0 <= j < n && (#[trigger] self.markets_tracked@[j])@ == m@;
                        assert(self.markets_tracked@[j]@ == x);
                    }
                }
            }
            assert(self.markets_seen() =~= old_seen.insert(tick.market_id@));
            assert forall|m2: Seq<char>, o2: Seq<char>, r2: Resolution|
                series_wf(#[trigger] self.candles(m2, o2, r2), max_candles_of(r2)) by {
                if has_key(self.series@, m2, o2, r2) {
                    let i = choose|i: int| 0 <= i < self.series@.len() && keyed(#[trigger] self.series@[i], m2, o2, r2);
                    lemma_lookup_at(self.series@, i);
                }
            }
        }
    }

    /// The latest `limit` candles of a series whose period start lies in
    /// `[from, to]` (either end optional), oldest first.
    pub fn query_candles(
        &self,
        market_id: &str,
        outcome_id: &str,
        resolution: Resolution,
        from: Option<i64>,
        to: Option<i64>,
        limit: usize,
    ) -> (r: Vec<Candle>)
        ensures
            r@ == queried(self.candles(market_id@, outcome_id@, resolution), from, to, limit),
    {
        proof { use_type_invariant(self); }
        match find_entry(&self.series, market_id, outcome_id, resolution) {
            Some(i) => {
                proof { lemma_lookup_at(self.series@, i as int); }
                self.series[i].series.query(from, to, limit)
            },
            None => {
                assert(windowed(Seq::<Candle>::empty(), from, to) =~= Seq::<Candle>::empty());
                Vec::new()
            },
        }
    }

    /// The latest candle (current period) of a series.
    pub fn latest_candle(&self, market_id: &str, outcome_id: &str, resolution: Resolution) -> (r: Option<Candle>)
        ensures
            ({
                let s = self.candles(market_id@, outcome_id@, resolution);
                &&& s.len() == 0 ==> r is None
                &&& s.len() > 0 ==> r == Some(s.last())
            }),
    {
        proof { use_type_invariant(self); }
        match find_entry(&self.series, market_id, outcome_id, resolution) {
            Some(i) => {
                proof { lemma_lookup_at(self.series@, i as int); }
                self.series[i].series.latest()
            },
            None => None,
        }
    }

    /// Ticks ingested, markets seen and series held.
    pub fn stats(&self) -> (r: PriceIndexStats)
        ensures
            r.ticks_ingested == self.ticks(),
            r.markets_tracked == self.markets_seen().len(),
            r.total_series == self.series_count(),
    {
        proof {
            use_type_invariant(self);
            self.lemma_tracked_len();
        }
        PriceIndexStats {
            ticks_ingested: self.ticks_ingested,
            markets_tracked: self.markets_tracked.len(),
            total_series: self.series.len(),
        }
    }

    proof fn lemma_tracked_len(&self)
        requires
            forall|i: int, j: int|
                0 <= i < self.markets_tracked@.len() && 0 <= j < self.markets_tracked@.len() && i != j
                    ==> (#[trigger] self.markets_tracked@[i])@ != (#[trigger] self.markets_tracked@[j])@,
        ensures
            self.markets_seen().len() == self.markets_tracked@.len(),
            self.markets_seen().finite(),
    {
        let views = self.markets_tracked@.map_values(|s: String| s@);
        assert(views.no_duplicates()) by {
            assert forall|i: int, j: int| 0 <= i < views.len() && 0 <= j < views.len() && i != j implies views[i] != views[j] by {
                assert(views[i] == self.markets_tracked@[i]@);
                assert(views[j] == self.markets_tracked@[j]@);
            }
        }
        assert(self.markets_seen() =~= views.to_set()) by {
            assert forall|m: Seq<char>| self.markets_seen().contains(m) <==> views.to_set().contains(m) by {
                if self.markets_seen().contains(m) {
                    let i = choose|i: int| 0 <= i < self.markets_tracked@.len() && (#[trigger] self.markets_tracked@[i])@ == m;
                    assert(views[i] == m);
                }
                if views.to_set().contains(m) {
                    let i = choose|i: int| 0 <= i < views.len() && views[i] == m;
                    assert(self.markets_tracked@[i]@ == m);
                }
            }
        }
        views.unique_seq_to_set();
    }

    /// Markets seen so far, in order of first appearance.
    pub fn tracked_markets(&self) -> (r: Vec<String>)
        ensures
            r@.len() == self.markets_seen().len(),
            forall|m: Seq<char>| self.markets_seen().contains(m) <==> exists|i: int| 0 <= i < r@.len() && (#[trigger] r@[i])@ == m,
    {
        proof {
            use_type_invariant(self);
            self.lemma_tracked_len();
        }
        let r = self.markets_tracked.clone();
        proof {
            assert forall|i: int| 0 <= i < r@.len() implies (#[trigger] r@[i])@ == self.markets_tracked@[i]@ by {
                assert(cloned::<String>(self.markets_tracked@[i], r@[i]));
            }
        }
        r
    }
}

} // verus!
