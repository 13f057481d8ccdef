use upp_gateway::price_index::{Candle, CandleSeries, PriceIndex, PriceTick, Resolution};

const BASE: i64 = 1768560000;

fn tick(market: &str, outcome: &str, price: i64, timestamp: i64) -> PriceTick {
    PriceTick { market_id: market.to_string(), outcome_id: outcome.to_string(), price, timestamp }
}

fn now_secs() -> i64 {
    chrono::Utc::now().timestamp()
}

#[test]
fn test_resolution_parse() {
    assert_eq!(Resolution::parse("1m"), Some(Resolution::OneMinute));
    assert_eq!(Resolution::parse("5m"), Some(Resolution::FiveMinute));
    assert_eq!(Resolution::parse("1h"), Some(Resolution::OneHour));
    assert_eq!(Resolution::parse("1d"), Some(Resolution::OneDay));
    assert_eq!(Resolution::parse("invalid"), None);
}

#[test]
fn test_resolution_alignment() {
    let dt = BASE + 37 * 60 + 42;
    assert_eq!(Resolution::OneMinute.align(dt) % 60, 0);
    assert_eq!(Resolution::FiveMinute.align(dt) % 300, 0);
    assert_eq!(Resolution::OneHour.align(dt) % 3600, 0);
}

#[test]
fn test_candle_creation_and_update() {
    let mut candle = Candle::new(500_000, 1000, 60);
    assert_eq!(candle.open, 500_000);
    assert_eq!(candle.volume, 1);

    candle.update(550_000);
    assert_eq!(candle.high, 550_000);
    assert_eq!(candle.close, 550_000);
    assert_eq!(candle.volume, 2);

    candle.update(450_000);
    assert_eq!(candle.low, 450_000);
    assert_eq!(candle.close, 450_000);
    assert_eq!(candle.volume, 3);

    assert_eq!(candle.open, 500_000);
}

#[test]
fn test_ingest_same_period_aggregates() {
    let mut index = PriceIndex::new();
    index.ingest(tick("m1", "yes", 500_000, BASE));
    index.ingest(tick("m1", "yes", 600_000, BASE + 10));
    index.ingest(tick("m1", "yes", 450_000, BASE + 30));

    let candles = index.query_candles("m1", "yes", Resolution::OneMinute, None, None, 100);
    assert_eq!(candles.len(), 1);
    assert_eq!(candles[0].open, 500_000);
    assert_eq!(candles[0].high, 600_000);
    assert_eq!(candles[0].low, 450_000);
    assert_eq!(candles[0].close, 450_000);
    assert_eq!(candles[0].volume, 3);
}

#[test]
fn test_ingest_different_periods_creates_candles() {
    let mut index = PriceIndex::new();
    for i in 0..5 {
        index.ingest(tick("m1", "yes", 500_000 + i * 10_000, BASE + i * 60));
    }
    let candles = index.query_candles("m1", "yes", Resolution::OneMinute, None, None, 100);
    assert_eq!(candles.len(), 5);

    let candles_5m = index.query_candles("m1", "yes", Resolution::FiveMinute, None, None, 100);
    assert_eq!(candles_5m.len(), 1);
    assert_eq!(candles_5m[0].volume, 5);
}

#[test]
fn test_query_with_time_range() {
    let mut index = PriceIndex::new();
    for i in 0..10 {
        index.ingest(tick("m1", "yes", 500_000, BASE + i * 60));
    }
    let from_ts = BASE + 3 * 60;
    let to_ts = BASE + 7 * 60;
    let candles = index.query_candles("m1", "yes", Resolution::OneMinute, Some(from_ts), Some(to_ts), 100);
    assert_eq!(candles.len(), 5);
}

#[test]
fn test_query_with_limit() {
    let mut index = PriceIndex::new();
    for i in 0..20 {
        index.ingest(tick("m1", "yes", 500_000, BASE + i * 60));
    }
    let candles = index.query_candles("m1", "yes", Resolution::OneMinute, None, None, 5);
    assert_eq!(candles.len(), 5);
    assert!(candles[4].timestamp > candles[0].timestamp);
}

#[test]
fn test_ring_buffer_eviction() {
    let mut series = CandleSeries::new(3);
    series.ingest(500_000, 1000, 60);
    series.ingest(510_000, 1060, 60);
    series.ingest(520_000, 1120, 60);
    series.ingest(530_000, 1180, 60);

    assert_eq!(series.candles.len(), 3);
    assert_eq!(series.candles[0].timestamp, 1060);
    assert_eq!(series.candles[2].timestamp, 1180);
}

#[test]
fn test_stats() {
    let mut index = PriceIndex::new();
    index.ingest(tick("m1", "yes", 500_000, now_secs()));
    index.ingest(tick("m2", "no", 300_000, now_secs()));

    let stats = index.stats();
    assert_eq!(stats.ticks_ingested, 2);
    assert_eq!(stats.markets_tracked, 2);
    assert_eq!(stats.total_series, 8);
}

#[test]
fn test_latest_candle() {
    let mut index = PriceIndex::new();
    assert!(index.latest_candle("m1", "yes", Resolution::OneMinute).is_none());

    index.ingest(tick("m1", "yes", 650_000, now_secs()));

    let latest = index.latest_candle("m1", "yes", Resolution::OneMinute);
    assert!(latest.is_some());
    assert_eq!(latest.unwrap().close, 650_000);
}

#[test]
fn resolution_metadata() {
    assert_eq!(Resolution::OneMinute.seconds(), 60);
    assert_eq!(Resolution::OneDay.seconds(), 86_400);
    assert_eq!(Resolution::all().len(), 4);
    assert_eq!(Resolution::OneMinute.align(-1), -60);
    assert_eq!(Resolution::OneMinute.align(-30), -60);
    assert_eq!(Resolution::OneMinute.align(-60), -60);
    assert_eq!(Resolution::OneMinute.align(-61), -120);
    assert_eq!(Resolution::OneHour.align(-1), -3600);
}

#[test]
fn query_outside_range_is_empty() {
    let mut index = PriceIndex::new();
    index.ingest(tick("m1", "yes", 500_000, BASE));
    let candles = index.query_candles("m1", "yes", Resolution::OneMinute, Some(BASE + 60), None, 10);
    assert!(candles.is_empty());
    assert!(index.query_candles("m9", "yes", Resolution::OneMinute, None, None, 10).is_empty());
}
