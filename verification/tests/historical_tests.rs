use upp_gateway::historical::{check_time_range, HistoricalError, HistoricalMarketInfo, HistoricalTick, IngestionStats};

fn now_secs() -> i64 {
    chrono::Utc::now().timestamp()
}

#[test]
fn test_ingestion_stats_default() {
    let stats = IngestionStats::default();
    assert_eq!(stats.ticks_ingested, 0);
    assert_eq!(stats.errors_encountered, 0);
    assert_eq!(stats.markets_processed, 0);
}

#[test]
fn test_tick_validation_valid() {
    let tick = HistoricalTick::new(now_secs(), 500_000, 100);
    assert!(tick.validate().is_ok());
}

#[test]
fn test_tick_validation_price_out_of_range() {
    assert!(HistoricalTick::new(now_secs(), 1_500_000, 100).validate().is_err());
    assert!(HistoricalTick::new(now_secs(), -100_000, 100).validate().is_err());
}

#[test]
fn test_tick_validation_negative_volume() {
    assert!(HistoricalTick::new(now_secs(), 500_000, -10).validate().is_err());
}

#[test]
fn test_tick_validation_inverted_spread() {
    let tick = HistoricalTick::with_spreads(now_secs(), 500_000, 100, 600_000, 400_000);
    assert!(tick.validate().is_err());
}

#[test]
fn test_tick_validation_valid_spread() {
    let tick = HistoricalTick::with_spreads(now_secs(), 500_000, 100, 490_000, 510_000);
    assert!(tick.validate().is_ok());
    assert_eq!(tick.bid, Some(490_000));
    assert_eq!(tick.ask, Some(510_000));
}

#[test]
fn test_market_info_creation() {
    let now = now_secs();
    let info = HistoricalMarketInfo::new("M1".into(), "Test".into(), now - 7 * 86_400, now, 1000);
    assert_eq!(info.native_market_id, "M1");
    assert_eq!(info.tick_count, 1000);
}

#[test]
fn test_time_range_validation() {
    let now = now_secs();
    let result = check_time_range(now, now - 3600);
    assert!(matches!(result, Err(HistoricalError::TimeRangeError(_))));
}

#[test]
fn validation_messages_name_the_fault() {
    match HistoricalTick::new(0, 2_000_000, 1).validate() {
        Err(HistoricalError::ValidationError(m)) => assert_eq!(m, "Price outside valid range [0, 1]"),
        _ => panic!("expected a validation error"),
    }
    match HistoricalTick::new(0, 500_000, -1).validate() {
        Err(HistoricalError::ValidationError(m)) => assert_eq!(m, "Volume cannot be negative"),
        _ => panic!("expected a validation error"),
    }
    match HistoricalTick::with_spreads(0, 500_000, 1, 600_000, 400_000).validate() {
        Err(HistoricalError::ValidationError(m)) => assert_eq!(m, "Bid price cannot exceed ask price"),
        _ => panic!("expected a validation error"),
    }
    assert!(check_time_range(1, 2).is_ok());
    assert!(check_time_range(2, 2).is_err());
}
