use upp_gateway::aggregation::ArbitrageOpportunity;
use upp_gateway::arbitrage::ArbitrageScanner;

fn make_arb(bid_provider: &str, bid: &str, ask_provider: &str, ask: &str) -> ArbitrageOpportunity {
    ArbitrageOpportunity {
        description: format!("Buy {} at {}, sell {} at {}", ask_provider, ask, bid_provider, bid),
        bid_provider: bid_provider.to_string(),
        bid_price: bid.to_string(),
        ask_provider: ask_provider.to_string(),
        ask_price: ask.to_string(),
        spread_pct_micros: None,
        profit_per_contract: String::new(),
    }
}

/// 0.5% minimum spread, 2% fee per side.
fn scanner() -> ArbitrageScanner {
    ArbitrageScanner::new(500_000, 20_000)
}

#[test]
fn test_process_opportunity_profitable() {
    let mut scanner = scanner();
    let arb = make_arb("kalshi.com", "0.6500", "polymarket.com", "0.5800");
    let alert = scanner.process_opportunity("market-1", "yes", &arb, 100);
    assert!(alert.is_some());
    let alert = alert.unwrap();
    assert!(alert.spread > 0);
    assert!(alert.net_profit_per_contract > 0);
    assert_eq!(alert.max_quantity, 100);
    assert!(alert.active);
    assert_eq!(alert.consecutive_detections, 1);
}

#[test]
fn test_process_opportunity_below_min_spread() {
    let mut scanner = scanner();
    let arb = make_arb("kalshi.com", "0.6010", "polymarket.com", "0.6000");
    assert!(scanner.process_opportunity("market-2", "yes", &arb, 50).is_none());
}

#[test]
fn test_process_opportunity_unprofitable_after_fees() {
    let mut scanner = ArbitrageScanner::new(100_000, 50_000);
    let arb = make_arb("kalshi.com", "0.5200", "polymarket.com", "0.5000");
    assert!(scanner.process_opportunity("market-3", "yes", &arb, 50).is_none());
}

#[test]
fn test_consecutive_detections() {
    let mut scanner = scanner();
    let arb = make_arb("kalshi.com", "0.7000", "polymarket.com", "0.5500");
    let alert1 = scanner.process_opportunity("market-4", "yes", &arb, 100).unwrap();
    assert_eq!(alert1.consecutive_detections, 1);
    let alert2 = scanner.process_opportunity("market-4", "yes", &arb, 100).unwrap();
    assert_eq!(alert2.consecutive_detections, 2);
    let alert3 = scanner.process_opportunity("market-4", "yes", &arb, 100).unwrap();
    assert_eq!(alert3.consecutive_detections, 3);
}

#[test]
fn test_active_alerts_and_expiry() {
    let mut scanner = scanner();
    let arb = make_arb("kalshi.com", "0.7000", "polymarket.com", "0.5500");
    scanner.process_opportunity("market-5", "yes", &arb, 100);
    scanner.process_opportunity("market-6", "yes", &arb, 50);
    assert_eq!(scanner.get_active_alerts().len(), 2);

    scanner.expire_stale(&vec!["market-6:yes".to_string()]);
    assert_eq!(scanner.get_active_alerts().len(), 1);
    assert_eq!(scanner.get_active_alerts()[0].market_id, "market-6");
}

#[test]
fn test_history() {
    let mut scanner = scanner();
    let arb = make_arb("kalshi.com", "0.7000", "polymarket.com", "0.5500");
    for i in 0..5 {
        scanner.process_opportunity(&format!("market-{}", i), "yes", &arb, 100);
    }
    let history = scanner.get_history(3);
    assert_eq!(history.len(), 3);
    assert_eq!(history[0].market_id, "market-4");
}

#[test]
fn test_summary() {
    let mut scanner = scanner();
    let arb = make_arb("kalshi.com", "0.7000", "polymarket.com", "0.5500");
    scanner.process_opportunity("market-7", "yes", &arb, 100);
    for _ in 0..10 {
        scanner.record_scan();
    }
    let summary = scanner.get_summary();
    assert_eq!(summary.active_opportunities, 1);
    assert_eq!(summary.total_scans, 10);
    assert!(summary.best_opportunity.is_some());
}

#[test]
fn test_confidence_score() {
    let mut scanner = ArbitrageScanner::new(500_000, 10_000);
    let arb = make_arb("kalshi.com", "0.8000", "polymarket.com", "0.5000");
    let alert = scanner.process_opportunity("conf-high", "yes", &arb, 200).unwrap();
    assert!(alert.confidence_ppm > 800_000);

    let arb2 = make_arb("kalshi.com", "0.5200", "polymarket.com", "0.5000");
    let alert2 = scanner.process_opportunity("conf-low", "yes", &arb2, 5).unwrap();
    assert!(alert2.confidence_ppm < alert.confidence_ppm);
}

#[test]
fn alert_figures_are_exact() {
    let mut scanner = scanner();
    let arb = make_arb("kalshi.com", "0.6500", "polymarket.com", "0.5800");
    let a = scanner.process_opportunity("m", "yes", &arb, 100).unwrap();
    assert_eq!(a.bid_price, 650_000);
    assert_eq!(a.ask_price, 580_000);
    assert_eq!(a.spread, 70_000);
    assert_eq!(a.spread_pct_micros, 12_068_965);
    assert_eq!(a.estimated_fees, 24_600);
    assert_eq!(a.net_profit_per_contract, 45_400);
    assert_eq!(a.estimated_total_profit, 4_540_000);
    assert_eq!(a.confidence_ppm, 1_000_000);
    assert!(a.alert_id.starts_with("arb-"));
    assert_eq!(a.alert_id.len(), 40);
    assert_eq!(scanner.detections("m", "yes"), Some(1));
}

#[test]
fn history_keeps_the_latest_thousand() {
    let mut scanner = scanner();
    let arb = make_arb("kalshi.com", "0.7000", "polymarket.com", "0.5500");
    for i in 0..1005 {
        scanner.process_opportunity(&format!("m{}", i), "yes", &arb, 1);
    }
    let all = scanner.get_history(5000);
    assert_eq!(all.len(), 1000);
    assert_eq!(all[0].market_id, "m1004");
    assert_eq!(all[999].market_id, "m5");
}

#[test]
fn summary_of_empty_scanner() {
    let scanner = scanner();
    let s = scanner.get_summary();
    assert_eq!(s.active_opportunities, 0);
    assert_eq!(s.total_estimated_profit, 0);
    assert_eq!(s.average_spread_pct_micros, 0);
    assert!(s.best_opportunity.is_none());
}

#[test]
fn any_fee_rate_is_accepted_and_totals_saturate() {
    let mut scanner = ArbitrageScanner::new(0, u64::MAX);
    let arb = make_arb("kalshi.com", "0", "polymarket.com", "-1000000000000");
    let alert = scanner.process_opportunity("market-big", "yes", &arb, i64::MAX).expect("the spread beats the fees");
    assert!(alert.net_profit_per_contract > 0);
    assert_eq!(alert.estimated_total_profit, i128::MAX);
}
