use upp_gateway::adapters::{OrderBookLevel, OrderBookSnapshot};
use upp_gateway::aggregation::{merge_orderbooks, merge_orderbooks_checked, ProviderBooks};
use upp_gateway::arbitrage::{cross_listed, ArbitrageScanner};
use upp_gateway::smart_router::{RoutingStrategy, SmartRouter};
use upp_gateway::types::Side;

fn level(price: &str, quantity: i64) -> OrderBookLevel {
    OrderBookLevel { price: price.to_string(), quantity }
}

fn snapshot(outcome: &str, bids: Vec<OrderBookLevel>, asks: Vec<OrderBookLevel>) -> OrderBookSnapshot {
    OrderBookSnapshot { outcome_id: outcome.to_string(), bids, asks, asks_computed: false }
}

fn two_books() -> Vec<(String, Vec<OrderBookSnapshot>)> {
    vec![
        (
            "kalshi.com".to_string(),
            vec![
                snapshot("no", vec![level("0.40", 5)], vec![level("0.45", 5)]),
                snapshot("yes", vec![level("0.55", 10)], vec![level("0.60", 30), level("0.62", 20)]),
            ],
        ),
        (
            "polymarket.com".to_string(),
            vec![snapshot("yes", vec![level("0.56", 4)], vec![level("0.58", 25), level("bad", 99)])],
        ),
        ("opinion.trade".to_string(), vec![]),
    ]
}

#[test]
fn gathered_liquidity_reads_each_provider_book() {
    let router = SmartRouter::new(20_000);
    let liq = router.gather_liquidity(&two_books(), "yes", Side::Buy).expect("totals fit");
    assert_eq!(liq.len(), 2);
    assert_eq!(liq[0].provider_id, "kalshi.com");
    assert_eq!(liq[0].best_price, 600_000);
    assert_eq!(liq[0].available_quantity, 50);
    assert_eq!(liq[1].provider_id, "polymarket.com");
    assert_eq!(liq[1].levels.len(), 1);
    assert_eq!(liq[1].best_price, 580_000);
    assert_eq!(liq[1].estimated_fee_ppm, 20_000);
    let sells = router.gather_liquidity(&two_books(), "yes", Side::Sell).expect("totals fit");
    assert_eq!(sells[0].best_price, 550_000);
    assert_eq!(sells[1].best_price, 560_000);
}

#[test]
fn gathering_refuses_quantities_beyond_i64() {
    let router = SmartRouter::new(0);
    let books = vec![(
        "a".to_string(),
        vec![snapshot("yes", vec![], vec![level("0.5", i64::MAX), level("0.6", 1)])],
    )];
    assert!(router.gather_liquidity(&books, "yes", Side::Buy).is_none());
    assert!(router.gather_liquidity(&books, "yes", Side::Sell).is_some());
}

#[test]
fn planned_route_takes_the_cheapest_offers() {
    let router = SmartRouter::new(20_000);
    let liq = router.gather_liquidity(&two_books(), "yes", Side::Buy).unwrap();
    let plan = router.plan_route(&liq, "m", "yes", Side::Buy, 40, RoutingStrategy::SplitOptimal).unwrap();
    assert_eq!(plan.legs.len(), 2);
    assert_eq!(plan.legs[0].provider, "polymarket.com");
    assert_eq!(plan.legs[0].quantity, 25);
    assert_eq!(plan.legs[1].provider, "kalshi.com");
    assert_eq!(plan.legs[1].quantity, 15);
    let best = router.plan_route(&liq, "m", "yes", Side::Buy, 10, RoutingStrategy::BestPrice).unwrap();
    assert_eq!(best.legs.len(), 1);
    assert_eq!(best.legs[0].provider, "polymarket.com");
    assert_eq!(router.stats().routes_computed, 2);
}

#[test]
fn planned_route_without_offers_is_an_error() {
    let router = SmartRouter::new(20_000);
    let err = router.plan_route(&vec![], "m", "yes", Side::Buy, 10, RoutingStrategy::BestPrice).unwrap_err();
    assert_eq!(err, "No liquidity available across any provider");
}

#[test]
fn direct_route_errors() {
    let router = SmartRouter::new(20_000);
    let books = two_books();
    let e1 = router.plan_direct_route(None, Some(&books[0].1), "m", "yes", Side::Buy, 5).unwrap_err();
    assert_eq!(e1, "DirectRoute requires a preferred_provider");
    let e2 = router.plan_direct_route(Some("nowhere"), None, "m", "yes", Side::Buy, 5).unwrap_err();
    assert_eq!(e2, "Provider not found: nowhere");
    let e3 = router.plan_direct_route(Some("opinion.trade"), Some(&books[2].1), "m", "yes", Side::Buy, 5).unwrap_err();
    assert_eq!(e3, "No orderbook data for outcome");
}

#[test]
fn direct_route_sends_everything_to_the_named_provider() {
    let router = SmartRouter::new(20_000);
    let books = two_books();
    let plan = router.plan_direct_route(Some("kalshi.com"), Some(&books[0].1), "m", "yes", Side::Buy, 40).unwrap();
    assert!(!plan.legs.is_empty());
    assert!(plan.legs.iter().all(|l| l.provider == "kalshi.com"));
    assert_eq!(plan.outcome_id, "yes");
}

#[test]
fn checked_merge_agrees_with_the_plain_merge() {
    let answers = vec![
        ProviderBooks {
            provider: "a".to_string(),
            snapshots: vec![snapshot("yes", vec![level("0.55", 10)], vec![level("0.60", 5)])],
            latency_ms: 1,
        },
        ProviderBooks {
            provider: "b".to_string(),
            snapshots: vec![snapshot("yes", vec![level("0.55", 6)], vec![level("0.59", 3)])],
            latency_ms: 2,
        },
    ];
    let checked = merge_orderbooks_checked(&answers, Some("yes")).expect("small sides");
    let plain = merge_orderbooks(&answers, Some("yes"));
    assert_eq!(checked.bids.len(), plain.bids.len());
    assert_eq!(checked.bids[0].total_quantity, 16);
    assert_eq!(checked.asks[0].price, "0.59");
    assert_eq!(checked.asks.len(), 2);
}

#[test]
fn checked_merge_refuses_huge_quantities() {
    let answers = vec![
        ProviderBooks {
            provider: "a".to_string(),
            snapshots: vec![snapshot("yes", vec![level("0.55", i64::MAX)], vec![])],
            latency_ms: 1,
        },
        ProviderBooks {
            provider: "b".to_string(),
            snapshots: vec![snapshot("yes", vec![level("0.55", i64::MAX)], vec![])],
            latency_ms: 1,
        },
    ];
    assert!(merge_orderbooks_checked(&answers, Some("yes")).is_none());
}

#[test]
fn scanning_a_crossed_merged_book_raises_an_alert() {
    let answers = vec![
        ProviderBooks {
            provider: "kalshi.com".to_string(),
            snapshots: vec![snapshot("yes", vec![level("0.70", 40)], vec![level("0.75", 10)])],
            latency_ms: 1,
        },
        ProviderBooks {
            provider: "polymarket.com".to_string(),
            snapshots: vec![snapshot("yes", vec![level("0.50", 10)], vec![level("0.55", 25)])],
            latency_ms: 1,
        },
    ];
    let book = merge_orderbooks(&answers, Some("yes"));
    assert!(book.arbitrage.is_some());
    let mut scanner = ArbitrageScanner::new(500_000, 20_000);
    let (key, alert) = scanner.scan_merged_book("abc", &book);
    assert_eq!(key, "upp:abc:yes");
    let alert = alert.expect("0.70 bid over 0.55 ask");
    assert_eq!(alert.market_id, "upp:abc");
    assert_eq!(alert.bid_provider, "kalshi.com");
    assert_eq!(alert.ask_provider, "polymarket.com");
    assert_eq!(alert.max_quantity, 25);
    assert_eq!(alert.consecutive_detections, 1);
    let (_, again) = scanner.scan_merged_book("abc", &book);
    assert_eq!(again.unwrap().consecutive_detections, 2);
}

#[test]
fn scanning_an_uncrossed_book_raises_nothing() {
    let answers = vec![ProviderBooks {
        provider: "a".to_string(),
        snapshots: vec![snapshot("yes", vec![level("0.40", 5)], vec![level("0.60", 5)])],
        latency_ms: 1,
    }];
    let book = merge_orderbooks(&answers, Some("yes"));
    let mut scanner = ArbitrageScanner::new(500_000, 20_000);
    let (key, alert) = scanner.scan_merged_book("q", &book);
    assert_eq!(key, "upp:q:yes");
    assert!(alert.is_none());
    assert!(scanner.get_active_alerts().is_empty());
}

#[test]
fn cross_listed_markets_keep_first_listing_order() {
    let lists = vec![
        ("kalshi".to_string(), vec!["m1".to_string(), "m2".to_string(), "m3".to_string()]),
        ("polymarket".to_string(), vec!["m3".to_string(), "m4".to_string(), "m1".to_string()]),
        ("opinion".to_string(), vec!["m4".to_string(), "m1".to_string()]),
    ];
    let shared = cross_listed(&lists);
    assert_eq!(shared.len(), 3);
    assert_eq!(shared[0].0, "m1");
    assert_eq!(shared[0].1, vec!["kalshi", "polymarket", "opinion"]);
    assert_eq!(shared[1].0, "m3");
    assert_eq!(shared[1].1, vec!["kalshi", "polymarket"]);
    assert_eq!(shared[2].0, "m4");
    assert_eq!(shared[2].1, vec!["polymarket", "opinion"]);
}

#[test]
fn nothing_is_cross_listed_by_one_provider() {
    let lists = vec![("kalshi".to_string(), vec!["m1".to_string(), "m1".to_string()])];
    assert!(cross_listed(&lists).is_empty());
}

#[test]
fn checked_merge_accepts_large_quantities_at_distinct_prices() {
    let answers = vec![
        ProviderBooks {
            provider: "a".to_string(),
            snapshots: vec![snapshot("yes", vec![level("0.55", i64::MAX)], vec![])],
            latency_ms: 1,
        },
        ProviderBooks {
            provider: "b".to_string(),
            snapshots: vec![snapshot("yes", vec![level("0.54", i64::MAX)], vec![])],
            latency_ms: 1,
        },
    ];
    let book = merge_orderbooks_checked(&answers, Some("yes")).expect("each level fits");
    assert_eq!(book.bids.len(), 2);
    assert_eq!(book.bids[0].total_quantity, i64::MAX);
}
