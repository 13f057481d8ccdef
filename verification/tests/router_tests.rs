use upp_gateway::adapters::{OrderBookLevel, OrderBookSnapshot};
use upp_gateway::smart_router::{BookLevel, ProviderLiquidity, RoutingStrategy, SmartRouter};
use upp_gateway::types::Side;

const FEE_PPM: u64 = 20_000;

fn make_liquidity(provider: &str, levels: Vec<(i64, i64)>) -> ProviderLiquidity {
    let best = levels.iter().map(|(p, _)| *p).min().unwrap_or(0);
    let total: i64 = levels.iter().map(|(_, q)| *q).sum();
    ProviderLiquidity {
        provider_id: provider.to_string(),
        best_price: best,
        available_quantity: total,
        levels: levels.into_iter().map(|(price, quantity)| BookLevel { price, quantity }).collect(),
        estimated_fee_ppm: FEE_PPM,
    }
}

#[test]
fn test_best_price_routing() {
    let router = SmartRouter::new(FEE_PPM);
    let liquidity = vec![
        make_liquidity("kalshi", vec![(550_000, 100)]),
        make_liquidity("polymarket", vec![(520_000, 80)]),
        make_liquidity("opinion", vec![(580_000, 50)]),
    ];
    let plan = router.route_best_price(&liquidity, "test-market", "yes", Side::Buy, 50);
    assert_eq!(plan.legs.len(), 1);
    assert_eq!(plan.legs[0].provider, "polymarket");
    assert_eq!(plan.legs[0].price, 520_000);
    assert_eq!(plan.legs[0].quantity, 50);
}

#[test]
fn test_split_optimal_routing() {
    let router = SmartRouter::new(FEE_PPM);
    let liquidity = vec![
        make_liquidity("kalshi", vec![(550_000, 30), (560_000, 30)]),
        make_liquidity("polymarket", vec![(520_000, 20), (540_000, 40)]),
    ];
    let plan = router.route_split_optimal(&liquidity, "test-market", "yes", Side::Buy, 50);
    let total_filled: i64 = plan.legs.iter().map(|l| l.quantity).sum();
    assert_eq!(total_filled, 50);
    assert!(plan.providers_considered == 2);
}

#[test]
fn test_split_routes_to_cheapest_first() {
    let router = SmartRouter::new(FEE_PPM);
    let liquidity = vec![
        make_liquidity("expensive", vec![(700_000, 100)]),
        make_liquidity("cheap", vec![(400_000, 100)]),
    ];
    let plan = router.route_split_optimal(&liquidity, "m1", "yes", Side::Buy, 50);
    assert_eq!(plan.legs.len(), 1);
    assert_eq!(plan.legs[0].provider, "cheap");
    assert_eq!(plan.legs[0].quantity, 50);
}

#[test]
fn test_split_across_providers_when_insufficient_single() {
    let router = SmartRouter::new(FEE_PPM);
    let liquidity = vec![
        make_liquidity("a", vec![(500_000, 30)]),
        make_liquidity("b", vec![(510_000, 30)]),
    ];
    let plan = router.route_split_optimal(&liquidity, "m1", "yes", Side::Buy, 50);
    let total_filled: i64 = plan.legs.iter().map(|l| l.quantity).sum();
    assert_eq!(total_filled, 50);
    assert_eq!(plan.legs.len(), 2);
}

#[test]
fn test_sell_side_routing() {
    let router = SmartRouter::new(FEE_PPM);
    let liquidity = vec![
        ProviderLiquidity {
            provider_id: "high_bidder".into(),
            best_price: 650_000,
            available_quantity: 100,
            levels: vec![BookLevel { price: 650_000, quantity: 100 }],
            estimated_fee_ppm: FEE_PPM,
        },
        ProviderLiquidity {
            provider_id: "low_bidder".into(),
            best_price: 550_000,
            available_quantity: 100,
            levels: vec![BookLevel { price: 550_000, quantity: 100 }],
            estimated_fee_ppm: FEE_PPM,
        },
    ];
    let plan = router.route_best_price(&liquidity, "m1", "yes", Side::Sell, 50);
    assert_eq!(plan.legs[0].provider, "high_bidder");
}

#[test]
fn test_savings_calculation() {
    let router = SmartRouter::new(FEE_PPM);
    let liquidity = vec![
        make_liquidity("expensive", vec![(600_000, 100)]),
        make_liquidity("cheap", vec![(500_000, 100)]),
    ];
    let plan = router.route_split_optimal(&liquidity, "m1", "yes", Side::Buy, 50);
    assert!(plan.savings > 0);
    assert!(plan.savings_ppm > 0);
}

#[test]
fn test_routing_strategy_parse() {
    assert_eq!(RoutingStrategy::parse("best_price"), Some(RoutingStrategy::BestPrice));
    assert_eq!(RoutingStrategy::parse("split"), Some(RoutingStrategy::SplitOptimal));
    assert_eq!(RoutingStrategy::parse("direct"), Some(RoutingStrategy::DirectRoute));
    assert_eq!(RoutingStrategy::parse("unknown"), None);
}

#[test]
fn test_router_stats() {
    let router = SmartRouter::new(FEE_PPM);
    let stats = router.stats();
    assert_eq!(stats.routes_computed, 0);
    assert_eq!(stats.orders_routed, 0);
}

#[test]
fn savings_are_exact_in_micros() {
    // Naive: 50 * 0.60 * 1.02 = 30.6; routed: 50 * 0.50 * 1.02 = 25.5.
    let router = SmartRouter::new(FEE_PPM);
    let liquidity = vec![
        make_liquidity("expensive", vec![(600_000, 100)]),
        make_liquidity("cheap", vec![(500_000, 100)]),
    ];
    let plan = router.route_split_optimal(&liquidity, "m1", "yes", Side::Buy, 50);
    assert_eq!(plan.naive_cost, 30_600_000);
    assert_eq!(plan.estimated_total_cost, 25_500_000);
    assert_eq!(plan.estimated_fees, 500_000);
    assert_eq!(plan.savings, 5_100_000);
    assert_eq!(plan.savings_ppm, 166_666);
    assert_eq!(plan.estimated_avg_price, 500_000);
    assert_eq!(plan.side, "buy");
}

#[test]
fn split_merges_levels_of_one_provider_into_one_leg() {
    let router = SmartRouter::new(FEE_PPM);
    let liquidity = vec![
        make_liquidity("kalshi", vec![(550_000, 30), (560_000, 30)]),
        make_liquidity("polymarket", vec![(520_000, 20), (540_000, 40)]),
    ];
    let plan = router.route_split_optimal(&liquidity, "m", "yes", Side::Buy, 50);
    assert_eq!(plan.legs.len(), 1);
    assert_eq!(plan.legs[0].provider, "polymarket");
    assert_eq!(plan.legs[0].quantity, 50);
    assert_eq!(plan.legs[0].price, 540_000);
    assert_eq!(plan.legs[0].estimated_cost, 20 * 520_000 + 30 * 540_000);
    assert_eq!(plan.legs[0].priority, 1);
}

#[test]
fn split_fills_no_more_than_the_book_holds() {
    let router = SmartRouter::new(FEE_PPM);
    let liquidity = vec![make_liquidity("a", vec![(500_000, 10)]), make_liquidity("b", vec![(510_000, 5)])];
    let plan = router.route_split_optimal(&liquidity, "m", "yes", Side::Buy, 100);
    let filled: i64 = plan.legs.iter().map(|l| l.quantity).sum();
    assert_eq!(filled, 15);
    let empty = router.route_split_optimal(&liquidity, "m", "yes", Side::Buy, 0);
    assert!(empty.legs.is_empty());
}

#[test]
fn extract_liquidity_reads_the_right_side() {
    let router = SmartRouter::new(FEE_PPM);
    let snapshot = OrderBookSnapshot {
        outcome_id: "yes".into(),
        bids: vec![
            OrderBookLevel { price: "0.48".into(), quantity: 10 },
            OrderBookLevel { price: "0.47".into(), quantity: 5 },
        ],
        asks: vec![
            OrderBookLevel { price: "0.52".into(), quantity: 7 },
            OrderBookLevel { price: "oops".into(), quantity: 9 },
            OrderBookLevel { price: "0.51".into(), quantity: 3 },
        ],
        asks_computed: false,
    };
    let buy = router.extract_liquidity("k", &snapshot, Side::Buy);
    assert_eq!(buy.best_price, 510_000);
    assert_eq!(buy.available_quantity, 10);
    assert_eq!(buy.levels.len(), 2);
    let sell = router.extract_liquidity("k", &snapshot, Side::Sell);
    assert_eq!(sell.best_price, 480_000);
    assert_eq!(sell.available_quantity, 15);
}

#[test]
fn best_price_fill_ratio_and_direct_plan() {
    let router = SmartRouter::new(FEE_PPM);
    let liquidity = vec![make_liquidity("a", vec![(500_000, 25)])];
    let plan = router.route_best_price(&liquidity, "m", "yes", Side::Buy, 100);
    assert_eq!(plan.legs[0].quantity, 25);
    assert_eq!(plan.legs[0].fill_probability_ppm, 250_000);
    assert_eq!(plan.legs[0].estimated_fee, 250_000);
    let direct = router.plan_direct(&liquidity[0], "a", "m", "yes", Side::Sell, 100);
    assert_eq!(direct.legs[0].quantity, 100);
    assert_eq!(direct.providers_considered, 1);
    assert_eq!(direct.side, "sell");
}

#[test]
fn strategy_names_ignore_case() {
    assert_eq!(RoutingStrategy::parse("OPTIMAL"), Some(RoutingStrategy::SplitOptimal));
    assert_eq!(RoutingStrategy::parse("Best"), Some(RoutingStrategy::BestPrice));
}
