use upp_gateway::hardening::ConfigValidator;
use upp_gateway::strategies::{create_strategy, Strategy, StrategyParams};
use upp_gateway::arbitrage::{filter_alerts, select_opportunities, ArbitrageAlert};
use upp_gateway::execution::{execution_orders, legs_by_priority};
use upp_gateway::historical::{HistoricalTick, IngestionPipeline};
use upp_gateway::metrics::{gateway_metrics_text, GatewayMetricValues};
use upp_gateway::price_index::{PriceIndex, PriceTick, Resolution};
use upp_gateway::smart_router::{RoutingLeg, RoutingPlan};
use upp_gateway::storage::{select_orders, select_trades, OrderFilter, StoredOrder, StoredTrade, TradeFilter};
use upp_gateway::types::{OrderType, Side, TimeInForce};

fn alert(market: &str, bid: &str, ask: &str, spread_pct: i128, confidence: i128, net: i128) -> ArbitrageAlert {
    ArbitrageAlert {
        alert_id: format!("id-{}", market),
        market_id: market.to_string(),
        outcome_id: "yes".to_string(),
        bid_provider: bid.to_string(),
        bid_price: 700_000,
        ask_provider: ask.to_string(),
        ask_price: 550_000,
        spread: 150_000,
        spread_pct_micros: spread_pct,
        gross_profit_per_contract: 150_000,
        estimated_fees: 25_000,
        net_profit_per_contract: net,
        max_quantity: 10,
        estimated_total_profit: net * 10,
        confidence_ppm: confidence,
        detected_at: String::new(),
        active: true,
        consecutive_detections: 1,
    }
}

#[test]
fn opportunities_listed_by_profit_within_filters() {
    let alerts = vec![
        alert("a", "kalshi.com", "polymarket.com", 5_000_000, 900_000, 20_000),
        alert("b", "opinion.trade", "polymarket.com", 30_000_000, 950_000, 90_000),
        alert("c", "kalshi.com", "opinion.trade", 1_000_000, 200_000, 50_000),
        alert("d", "kalshi.com", "polymarket.com", 8_000_000, 800_000, 90_000),
    ];
    let all = select_opportunities(&alerts, None, None, None, 50);
    let ids: Vec<&str> = all.iter().map(|a| a.market_id.as_str()).collect();
    assert_eq!(ids, vec!["b", "d", "c", "a"]);
    let kalshi = select_opportunities(&alerts, None, None, Some("kalshi.com"), 50);
    let ids: Vec<&str> = kalshi.iter().map(|a| a.market_id.as_str()).collect();
    assert_eq!(ids, vec!["d", "c", "a"]);
    let wide = select_opportunities(&alerts, Some(5_000_000), Some(850_000), None, 50);
    let ids: Vec<&str> = wide.iter().map(|a| a.market_id.as_str()).collect();
    assert_eq!(ids, vec!["b", "a"]);
    assert_eq!(select_opportunities(&alerts, None, None, None, 1).len(), 1);
}

#[test]
fn history_filtered_by_spread_keeps_order() {
    let alerts = vec![
        alert("a", "x", "y", 5_000_000, 0, 1),
        alert("b", "x", "y", 500_000, 0, 9),
        alert("c", "x", "y", 7_000_000, 0, 3),
    ];
    let kept = filter_alerts(&alerts, Some(1_000_000), None, None);
    let ids: Vec<&str> = kept.iter().map(|a| a.market_id.as_str()).collect();
    assert_eq!(ids, vec!["a", "c"]);
}

fn leg(provider: &str, price: i64, quantity: i64, priority: u32) -> RoutingLeg {
    RoutingLeg {
        provider: provider.to_string(),
        price,
        quantity,
        estimated_cost: price as i128 * quantity as i128,
        estimated_fee: 0,
        fill_probability_ppm: 1_000_000,
        priority,
    }
}

fn plan(legs: Vec<RoutingLeg>) -> RoutingPlan {
    RoutingPlan {
        market_native_id: "MKT-1".to_string(),
        outcome_id: "yes".to_string(),
        side: "buy".to_string(),
        total_quantity: legs.iter().map(|l| l.quantity).sum(),
        legs,
        estimated_total_cost: 0,
        estimated_avg_price: 0,
        estimated_fees: 0,
        naive_cost: 0,
        savings: 0,
        savings_ppm: 0,
        providers_considered: 2,
        computed_at: String::new(),
    }
}

#[test]
fn execution_orders_follow_leg_priority() {
    let p = plan(vec![leg("b", 555_000, 5, 2), leg("a", 520_000, 10, 1), leg("c", 600_000, 1, 2)]);
    let sorted = legs_by_priority(&p.legs);
    let order: Vec<&str> = sorted.iter().map(|l| l.provider.as_str()).collect();
    assert_eq!(order, vec!["a", "b", "c"]);
    let orders = execution_orders(&p, Side::Buy, OrderType::Limit, TimeInForce::Gtc);
    assert_eq!(orders.len(), 3);
    assert_eq!(orders[0].provider, "a");
    assert_eq!(orders[0].request.price.as_deref(), Some("0.52"));
    assert_eq!(orders[1].request.price.as_deref(), Some("0.56"));
    assert_eq!(orders[1].request.quantity, 5);
    assert_eq!(orders[0].request.market_native_id, "MKT-1");
    assert!(orders[2].request.client_order_id.as_deref().unwrap().starts_with("smart-"));
    assert_ne!(orders[1].request.client_order_id, orders[2].request.client_order_id);
}

#[test]
fn gateway_metrics_text_lists_every_count() {
    let mut v = GatewayMetricValues {
        requests_total: 12,
        requests_ok: 10,
        requests_error: 2,
        requests_rate_limited: 0,
        ws_connections: 0,
        ws_active_channels: 0,
        ws_subscribers: 0,
        rate_limit_tracked_clients: 0,
        storage_orders_total: 3,
        storage_trades_total: 0,
        arbitrage_scans_total: 0,
        arbitrage_active: 0,
        arbitrage_detected_total: 0,
        price_index_ticks_total: 0,
        price_index_markets: 0,
        router_routes_computed: 0,
        router_orders_routed: 0,
        live_feed_messages_total: 0,
        live_feed_reconnects_total: 0,
        live_feed_providers: 0,
        ingestion_ticks_total: 0,
        ingestion_markets_processed: 0,
        api_keys_total: 0,
        api_keys_active: 7,
    };
    let text = gateway_metrics_text(v);
    assert!(text.starts_with(
        "# HELP upp_requests_total Total requests received\n# TYPE upp_requests_total counter\nupp_requests_total 12\n"
    ));
    assert!(text.contains("upp_storage_orders_total 3\n"));
    assert!(text.ends_with("# TYPE upp_api_keys_active gauge\nupp_api_keys_active 7\n"));
    assert_eq!(text.matches("# HELP ").count(), 24);
    v.requests_total = 13;
    assert!(gateway_metrics_text(v).contains("upp_requests_total 13\n"));
}

#[test]
fn live_ticks_and_history_share_one_index() {
    let mut pipeline = IngestionPipeline::new(PriceIndex::new());
    pipeline.ingest_live(PriceTick {
        market_id: "upp:kalshi.com:M".to_string(),
        outcome_id: "yes".to_string(),
        price: 400_000,
        timestamp: 1_700_000_000,
    });
    let n = pipeline.ingest_fetched("kalshi.com", "M", vec![HistoricalTick::new(1_700_000_030, 450_000, 5)]);
    assert_eq!(n, 1);
    let candles =
        pipeline.price_index().query_candles("upp:kalshi.com:M", "yes", Resolution::OneDay, None, None, 10);
    assert_eq!(candles.len(), 1);
    assert_eq!(candles[0].open, 400_000);
    assert_eq!(candles[0].close, 450_000);
    assert_eq!(pipeline.stats().ticks_ingested, 1);
    assert_eq!(pipeline.price_index().stats().ticks_ingested, 2);
}

fn order(id: &str, provider: &str, created: &str) -> StoredOrder {
    StoredOrder {
        order_id: id.to_string(),
        provider: provider.to_string(),
        market_id: "m".to_string(),
        outcome_id: "yes".to_string(),
        side: "buy".to_string(),
        price: "0.50".to_string(),
        quantity: 1,
        status: "pending".to_string(),
        created_at: created.to_string(),
        updated_at: created.to_string(),
        provider_order_id: None,
    }
}

#[test]
fn selected_orders_newest_first_with_limit() {
    let all = vec![
        order("o1", "kalshi.com", "2026-01-01T00:00:00Z"),
        order("o2", "polymarket.com", "2026-01-03T00:00:00Z"),
        order("o3", "kalshi.com", "2026-01-02T00:00:00Z"),
    ];
    let f = OrderFilter { provider: Some("kalshi.com".to_string()), market_id: None, status: None, limit: 10 };
    let ids: Vec<String> = select_orders(&all, &f).into_iter().map(|o| o.order_id).collect();
    assert_eq!(ids, vec!["o3", "o1"]);
    let f = OrderFilter { provider: None, market_id: None, status: None, limit: 2 };
    let ids: Vec<String> = select_orders(&all, &f).into_iter().map(|o| o.order_id).collect();
    assert_eq!(ids, vec!["o2", "o3"]);
    let trades = vec![StoredTrade {
        trade_id: "t1".to_string(),
        order_id: "o1".to_string(),
        provider: "kalshi.com".to_string(),
        market_id: "m".to_string(),
        side: "buy".to_string(),
        price: "0.5".to_string(),
        quantity: 1,
        fee: "0".to_string(),
        executed_at: "2026-01-01T00:00:00Z".to_string(),
    }];
    let tf = TradeFilter { provider: None, market_id: None, order_id: Some("o2".to_string()), limit: 10 };
    assert!(select_trades(&trades, &tf).is_empty());
}

#[test]
fn tls_certificate_status_follows_existence() {
    assert!(ConfigValidator::tls_cert_status("/etc/cert.pem", true).is_ok());
    assert_eq!(
        ConfigValidator::tls_cert_status("/etc/cert.pem", false).unwrap_err(),
        "TLS certificate not found: /etc/cert.pem"
    );
    assert_eq!(
        ConfigValidator::validate_tls_cert("/no/such/dir/cert.pem").unwrap_err(),
        "TLS certificate not found: /no/such/dir/cert.pem"
    );
}

#[test]
fn builtin_strategies_are_named_by_kind() {
    let p = StrategyParams::default();
    assert_eq!(create_strategy("momentum", &p).unwrap().name(), "Momentum");
    assert_eq!(create_strategy("BAND", &p).unwrap().name(), "ThresholdBand");
    assert_eq!(create_strategy("mean_reversion", &p).unwrap().name(), "MeanReversion");
}
