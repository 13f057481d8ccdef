use upp_gateway::adapters::{OrderBookLevel, OrderBookSnapshot};
use upp_gateway::aggregation::{detect_arbitrage, merge_market_results, merge_orderbooks, ProviderBooks, ProviderResult};
use upp_gateway::types::{
    Event, KycLevel, Market, MarketLifecycle, MarketPricing, MarketRegulatory, MarketRules, MarketStatus, MarketType,
    MarketVolume, UniversalMarketId,
};

fn market(provider: &str, id: &str, volume_24h: &str) -> Market {
    Market {
        id: UniversalMarketId::new(provider, id),
        event: Event {
            id: id.to_string(),
            title: id.to_string(),
            description: String::new(),
            category: "general".to_string(),
            tags: vec![],
            image_url: None,
            series_id: None,
            series_title: None,
        },
        market_type: MarketType::Binary,
        outcomes: vec![],
        pricing: MarketPricing {
            last_price: vec![],
            best_bid: vec![],
            best_ask: vec![],
            mid_price: vec![],
            spread: vec![],
            tick_size: "0.01".to_string(),
            currency: "USD".to_string(),
            min_order_size: 1,
            max_order_size: 100,
            updated_at: 0,
        },
        volume: MarketVolume {
            total_volume: "0".to_string(),
            volume_24h: volume_24h.to_string(),
            volume_7d: None,
            open_interest: "0".to_string(),
            num_traders: None,
            updated_at: 0,
        },
        lifecycle: MarketLifecycle {
            status: MarketStatus::Open,
            created_at: 0,
            opens_at: None,
            closes_at: None,
            resolved_at: None,
            expires_at: None,
            resolution_source: None,
        },
        rules: MarketRules {
            allowed_order_types: vec![],
            allowed_tif: vec![],
            allows_short_selling: false,
            allows_partial_fill: true,
            maker_fee_rate: "0.00".to_string(),
            taker_fee_rate: "0.00".to_string(),
            max_position_size: 0,
        },
        regulatory: MarketRegulatory {
            jurisdiction: "US".to_string(),
            compliant: true,
            eligible_regions: vec![],
            restricted_regions: vec![],
            regulator: String::new(),
            license_type: String::new(),
            contract_type: String::new(),
            required_kyc: KycLevel::NoneRequired,
        },
        provider_metadata: vec![],
    }
}

fn level(price: &str, quantity: i64) -> OrderBookLevel {
    OrderBookLevel { price: price.to_string(), quantity }
}

#[test]
fn merged_markets_sorted_by_volume_with_errors_reported() {
    let results = vec![
        ProviderResult {
            provider: "kalshi.com".to_string(),
            data: Some(vec![market("kalshi.com", "K1", "100"), market("kalshi.com", "K2", "5000")]),
            error: None,
            latency_ms: 12,
        },
        ProviderResult { provider: "opinion.trade".to_string(), data: None, error: Some("Timeout".to_string()), latency_ms: 5000 },
        ProviderResult {
            provider: "polymarket.com".to_string(),
            data: Some(vec![market("polymarket.com", "P1", "750.5"), market("polymarket.com", "P2", "n/a")]),
            error: None,
            latency_ms: 30,
        },
    ];
    let agg = merge_market_results(results);
    assert_eq!(agg.total, 4);
    let ids: Vec<&str> = agg.markets.iter().map(|m| m.id.native_id.as_str()).collect();
    assert_eq!(ids, vec!["K2", "P1", "K1", "P2"]);
    assert_eq!(agg.provider_results.len(), 3);
    assert_eq!(agg.provider_results[0].data, Some(2));
    assert_eq!(agg.provider_results[1].data, Some(0));
    assert_eq!(agg.provider_results[1].error, Some("Timeout".to_string()));
    assert_eq!(agg.errors.len(), 1);
    assert_eq!(agg.errors[0].provider, "opinion.trade");
}

#[test]
fn equal_volumes_keep_provider_order() {
    let results = vec![
        ProviderResult { provider: "a".to_string(), data: Some(vec![market("a", "A1", "10")]), error: None, latency_ms: 1 },
        ProviderResult { provider: "b".to_string(), data: Some(vec![market("b", "B1", "10.0")]), error: None, latency_ms: 1 },
    ];
    let agg = merge_market_results(results);
    assert_eq!(agg.markets[0].id.native_id, "A1");
    assert_eq!(agg.markets[1].id.native_id, "B1");
}

#[test]
fn merged_book_groups_by_price_and_orders_sides() {
    let answers = vec![
        ProviderBooks {
            provider: "kalshi.com".to_string(),
            snapshots: vec![OrderBookSnapshot {
                outcome_id: "yes".to_string(),
                bids: vec![level("0.55", 10), level("0.50", 20)],
                asks: vec![level("0.60", 5)],
                asks_computed: false,
            }],
            latency_ms: 7,
        },
        ProviderBooks {
            provider: "polymarket.com".to_string(),
            snapshots: vec![OrderBookSnapshot {
                outcome_id: "yes".to_string(),
                bids: vec![level("0.62", 4), level("0.55", 6)],
                asks: vec![level("0.64", 8), level("0.60", 1)],
                asks_computed: false,
            }],
            latency_ms: 9,
        },
    ];
    let book = merge_orderbooks(&answers, Some("yes"));
    let bid_prices: Vec<&str> = book.bids.iter().map(|l| l.price.as_str()).collect();
    assert_eq!(bid_prices, vec!["0.62", "0.55", "0.50"]);
    assert_eq!(book.bids[1].total_quantity, 16);
    assert_eq!(book.bids[1].providers.len(), 2);
    assert_eq!(book.bids[1].providers[0].provider, "kalshi.com");
    let ask_prices: Vec<&str> = book.asks.iter().map(|l| l.price.as_str()).collect();
    assert_eq!(ask_prices, vec!["0.60", "0.64"]);
    assert_eq!(book.asks[0].total_quantity, 6);
    assert_eq!(book.provider_books.len(), 2);
    assert_eq!(book.outcome_id, "yes");
    let arb = book.arbitrage.expect("0.62 bid above 0.60 ask");
    assert_eq!(arb.bid_provider, "polymarket.com");
    assert_eq!(arb.ask_provider, "kalshi.com");
    assert_eq!(arb.bid_price, "0.6200");
    assert_eq!(arb.ask_price, "0.6000");
    assert_eq!(arb.profit_per_contract, "0.0200");
    assert_eq!(arb.description, "Buy on kalshi.com at 0.6000, sell on polymarket.com at 0.6200 for 0.0200 profit (3.33%)");
}

#[test]
fn no_arbitrage_within_one_provider_or_without_crossing() {
    let same = vec![("a".to_string(), 700_000i64)];
    let asks = vec![("a".to_string(), 600_000i64)];
    assert!(detect_arbitrage(&same, &asks).is_none());
    let bids = vec![("a".to_string(), 500_000i64)];
    let asks = vec![("b".to_string(), 600_000i64)];
    assert!(detect_arbitrage(&bids, &asks).is_none());
    assert!(detect_arbitrage(&vec![], &asks).is_none());
}

#[test]
fn arbitrage_against_a_zero_ask_is_infinite() {
    let bids = vec![("a".to_string(), 100_000i64)];
    let asks = vec![("b".to_string(), 0i64)];
    let arb = detect_arbitrage(&bids, &asks).unwrap();
    assert_eq!(arb.spread_pct_micros, None);
    assert!(arb.description.ends_with("(inf%)"));
}

#[test]
fn arbitrage_pairs_best_quotes_of_different_providers() {
    let bids = vec![("A".to_string(), 600_000i64), ("B".to_string(), 550_000i64)];
    let asks = vec![("A".to_string(), 500_000i64), ("C".to_string(), 520_000i64)];
    let arb = detect_arbitrage(&bids, &asks).expect("A's bid is above C's ask");
    assert_eq!(arb.bid_provider, "A");
    assert_eq!(arb.bid_price, "0.6000");
    assert_eq!(arb.ask_provider, "C");
    assert_eq!(arb.ask_price, "0.5200");
    assert_eq!(arb.profit_per_contract, "0.0800");
}
