use upp_gateway::storage::{InMemoryStorage, OrderFilter, StoredOrder, StoredTrade, TradeFilter};

fn now() -> String {
    chrono::Utc::now().to_rfc3339()
}

fn make_order(id: &str, provider: &str, market: &str, status: &str) -> StoredOrder {
    StoredOrder {
        order_id: id.to_string(),
        provider: provider.to_string(),
        market_id: market.to_string(),
        outcome_id: "yes".to_string(),
        side: "buy".to_string(),
        price: "0.65".to_string(),
        quantity: 100,
        status: status.to_string(),
        created_at: now(),
        updated_at: now(),
        provider_order_id: None,
    }
}

fn make_trade(id: &str, order_id: &str, provider: &str, market: &str) -> StoredTrade {
    StoredTrade {
        trade_id: id.to_string(),
        order_id: order_id.to_string(),
        provider: provider.to_string(),
        market_id: market.to_string(),
        side: "buy".to_string(),
        price: "0.65".to_string(),
        quantity: 50,
        fee: "0.01".to_string(),
        executed_at: now(),
    }
}

fn order_filter(provider: Option<&str>, market: Option<&str>, status: Option<&str>, limit: usize) -> OrderFilter {
    OrderFilter {
        provider: provider.map(|s| s.to_string()),
        market_id: market.map(|s| s.to_string()),
        status: status.map(|s| s.to_string()),
        limit,
    }
}

#[test]
fn test_inmemory_save_and_get_order() {
    let mut storage = InMemoryStorage::new();
    let order = make_order("ord-1", "kalshi", "BTC-100K", "pending");
    storage.save_order(&order);
    let retrieved = storage.get_order("ord-1");
    assert!(retrieved.is_some());
    assert_eq!(retrieved.unwrap().order_id, "ord-1");
}

#[test]
fn test_inmemory_get_nonexistent_order() {
    let storage = InMemoryStorage::new();
    assert!(storage.get_order("nope").is_none());
}

#[test]
fn test_inmemory_list_orders_with_filter() {
    let mut storage = InMemoryStorage::new();
    storage.save_order(&make_order("ord-1", "kalshi", "BTC-100K", "pending"));
    storage.save_order(&make_order("ord-2", "polymarket", "ELECTION", "filled"));
    storage.save_order(&make_order("ord-3", "kalshi", "BTC-100K", "filled"));

    assert_eq!(storage.list_orders(&order_filter(Some("kalshi"), None, None, 100)).len(), 2);
    assert_eq!(storage.list_orders(&order_filter(None, None, Some("filled"), 100)).len(), 2);
    assert_eq!(storage.list_orders(&order_filter(None, Some("ELECTION"), None, 100)).len(), 1);
}

#[test]
fn test_inmemory_list_orders_limit() {
    let mut storage = InMemoryStorage::new();
    for i in 0..10 {
        storage.save_order(&make_order(&format!("ord-{}", i), "kalshi", "BTC", "pending"));
    }
    assert_eq!(storage.list_orders(&order_filter(None, None, None, 3)).len(), 3);
}

#[test]
fn test_inmemory_update_order_status() {
    let mut storage = InMemoryStorage::new();
    storage.save_order(&make_order("ord-1", "kalshi", "BTC", "pending"));
    storage.update_order_status("ord-1", "filled");
    let order = storage.get_order("ord-1").unwrap();
    assert_eq!(order.status, "filled");
}

#[test]
fn test_inmemory_save_and_list_trades() {
    let mut storage = InMemoryStorage::new();
    storage.save_trade(&make_trade("trd-1", "ord-1", "kalshi", "BTC"));
    storage.save_trade(&make_trade("trd-2", "ord-1", "kalshi", "BTC"));
    storage.save_trade(&make_trade("trd-3", "ord-2", "poly", "ELEC"));

    let by_order = TradeFilter { provider: None, market_id: None, order_id: Some("ord-1".to_string()), limit: 100 };
    assert_eq!(storage.list_trades(&by_order).len(), 2);
    let by_provider = TradeFilter { provider: Some("poly".to_string()), market_id: None, order_id: None, limit: 100 };
    assert_eq!(storage.list_trades(&by_provider).len(), 1);
}

#[test]
fn test_inmemory_market_cache() {
    let mut storage = InMemoryStorage::new();
    storage.cache_market("BTC-100K", r#"{"price":"0.65"}"#, 60);
    let cached = storage.get_cached_market("BTC-100K");
    assert!(cached.is_some());
    assert_eq!(cached.unwrap(), r#"{"price":"0.65"}"#);
    assert!(storage.get_cached_market("NOPE").is_none());
}

#[test]
fn test_inmemory_market_cache_ttl_expired() {
    let mut storage = InMemoryStorage::new();
    let now: u64 = 1_700_000_000_000;
    storage.cache_market_at("BTC-EXPIRED", "data", 1, now - 10_000);
    assert!(storage.get_cached_market_at("BTC-EXPIRED", now).is_none());
    assert!(storage.get_cached_market_at("BTC-EXPIRED", now - 10_000).is_none());
}

#[test]
fn test_inmemory_order_and_trade_counts() {
    let mut storage = InMemoryStorage::new();
    assert_eq!(storage.order_count(), 0);
    assert_eq!(storage.trade_count(), 0);
    storage.save_order(&make_order("o1", "k", "m", "pending"));
    storage.save_order(&make_order("o2", "k", "m", "filled"));
    storage.save_trade(&make_trade("t1", "o1", "k", "m"));
    assert_eq!(storage.order_count(), 2);
    assert_eq!(storage.trade_count(), 1);
}

#[test]
fn orders_listed_newest_first() {
    let mut storage = InMemoryStorage::new();
    let mut a = make_order("a", "k", "m", "pending");
    a.created_at = "2026-01-01T00:00:00Z".to_string();
    let mut b = make_order("b", "k", "m", "pending");
    b.created_at = "2026-03-01T00:00:00Z".to_string();
    let mut c = make_order("c", "k", "m", "pending");
    c.created_at = "2026-02-01T00:00:00Z".to_string();
    storage.save_order(&a);
    storage.save_order(&b);
    storage.save_order(&c);
    let ids: Vec<String> = storage.list_orders(&order_filter(None, None, None, 10)).into_iter().map(|o| o.order_id).collect();
    assert_eq!(ids, vec!["b".to_string(), "c".to_string(), "a".to_string()]);
}

#[test]
fn fresh_cache_entry_is_served_until_it_ages_out() {
    let mut storage = InMemoryStorage::new();
    storage.cache_market_at("M", "d", 2, 1_000);
    assert_eq!(storage.get_cached_market_at("M", 2_999), Some("d".to_string()));
    assert!(storage.get_cached_market_at("M", 3_000).is_none());
    assert!(storage.get_cached_market_at("M", 1_500).is_none());
}

#[test]
fn saving_again_replaces() {
    let mut storage = InMemoryStorage::new();
    storage.save_order(&make_order("o", "k", "m", "pending"));
    storage.save_order(&make_order("o", "k", "m", "cancelled"));
    assert_eq!(storage.order_count(), 1);
    assert_eq!(storage.get_order("o").unwrap().status, "cancelled");
    storage.update_order_status("missing", "filled");
    assert!(storage.get_order("missing").is_none());
}
