use upp_gateway::kalshi::{cents_to_upp, transform_market, transform_orderbook, upp_to_cents, KalshiMarket, KalshiOrderbook};
use upp_gateway::types::{KeyValue, MarketStatus};

#[test]
fn cents_become_two_place_prices() {
    assert_eq!(cents_to_upp(65), "0.65");
    assert_eq!(cents_to_upp(100), "1.00");
    assert_eq!(cents_to_upp(5), "0.05");
    assert_eq!(cents_to_upp(-5), "-0.05");
    assert_eq!(cents_to_upp(0), "0.00");
}

#[test]
fn prices_become_cents() {
    assert_eq!(upp_to_cents("0.65"), Ok(65));
    assert_eq!(upp_to_cents("1"), Ok(100));
    assert_eq!(upp_to_cents("0.666"), Ok(67));
    assert_eq!(upp_to_cents("-0.05"), Ok(-5));
    assert_eq!(upp_to_cents("abc"), Err("Invalid decimal price".to_string()));
}

#[test]
fn order_book_asks_mirror_the_other_side() {
    let ob = KalshiOrderbook {
        yes: Some(vec![vec![Some(40), Some(100)], vec![Some(35), Some(50)], vec![Some(1)]]),
        no: Some(vec![vec![Some(55), Some(80)]]),
    };
    let snaps = transform_orderbook(&ob);
    assert_eq!(snaps.len(), 2);
    assert_eq!(snaps[0].outcome_id, "yes");
    assert_eq!(snaps[0].bids.len(), 2);
    assert_eq!(snaps[0].bids[0].price, "0.40");
    assert_eq!(snaps[0].bids[0].quantity, 100);
    assert_eq!(snaps[0].asks.len(), 1);
    assert_eq!(snaps[0].asks[0].price, "0.45");
    assert_eq!(snaps[0].asks[0].quantity, 80);
    assert!(snaps[0].asks_computed);
    assert_eq!(snaps[1].outcome_id, "no");
    assert_eq!(snaps[1].bids[0].price, "0.55");
    assert_eq!(snaps[1].asks[0].price, "0.60");
    assert_eq!(snaps[1].asks[1].price, "0.65");
}

#[test]
fn empty_order_book() {
    let snaps = transform_orderbook(&KalshiOrderbook { yes: None, no: None });
    assert_eq!(snaps.len(), 2);
    assert!(snaps[0].bids.is_empty() && snaps[0].asks.is_empty());
}

fn value_of(t: &[KeyValue], key: &str) -> String {
    t.iter().rev().find(|kv| kv.key == key).map(|kv| kv.value.clone()).unwrap()
}

#[test]
fn market_in_protocol_form() {
    let km = KalshiMarket {
        ticker: "KXBTC-100K".to_string(),
        event_ticker: "KXBTC".to_string(),
        market_type: None,
        title: "Bitcoin above 100k?".to_string(),
        subtitle: None,
        yes_sub_title: Some("Above".to_string()),
        no_sub_title: None,
        open_time: Some("2024-01-01T00:00:00Z".to_string()),
        close_time: None,
        expiration_time: Some("not a time".to_string()),
        status: "open".to_string(),
        result: None,
        yes_bid: Some(40),
        yes_ask: Some(45),
        no_bid: Some(55),
        no_ask: Some(60),
        last_price: Some(42),
        volume: Some(1234),
        volume_24h: None,
        open_interest: Some(7),
        can_close_early: None,
        category: None,
    };
    let m = transform_market(&km);
    assert_eq!(m.id.provider, "kalshi.com");
    assert_eq!(m.id.native_id, "KXBTC-100K");
    assert_eq!(m.event.category, "general");
    assert_eq!(m.outcomes[0].label, "Above");
    assert_eq!(m.outcomes[1].label, "No");
    assert_eq!(value_of(&m.pricing.last_price, "yes"), "0.42");
    assert_eq!(value_of(&m.pricing.last_price, "no"), "0.58");
    assert_eq!(value_of(&m.pricing.mid_price, "yes"), "0.42");
    assert_eq!(value_of(&m.pricing.mid_price, "no"), "0.57");
    assert_eq!(value_of(&m.pricing.spread, "yes"), "0.05");
    assert_eq!(m.volume.total_volume, "1234");
    assert_eq!(m.volume.volume_24h, "0");
    assert_eq!(m.volume.open_interest, "7");
    assert!(matches!(m.lifecycle.status, MarketStatus::Open));
    assert_eq!(m.lifecycle.opens_at, Some(1_704_067_200_000));
    assert_eq!(m.lifecycle.closes_at, None);
    assert_eq!(m.lifecycle.expires_at, None);
    assert_eq!(value_of(&m.provider_metadata, "kalshi_ticker"), "KXBTC-100K");
}

#[test]
fn kalshi_price_normalisation() {
    assert_eq!(upp_gateway::kalshi::normalize_price("65"), Ok("0.65".to_string()));
    assert_eq!(upp_gateway::kalshi::normalize_price("+7"), Ok("0.07".to_string()));
    assert_eq!(upp_gateway::kalshi::normalize_price("6.5"), Err("Invalid Kalshi price".to_string()));
    assert_eq!(upp_gateway::kalshi::normalize_price("99999999999999999999"), Err("Invalid Kalshi price".to_string()));
    assert_eq!(upp_gateway::kalshi::normalize_price("0"), Ok("0.00".to_string()));
    assert_eq!(upp_gateway::kalshi::normalize_price("100"), Ok("1.00".to_string()));
    assert_eq!(
        upp_gateway::kalshi::normalize_price("150"),
        Err("Kalshi price out of range [0, 100]: 150".to_string())
    );
    assert_eq!(
        upp_gateway::kalshi::normalize_price("-1"),
        Err("Kalshi price out of range [0, 100]: -1".to_string())
    );
    assert_eq!(upp_gateway::kalshi::denormalize_price("0.65"), Ok("65".to_string()));
    assert_eq!(upp_gateway::kalshi::denormalize_price("x"), Err("Invalid decimal price".to_string()));
}

#[test]
fn kalshi_manifest_depends_on_credentials() {
    let public = upp_gateway::kalshi::manifest(false);
    assert_eq!(public.provider.provider_type, "regulated_exchange_readonly");
    assert_eq!(public.capabilities.len(), 1);
    assert_eq!(public.capabilities[0].operations.len(), 4);
    assert_eq!(public.authentication, vec!["none_public".to_string()]);
    let authed = upp_gateway::kalshi::manifest(true);
    assert_eq!(authed.capabilities.len(), 3);
    assert_eq!(authed.capabilities[1].name, "trading");
    assert_eq!(authed.rate_limits.unwrap().requests_per_minute, 100);
}

#[test]
fn cents_survive_a_round_trip() {
    for c in [-250i64, -1, 0, 1, 42, 65, 99, 100, 12_345] {
        assert_eq!(upp_to_cents(&cents_to_upp(c)), Ok(c));
    }
}
