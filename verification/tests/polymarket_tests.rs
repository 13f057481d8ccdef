use upp_gateway::polymarket::{
    get_clob_token_ids, get_outcome_prices, get_outcomes, market_from_parts, parse_json_string_array,
    transform_market, GammaMarket, GammaTag,
};
use upp_gateway::types::{KeyValue, MarketStatus, MarketType};

fn gamma() -> GammaMarket {
    GammaMarket {
        condition_id: "0xabc".to_string(),
        question_id: None,
        question: "Will it rain?".to_string(),
        slug: Some("will-it-rain".to_string()),
        description: None,
        outcomes: Some("[\"Yes\",\"No\"]".to_string()),
        outcome_prices: None,
        outcome_prices_alt: Some("[\"0.65\",\"0.35\"]".to_string()),
        clob_token_ids: Some("[\"111\",\"222\"]".to_string()),
        clob_token_ids_alt: None,
        volume_micros: Some(1_234_500_000),
        volume_24hr_micros: None,
        liquidity_micros: None,
        open_interest_micros: Some(7_400_000),
        best_bid_micros: Some(640_000),
        best_ask_micros: Some(660_000),
        last_trade_price_micros: None,
        spread_micros: Some(20_000),
        active: Some(true),
        closed: Some(false),
        archived: None,
        accepting_orders: Some(true),
        end_date_iso: Some("2025-01-01T00:00:00Z".to_string()),
        start_date_iso: None,
        created_at: None,
        enable_order_book: None,
        neg_risk: Some(false),
        tick_size: None,
        min_order_size_micros: Some(5_700_000),
        image: None,
        icon: Some("icon.png".to_string()),
        group_item_title: None,
        tags: Some(vec![
            GammaTag { id: None, label: None, slug: None },
            GammaTag { id: None, label: Some("Weather".to_string()), slug: None },
        ]),
        resolution_source: None,
        uma_bond: None,
        uma_reward: None,
    }
}

fn value_of(t: &[KeyValue], key: &str) -> Option<String> {
    t.iter().rev().find(|kv| kv.key == key).map(|kv| kv.value.clone())
}

#[test]
fn json_string_arrays() {
    assert_eq!(parse_json_string_array("[\"Yes\",\"No\"]"), vec!["Yes".to_string(), "No".to_string()]);
    assert!(parse_json_string_array("not json").is_empty());
    assert!(parse_json_string_array("[1, 2]").is_empty());
}

#[test]
fn fields_read_from_either_spelling() {
    let g = gamma();
    assert_eq!(get_outcome_prices(&g), vec!["0.65".to_string(), "0.35".to_string()]);
    assert_eq!(get_clob_token_ids(&g), vec!["111".to_string(), "222".to_string()]);
    let mut g2 = gamma();
    g2.outcomes = None;
    assert_eq!(get_outcomes(&g2), vec!["Yes".to_string(), "No".to_string()]);
}

#[test]
fn polymarket_binary_market_in_protocol_form() {
    let m = transform_market(&gamma());
    assert_eq!(m.id.provider, "polymarket.com");
    assert_eq!(m.id.native_id, "0xabc");
    assert_eq!(m.event.id, "0xabc");
    assert_eq!(m.event.category, "Weather");
    assert_eq!(m.event.tags, vec!["Weather".to_string()]);
    assert_eq!(m.event.image_url, Some("icon.png".to_string()));
    assert!(matches!(m.market_type, MarketType::Binary));
    assert_eq!(m.outcomes[0].id, "yes");
    assert_eq!(m.outcomes[1].token_id, Some("222".to_string()));
    assert_eq!(value_of(&m.pricing.last_price, "yes"), Some("0.65".to_string()));
    assert_eq!(value_of(&m.pricing.mid_price, "no"), Some("0.35".to_string()));
    assert_eq!(value_of(&m.pricing.best_bid, "yes"), Some("0.6400".to_string()));
    assert_eq!(value_of(&m.pricing.best_bid, "no"), Some("0.3400".to_string()));
    assert_eq!(value_of(&m.pricing.best_ask, "no"), Some("0.3600".to_string()));
    assert_eq!(value_of(&m.pricing.spread, "no"), Some("0.0200".to_string()));
    assert_eq!(m.pricing.tick_size, "0.01");
    assert_eq!(m.pricing.min_order_size, 5);
    assert_eq!(m.volume.total_volume, "1235");
    assert_eq!(m.volume.volume_24h, "0");
    assert_eq!(m.volume.open_interest, "7");
    assert!(matches!(m.lifecycle.status, MarketStatus::Open));
    assert_eq!(m.lifecycle.closes_at, Some(1_735_689_600_000));
    assert_eq!(m.lifecycle.expires_at, Some(1_735_689_600_000));
    assert_eq!(m.lifecycle.resolution_source, Some("UMA Optimistic Oracle".to_string()));
    assert_eq!(value_of(&m.provider_metadata, "web_url"), Some("https://polymarket.com/event/will-it-rain".to_string()));
    assert_eq!(value_of(&m.provider_metadata, "neg_risk"), Some("false".to_string()));
}

#[test]
fn categorical_market_from_parts() {
    let mut g = gamma();
    g.closed = Some(true);
    g.tags = None;
    g.slug = None;
    g.neg_risk = None;
    let labels = vec!["Red".to_string(), "Green".to_string(), "Blue".to_string()];
    let prices = vec!["0.2".to_string(), "0.3".to_string()];
    let tokens = vec![];
    let m = market_from_parts(&g, &labels, &prices, &tokens, Some(5), None, 99);
    assert!(matches!(m.market_type, MarketType::Categorical));
    assert_eq!(m.outcomes.len(), 3);
    assert_eq!(m.outcomes[2].id, "blue");
    assert_eq!(m.outcomes[2].token_id, None);
    assert_eq!(m.pricing.last_price.len(), 2);
    assert_eq!(m.pricing.best_bid.len(), 1);
    assert_eq!(value_of(&m.pricing.best_bid, "red"), Some("0.6400".to_string()));
    assert!(matches!(m.lifecycle.status, MarketStatus::Closed));
    assert_eq!(m.lifecycle.created_at, 5);
    assert_eq!(m.pricing.updated_at, 99);
    assert_eq!(m.event.category, "uncategorized");
    assert_eq!(m.provider_metadata.len(), 1);
}

#[test]
fn inactive_and_paused_markets() {
    let mut g = gamma();
    g.active = Some(false);
    let m = market_from_parts(&g, &vec![], &vec![], &vec![], None, None, 7);
    assert!(matches!(m.lifecycle.status, MarketStatus::Halted));
    assert_eq!(m.lifecycle.created_at, 7);
    g.active = None;
    g.accepting_orders = Some(false);
    let m = market_from_parts(&g, &vec![], &vec![], &vec![], None, None, 7);
    assert!(matches!(m.lifecycle.status, MarketStatus::Pending));
}

#[test]
fn polymarket_price_normalisation() {
    assert_eq!(upp_gateway::polymarket::normalize_price("0.65"), Ok("0.6500".to_string()));
    assert_eq!(upp_gateway::polymarket::normalize_price("1"), Ok("1.0000".to_string()));
    assert_eq!(upp_gateway::polymarket::normalize_price("1.5"), Err("Polymarket price 1.5 out of [0,1] range".to_string()));
    assert_eq!(upp_gateway::polymarket::normalize_price("-0.25"), Err("Polymarket price -0.25 out of [0,1] range".to_string()));
    assert_eq!(upp_gateway::polymarket::normalize_price("abc"), Err("Invalid Polymarket price".to_string()));
    assert_eq!(upp_gateway::polymarket::denormalize_price("0.655"), Ok("0.66".to_string()));
    assert_eq!(upp_gateway::polymarket::denormalize_price(""), Err("Invalid UPP probability".to_string()));
}

#[test]
fn polymarket_manifest_depends_on_wallet() {
    let public = upp_gateway::polymarket::manifest(false);
    assert_eq!(public.capabilities.len(), 3);
    assert!(public.capabilities[1].operations.is_empty());
    assert_eq!(public.authentication, vec!["none".to_string()]);
    let signed = upp_gateway::polymarket::manifest(true);
    assert_eq!(signed.capabilities[1].operations.len(), 3);
    assert_eq!(signed.capabilities[0].extensions.len(), 3);
    assert!(signed.rate_limits.is_none());
}

#[test]
fn normalising_twice_changes_nothing() {
    for raw in ["0", "0.65", "0.12345", "0.99996", "1"] {
        let once = upp_gateway::polymarket::normalize_price(raw).unwrap();
        assert_eq!(upp_gateway::polymarket::normalize_price(&once), Ok(once.clone()));
    }
}

#[test]
fn search_url_percent_encodes_utf8_bytes() {
    let url = upp_gateway::polymarket::search_url("Zürich a-b_c.d~e!", 5, 0);
    assert!(url.contains("_q=Z%C3%BCrich%20a-b_c.d~e%21&limit=5"));
}
