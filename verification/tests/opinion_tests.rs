use upp_gateway::opinion::{map_status, market_from_parts, transform_market, OpinionChildMarket, OpinionMarket};
use upp_gateway::types::{KeyValue, MarketStatus, MarketType};

fn opinion() -> OpinionMarket {
    OpinionMarket {
        market_id: 42,
        market_title: "Will BTC hit 100k?".to_string(),
        description: Some("desc".to_string()),
        market_type: None,
        status: Some(2),
        status_enum: None,
        yes_token_id: Some("t-yes".to_string()),
        no_token_id: None,
        yes_label: None,
        no_label: Some("Nope".to_string()),
        child_markets: None,
        yes_price_micros: Some(612_345),
        no_price_micros: Some(387_655),
        volume: Some("1000".to_string()),
        volume_24h: None,
        volume_7d: Some("77".to_string()),
        created_at: Some("2024-01-01T00:00:00+00:00".to_string()),
        cutoff_at: None,
        resolved_at: None,
        chain_id: Some(56),
        condition_id: Some("0xcond".to_string()),
        question_id: None,
        quote_token: None,
        result_token_id: None,
        rules: None,
        incentive_factor_micros: None,
        image: None,
        category: None,
        tags: Some(vec!["crypto".to_string()]),
    }
}

fn value_of(t: &[KeyValue], key: &str) -> Option<String> {
    t.iter().rev().find(|kv| kv.key == key).map(|kv| kv.value.clone())
}

#[test]
fn status_from_word_or_code() {
    assert!(matches!(map_status(None, &Some("ACTIVATED".to_string())), MarketStatus::Open));
    assert!(matches!(map_status(Some(3), &Some("Paused".to_string())), MarketStatus::Halted));
    assert!(matches!(map_status(None, &Some("cancelled".to_string())), MarketStatus::Voided));
    assert!(matches!(map_status(None, &Some("whatever".to_string())), MarketStatus::Open));
    assert!(matches!(map_status(None, &None), MarketStatus::Pending));
    assert!(matches!(map_status(Some(1), &None), MarketStatus::Pending));
    assert!(matches!(map_status(Some(3), &None), MarketStatus::Resolved));
    assert!(matches!(map_status(Some(4), &None), MarketStatus::Voided));
    assert!(matches!(map_status(Some(5), &None), MarketStatus::Closed));
    assert!(matches!(map_status(Some(9), &None), MarketStatus::Open));
}

#[test]
fn opinion_binary_market_in_protocol_form() {
    let m = transform_market(&opinion());
    assert_eq!(m.id.provider, "opinion.trade");
    assert_eq!(m.id.native_id, "42");
    assert_eq!(m.event.id, "42");
    assert_eq!(m.event.category, "uncategorized");
    assert_eq!(m.event.tags, vec!["crypto".to_string()]);
    assert!(matches!(m.market_type, MarketType::Binary));
    assert_eq!(m.outcomes[0].label, "Yes");
    assert_eq!(m.outcomes[0].token_id, Some("t-yes".to_string()));
    assert_eq!(m.outcomes[1].label, "Nope");
    assert_eq!(value_of(&m.pricing.last_price, "yes"), Some("0.6123".to_string()));
    assert_eq!(value_of(&m.pricing.mid_price, "no"), Some("0.3877".to_string()));
    assert!(m.pricing.best_bid.is_empty());
    assert_eq!(m.pricing.currency, "USDC");
    assert_eq!(m.volume.total_volume, "1000");
    assert_eq!(m.volume.volume_24h, "0");
    assert_eq!(m.volume.volume_7d, Some("77".to_string()));
    assert!(matches!(m.lifecycle.status, MarketStatus::Open));
    assert_eq!(m.lifecycle.created_at, 1_704_067_200_000);
    assert_eq!(m.rules.taker_fee_rate, "0.01");
    assert_eq!(m.regulatory.contract_type, "binary_option");
    assert_eq!(value_of(&m.provider_metadata, "chain"), Some("BNB Chain".to_string()));
    assert_eq!(value_of(&m.provider_metadata, "chain_id"), Some("56".to_string()));
    assert_eq!(value_of(&m.provider_metadata, "condition_id"), Some("0xcond".to_string()));
}

#[test]
fn categorical_market_with_children() {
    let mut om = opinion();
    om.market_type = Some(1);
    om.child_markets = Some(vec![
        OpinionChildMarket { market_id: Some(7), label: Some("Alice".to_string()), token_id: None, price_micros: Some(250_000), volume: None },
        OpinionChildMarket { market_id: None, label: None, token_id: Some("tk".to_string()), price_micros: None, volume: None },
    ]);
    let m = market_from_parts(&om, None, Some(10), Some(20), 3);
    assert!(matches!(m.market_type, MarketType::Categorical));
    assert_eq!(m.outcomes.len(), 2);
    assert_eq!(m.outcomes[0].id, "7");
    assert_eq!(m.outcomes[1].id, "outcome_1");
    assert_eq!(m.outcomes[1].label, "Option 2");
    assert_eq!(m.pricing.last_price.len(), 1);
    assert_eq!(value_of(&m.pricing.last_price, "7"), Some("0.2500".to_string()));
    assert_eq!(m.lifecycle.created_at, 3);
    assert_eq!(m.lifecycle.closes_at, Some(10));
    assert_eq!(m.lifecycle.resolved_at, Some(20));
    assert_eq!(m.regulatory.contract_type, "categorical");
}

#[test]
fn categorical_market_without_children() {
    let mut om = opinion();
    om.market_type = Some(1);
    let m = market_from_parts(&om, None, None, None, 0);
    assert_eq!(m.outcomes.len(), 2);
    assert_eq!(m.outcomes[0].id, "yes");
    assert_eq!(m.outcomes[0].token_id, None);
    assert!(m.pricing.last_price.is_empty());
}

#[test]
fn opinion_price_normalisation() {
    assert_eq!(upp_gateway::opinion::normalize_price("0.5"), Ok("0.5000".to_string()));
    assert_eq!(upp_gateway::opinion::normalize_price("2"), Err("Opinion price 2 out of [0,1] range".to_string()));
    assert_eq!(upp_gateway::opinion::normalize_price("?"), Err("Invalid Opinion price".to_string()));
    assert_eq!(upp_gateway::opinion::denormalize_price("0.42"), Ok("0.42".to_string()));
}

#[test]
fn opinion_manifest_needs_a_key_for_markets() {
    let without = upp_gateway::opinion::manifest(false);
    assert!(without.capabilities[0].operations.is_empty());
    assert_eq!(without.capabilities[2].name, "resolution");
    let with = upp_gateway::opinion::manifest(true);
    assert_eq!(with.capabilities[0].operations.len(), 4);
    assert_eq!(with.authentication, vec!["api_key".to_string()]);
}
