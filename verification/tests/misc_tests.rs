use upp_gateway::cli::{format_side, format_status, Config};
use upp_gateway::config::{default_cors_origins, default_environment, default_graceful_shutdown_timeout_secs, default_port};
use upp_gateway::decimal::{format_micros, parse_price_micros};
use upp_gateway::mcp::generate_agent_card;

#[test]
fn prices_parse_to_micros() {
    assert_eq!(parse_price_micros("0.65"), Some(650_000));
    assert_eq!(parse_price_micros("-1.5"), Some(-1_500_000));
    assert_eq!(parse_price_micros("0.1234567"), Some(123_456));
    assert_eq!(parse_price_micros("abc"), None);
    assert_eq!(parse_price_micros(""), None);
}

#[test]
fn micros_render_with_rounding() {
    assert_eq!(format_micros(650_000, 4), "0.6500");
    assert_eq!(format_micros(123_456, 4), "0.1235");
    assert_eq!(format_micros(-20_000, 2), "-0.02");
    assert_eq!(format_micros(1_500_000, 0), "2");
    assert_eq!(format_micros(3_333_333, 2), "3.33");
}

#[test]
fn config_overrides_and_trims() {
    let c = Config::default();
    assert_eq!(c.gateway_url, "http://localhost:9090");
    let c = c.with_url(Some("https://gw.example.com//".to_string())).with_api_key(Some("k".to_string()));
    assert_eq!(c.gateway_url(), "https://gw.example.com");
    assert_eq!(c.api_key, Some("k".to_string()));
    let c = c.with_url(None).with_api_key(None);
    assert_eq!(c.api_key, Some("k".to_string()));
}

#[test]
fn statuses_and_sides_keep_their_text() {
    assert!(format_status("open").contains("open"));
    assert!(format_status("cancelled").contains("cancelled"));
    assert_eq!(format_status("weird"), "weird");
    assert!(format_side("buy").contains("buy"));
    assert_eq!(format_side("hold"), "hold");
}

#[test]
fn agent_card_describes_the_gateway() {
    let card = generate_agent_card("https://gw.example.com");
    assert_eq!(card.name, "UPP Gateway");
    assert_eq!(card.url, "https://gw.example.com");
    assert_eq!(card.capabilities.len(), 5);
    assert_eq!(card.authentication[1].auth_type, "api_key");
    assert_eq!(card.skills.len(), 4);
    assert_eq!(card.skills[3].id, "market-analysis");
}

#[test]
fn configuration_defaults() {
    assert_eq!(default_environment(), "dev");
    assert_eq!(default_port(), 9090);
    assert_eq!(default_graceful_shutdown_timeout_secs(), 30);
    assert_eq!(default_cors_origins(), vec!["*".to_string()]);
}
