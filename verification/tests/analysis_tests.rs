use upp_gateway::adapters::{OrderBookLevel, OrderBookSnapshot};
use upp_gateway::kalshi::{transform_market, KalshiMarket};
use upp_gateway::mcp::{implied_probabilities, market_summary};

fn market() -> upp_gateway::types::Market {
    transform_market(&KalshiMarket {
        ticker: "T".to_string(),
        event_ticker: "E".to_string(),
        market_type: None,
        title: "Rain tomorrow?".to_string(),
        subtitle: Some("In Paris".to_string()),
        yes_sub_title: Some("Rain".to_string()),
        no_sub_title: None,
        open_time: None,
        close_time: None,
        expiration_time: None,
        status: "open".to_string(),
        result: None,
        yes_bid: None,
        yes_ask: None,
        no_bid: None,
        no_ask: None,
        last_price: None,
        volume: Some(12),
        volume_24h: None,
        open_interest: None,
        can_close_early: None,
        category: None,
    })
}

fn level(p: &str) -> OrderBookLevel {
    OrderBookLevel { price: p.to_string(), quantity: 1 }
}

#[test]
fn summary_line() {
    assert_eq!(
        market_summary(&market()),
        "Market: Rain tomorrow?. Question: In Paris. 2 possible outcomes. Total volume: $12. Status: Open"
    );
}

#[test]
fn implied_probabilities_are_book_midpoints() {
    let books = vec![
        OrderBookSnapshot { outcome_id: "yes".to_string(), bids: vec![level("0.40")], asks: vec![level("0.45")], asks_computed: false },
        OrderBookSnapshot { outcome_id: "no".to_string(), bids: vec![level("0.55")], asks: vec![], asks_computed: false },
        OrderBookSnapshot { outcome_id: "other".to_string(), bids: vec![level("bad")], asks: vec![level("0.7")], asks_computed: false },
    ];
    let r = implied_probabilities(&market(), &books);
    assert_eq!(r, vec![("Rain".to_string(), 425_000), ("other".to_string(), 600_000)]);
}
