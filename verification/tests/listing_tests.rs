use upp_gateway::adapters::{MarketFilter, OrderBookLevel, OrderBookSnapshot};
use upp_gateway::listing::{book_depth, level_from_text, retain_outcome, search_page, token_targets, truncate_levels};
use upp_gateway::types::{MarketStatus, MarketType, PaginationRequest};

fn kalshi_market(title: &str, subtitle: &str, category: Option<&str>) -> upp_gateway::types::Market {
    upp_gateway::kalshi::transform_market(&upp_gateway::kalshi::KalshiMarket {
        ticker: title.to_string(),
        event_ticker: "E".to_string(),
        market_type: None,
        title: title.to_string(),
        subtitle: Some(subtitle.to_string()),
        yes_sub_title: None,
        no_sub_title: None,
        open_time: None,
        close_time: None,
        expiration_time: None,
        status: "open".to_string(),
        result: None,
        yes_bid: None,
        yes_ask: None,
        no_bid: None,
        no_ask: None,
        last_price: None,
        volume: None,
        volume_24h: None,
        open_interest: None,
        can_close_early: None,
        category: category.map(|c| c.to_string()),
    })
}

fn snapshot(id: &str) -> OrderBookSnapshot {
    OrderBookSnapshot { outcome_id: id.to_string(), bids: vec![], asks: vec![], asks_computed: false }
}

#[test]
fn client_side_search_ignores_case() {
    let markets = vec![
        kalshi_market("Bitcoin above 100k", "", None),
        kalshi_market("Rain in Paris", "weather", Some("Climate")),
        kalshi_market("Election", "who wins", Some("Politics")),
    ];
    let page = search_page(markets.clone(), "BITCOIN", false);
    assert_eq!(page.markets.len(), 1);
    assert_eq!(page.markets[0].event.title, "Bitcoin above 100k");
    assert_eq!(page.pagination.total, 1);
    assert!(!page.pagination.has_more);
    assert_eq!(search_page(markets.clone(), "politics", false).markets.len(), 0);
    assert_eq!(search_page(markets, "politics", true).markets.len(), 1);
}

#[test]
fn books_of_one_outcome() {
    let snaps = vec![snapshot("yes"), snapshot("no"), snapshot("yes")];
    assert_eq!(retain_outcome(snaps.clone(), Some("yes")).len(), 2);
    assert_eq!(retain_outcome(snaps, None).len(), 3);
}

#[test]
fn depth_and_levels() {
    assert_eq!(book_depth(0), 10);
    assert_eq!(book_depth(-3), 10);
    assert_eq!(book_depth(4), 4);
    let levels = vec![level_from_text("0.5".to_string(), "12.9"), level_from_text("0.6".to_string(), "junk")];
    assert_eq!(levels[0].quantity, 12);
    assert_eq!(levels[1].quantity, 0);
    assert_eq!(truncate_levels(levels.clone(), 1).len(), 1);
    assert_eq!(truncate_levels(levels, 5).len(), 2);
    let _ = OrderBookLevel { price: "0.1".to_string(), quantity: 1 };
}

#[test]
fn books_are_fetched_for_outcomes_with_tokens() {
    let mut m = kalshi_market("T", "", None);
    m.outcomes[0].token_id = Some("tok-yes".to_string());
    let all = token_targets(&m, None);
    assert_eq!(all, vec![("yes".to_string(), "tok-yes".to_string())]);
    assert!(token_targets(&m, Some("no")).is_empty());
}

fn filter(limit: Option<i32>, cursor: Option<&str>, status: Option<MarketStatus>, sort: Option<&str>) -> MarketFilter {
    MarketFilter {
        provider: None,
        category: None,
        status,
        market_type: None,
        tags: vec![],
        sort_by: sort.map(|s| s.to_string()),
        pagination: PaginationRequest { limit, cursor: cursor.map(|c| c.to_string()) },
    }
}

#[test]
fn kalshi_listing_urls_and_pages() {
    assert_eq!(
        upp_gateway::kalshi::markets_url(&filter(None, Some(""), None, None)),
        "https://api.elections.kalshi.com/trade-api/v2/markets?limit=20"
    );
    assert_eq!(
        upp_gateway::kalshi::markets_url(&filter(Some(5), Some("abc"), Some(MarketStatus::Resolved), None)),
        "https://api.elections.kalshi.com/trade-api/v2/markets?limit=5&cursor=abc&status=settled"
    );
    let p = upp_gateway::kalshi::markets_page(vec![], Some("next".to_string()));
    assert!(p.pagination.has_more);
    assert_eq!(p.pagination.total, -1);
    assert!(!upp_gateway::kalshi::markets_page(vec![], Some(String::new())).pagination.has_more);
}

#[test]
fn polymarket_listing_urls_and_pages() {
    assert_eq!(upp_gateway::polymarket::paging(&filter(Some(500), Some("40"), None, None)), (100, 40));
    assert_eq!(upp_gateway::polymarket::paging(&filter(None, Some("x"), None, None)), (20, 0));
    assert_eq!(
        upp_gateway::polymarket::markets_url(&filter(None, None, None, None)),
        "https://gamma-api.polymarket.com/markets?limit=20&offset=0&active=true&closed=false&order=volume24hr&ascending=false"
    );
    assert_eq!(
        upp_gateway::polymarket::markets_url(&filter(Some(10), Some("20"), Some(MarketStatus::Closed), Some("liquidity"))),
        "https://gamma-api.polymarket.com/markets?limit=10&offset=20&closed=true&order=liquidity&ascending=false"
    );
    assert_eq!(
        upp_gateway::polymarket::search_url("us election", 10, 0),
        "https://gamma-api.polymarket.com/markets?_q=us%20election&limit=10&offset=0&active=true&closed=false&order=volume24hr&ascending=false"
    );
    let full = upp_gateway::polymarket::markets_page(vec![kalshi_market("a", "", None)], 1, 40);
    assert!(full.pagination.has_more);
    assert_eq!(full.pagination.cursor, "41");
    let short = upp_gateway::polymarket::markets_page(vec![], 10, 0);
    assert!(!short.pagination.has_more);
    assert_eq!(short.pagination.cursor, "");
}

#[test]
fn opinion_listing_urls_and_pages() {
    let mut f = filter(None, None, Some(MarketStatus::Open), Some("newest"));
    f.market_type = Some(MarketType::Binary);
    assert_eq!(
        upp_gateway::opinion::markets_url(&f),
        "https://openapi.opinion.trade/openapi/market?page=1&limit=20&status=2&marketType=0&sortBy=createdAt&sortOrder=desc"
    );
    assert_eq!(upp_gateway::opinion::check_envelope(0, "ok", true), Ok(()));
    assert_eq!(upp_gateway::opinion::check_envelope(7, "bad", true), Err("Opinion API error: bad (code 7)".to_string()));
    assert_eq!(upp_gateway::opinion::check_envelope(7, "bad", false), Err("Opinion API error: bad".to_string()));
    let p = upp_gateway::opinion::markets_page(vec![], 1, 20, Some(45));
    assert!(p.pagination.has_more);
    assert_eq!(p.pagination.cursor, "2");
    assert_eq!(p.pagination.total, 45);
    let last = upp_gateway::opinion::markets_page(vec![], 3, 20, Some(45));
    assert!(!last.pagination.has_more);
}
