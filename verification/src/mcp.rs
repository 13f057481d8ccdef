//! The agent card: how the gateway describes itself to other AI agents,
//! and the market analysis offered to them as a tool.
use vstd::prelude::*;
use crate::adapters::OrderBookSnapshot;
use crate::decimal::{decimal_micros, format_micros, lemma_decimal_micros_bounded, parse_price_micros};
use crate::kalshi::int_text;
use crate::types::{Market, MarketStatus, Outcome};

verus! {

/// How a client authenticates.
#[derive(Debug, Clone)]
pub struct AuthMethod {
    pub auth_type: String,
    pub description: String,
}

/// A capability offered to agents, with example requests.
#[derive(Debug, Clone)]
pub struct Skill {
    pub id: String,
    pub name: String,
    pub description: String,
    pub examples: Vec<String>,
}

/// The gateway's self-description for agent-to-agent discovery.
#[derive(Debug, Clone)]
pub struct AgentCard {
    pub name: String,
    pub description: String,
    pub url: String,
    pub version: String,
    pub capabilities: Vec<String>,
    pub authentication: Vec<AuthMethod>,
    pub default_input_modes: Vec<String>,
    pub default_output_modes: Vec<String>,
    pub skills: Vec<Skill>,
}

/// The texts of some strings.
pub open spec fn string_texts(v: Seq<String>) -> Seq<Seq<char>> {
    v.map_values(|s: String| s@)
}

/// What the gateway says it is.
pub open spec fn card_description() -> Seq<char> {
    "Universal Prediction Protocol Gateway. High-performance gateway providing unified access to prediction markets across Kalshi, Polymarket, and Opinion providers. Enables AI agents and LLMs to search markets, analyze predictions, view portfolio positions, and execute trades with a single API."@
}

/// The capabilities the gateway advertises.
pub open spec fn card_capabilities() -> Seq<Seq<char>> {
    seq!["market-research"@, "trading"@, "portfolio-management"@, "market-analysis"@, "real-time-prices"@]
}

/// The content types the gateway reads and writes.
pub open spec fn card_modes() -> Seq<Seq<char>> {
    seq!["text/plain"@, "application/json"@]
}

/// Authentication methods as (type, description).
pub open spec fn card_auth() -> Seq<(Seq<char>, Seq<char>)> {
    seq![("none"@, "Public endpoints (search, list, get markets) - no auth required"@), ("api_key"@, "Protected endpoints (trading, portfolio) - API key required"@)]
}

/// Skills as (id, name, description, examples).
pub open spec fn card_skills() -> Seq<(Seq<char>, Seq<char>, Seq<char>, Seq<Seq<char>>)> {
    seq![
        ("market-research"@, "Market Research"@, "Search and browse prediction markets, get detailed market information, analyze orderbooks and pricing."@, seq!["Find markets about Bitcoin price in 2026"@, "List all open markets on Polymarket"@, "Get the current orderbook for a specific market"@]),
        ("trading"@, "Trading"@, "Place buy/sell orders, estimate trade costs, cancel orders. Supports market and limit orders."@, seq!["Place a buy order for 100 shares at 0.65 price"@, "Estimate the cost of buying 50 shares of an outcome"@, "Cancel my open orders"@]),
        ("portfolio-management"@, "Portfolio Management"@, "View positions, check P&L, monitor portfolio risk and balances across all markets."@, seq!["Show my current positions and P&L"@, "What's my portfolio summary?"@, "List my open positions by market"@]),
        ("market-analysis"@, "Market Analysis"@, "Get comprehensive market analysis including implied probabilities, volume metrics, and AI-friendly market summaries."@, seq!["Analyze this market for me"@, "What are the implied probabilities?"@, "Is there high volume on this market?"@]),
    ]
}

/// The agent card of a gateway reachable at `gateway_url`.
pub fn generate_agent_card(gateway_url: &str) -> (card: AgentCard)
    ensures
        card.name@ == "UPP Gateway"@,
        card.description@ == card_description(),
        card.url@ == gateway_url@,
        card.version@ == "2026-03-11"@,
        string_texts(card.capabilities@) == card_capabilities(),
        card.authentication@.map_values(|a: AuthMethod| (a.auth_type@, a.description@)) == card_auth(),
        string_texts(card.default_input_modes@) == card_modes(),
        string_texts(card.default_output_modes@) == card_modes(),
        card.skills@.map_values(
            |s: Skill| (s.id@, s.name@, s.description@, string_texts(s.examples@)),
        ) == card_skills(),
{
    let capabilities = vec!["market-research".to_string(), "trading".to_string(), "portfolio-management".to_string(), "market-analysis".to_string(), "real-time-prices".to_string()];
    let authentication = vec![
        AuthMethod { auth_type: "none".to_string(), description: "Public endpoints (search, list, get markets) - no auth required".to_string() },
        AuthMethod { auth_type: "api_key".to_string(), description: "Protected endpoints (trading, portfolio) - API key required".to_string() },
    ];
    let skills = vec![
        Skill {
            id: "market-research".to_string(),
            name: "Market Research".to_string(),
            description: "Search and browse prediction markets, get detailed market information, analyze orderbooks and pricing.".to_string(),
            examples: vec!["Find markets about Bitcoin price in 2026".to_string(), "List all open markets on Polymarket".to_string(), "Get the current orderbook for a specific market".to_string()],
        },
        Skill {
            id: "trading".to_string(),
            name: "Trading".to_string(),
            description: "Place buy/sell orders, estimate trade costs, cancel orders. Supports market and limit orders.".to_string(),
            examples: vec!["Place a buy order for 100 shares at 0.65 price".to_string(), "Estimate the cost of buying 50 shares of an outcome".to_string(), "Cancel my open orders".to_string()],
        },
        Skill {
            id: "portfolio-management".to_string(),
            name: "Portfolio Management".to_string(),
            description: "View positions, check P&L, monitor portfolio risk and balances across all markets.".to_string(),
            examples: vec!["Show my current positions and P&L".to_string(), "What's my portfolio summary?".to_string(), "List my open positions by market".to_string()],
        },
        Skill {
            id: "market-analysis".to_string(),
            name: "Market Analysis".to_string(),
            description: "Get comprehensive market analysis including implied probabilities, volume metrics, and AI-friendly market summaries.".to_string(),
            examples: vec!["Analyze this market for me".to_string(), "What are the implied probabilities?".to_string(), "Is there high volume on this market?".to_string()],
        },
    ];
    let card = AgentCard {
        name: "UPP Gateway".to_string(),
        description: "Universal Prediction Protocol Gateway. High-performance gateway providing unified access to prediction markets across Kalshi, Polymarket, and Opinion providers. Enables AI agents and LLMs to search markets, analyze predictions, view portfolio positions, and execute trades with a single API.".to_string(),
        url: gateway_url.to_string(),
        version: "2026-03-11".to_string(),
        capabilities,
        authentication,
        default_input_modes: vec!["text/plain".to_string(), "application/json".to_string()],
        default_output_modes: vec!["text/plain".to_string(), "application/json".to_string()],
        skills,
    };
    assert(string_texts(card.capabilities@) =~= card_capabilities());
    assert(card.authentication@.map_values(|a: AuthMethod| (a.auth_type@, a.description@)) =~= card_auth());
    assert(string_texts(card.default_input_modes@) =~= card_modes());
    assert(string_texts(card.default_output_modes@) =~= card_modes());
    assert(string_texts(card.skills@[0].examples@) =~= seq!["Find markets about Bitcoin price in 2026"@, "List all open markets on Polymarket"@, "Get the current orderbook for a specific market"@]);
    assert(string_texts(card.skills@[1].examples@) =~= seq!["Place a buy order for 100 shares at 0.65 price"@, "Estimate the cost of buying 50 shares of an outcome"@, "Cancel my open orders"@]);
    assert(string_texts(card.skills@[2].examples@) =~= seq!["Show my current positions and P&L"@, "What's my portfolio summary?"@, "List my open positions by market"@]);
    assert(string_texts(card.skills@[3].examples@) =~= seq!["Analyze this market for me"@, "What are the implied probabilities?"@, "Is there high volume on this market?"@]);
    assert(card.skills@.map_values(
        |s: Skill| (s.id@, s.name@, s.description@, string_texts(s.examples@)),
    ) =~= card_skills());
    card
}


// ─── Market analysis ────────────────────────────────────────

/// The name of a status as `{:?}` writes it.
pub open spec fn status_name(s: MarketStatus) -> Seq<char> {
    match s {
        MarketStatus::Pending => "Pending"@,
        MarketStatus::Open => "Open"@,
        MarketStatus::Halted => "Halted"@,
        MarketStatus::Closed => "Closed"@,
        MarketStatus::Resolved => "Resolved"@,
        MarketStatus::Disputed => "Disputed"@,
        MarketStatus::Voided => "Voided"@,
    }
}

fn status_string(s: &MarketStatus) -> (r: String)
    ensures
        r@ == status_name(*s),
{
    match s {
        MarketStatus::Pending => "Pending".to_string(),
        MarketStatus::Open => "Open".to_string(),
        MarketStatus::Halted => "Halted".to_string(),
        MarketStatus::Closed => "Closed".to_string(),
        MarketStatus::Resolved => "Resolved".to_string(),
        MarketStatus::Disputed => "Disputed".to_string(),
        MarketStatus::Voided => "Voided".to_string(),
    }
}

/// The one-line description of a market given to agents.
pub open spec fn summary_text(m: Market) -> Seq<char> {
    "Market: "@ + m.event.title@ + ". Question: "@ + m.event.description@ + ". "@ + int_text(
        m.outcomes@.len() as int,
    ) + " possible outcomes. Total volume: $"@ + m.volume.total_volume@ + ". Status: "@ + status_name(
        m.lifecycle.status,
    )
}

/// The one-line description of a market given to agents.
pub fn market_summary(m: &Market) -> (s: String)
    ensures
        s@ == summary_text(*m),
{
    proof {
        reveal_strlit("Market: ");
        reveal_strlit(". Question: ");
        reveal_strlit(". ");
        reveal_strlit(" possible outcomes. Total volume: $");
        reveal_strlit(". Status: ");
    }
    let mut s = "Market: ".to_string();
    s.append(m.event.title.as_str());
    s.append(". Question: ");
    s.append(m.event.description.as_str());
    s.append(". ");
    let n = format_micros((m.outcomes.len() as i128) * 1_000_000, 0);
    s.append(n.as_str());
    s.append(" possible outcomes. Total volume: $");
    s.append(m.volume.total_volume.as_str());
    s.append(". Status: ");
    let st = status_string(&m.lifecycle.status);
    s.append(st.as_str());
    s
}

/// The label of the first outcome with this id, or the id itself.
pub open spec fn label_for(outcomes: Seq<Outcome>, id: Seq<char>) -> Seq<char>
    decreases outcomes.len(),
{
    if outcomes.len() == 0 {
        id
    } else if outcomes[0].id@ == id {
        outcomes[0].label@
    } else {
        label_for(outcomes.drop_first(), id)
    }
}

/// A price text in millionths, one half when it is no price.
pub open spec fn price_or_half(p: Seq<char>) -> int {
    match decimal_micros(p) {
        Some(v) => v,
        None => 500_000,
    }
}

/// Half of a sum, a half rounding away from zero.
pub open spec fn halve(v: int) -> int {
    if v >= 0 { (v + 1) / 2 } else { -((-v + 1) / 2) }
}

/// Implied probability of each outcome whose book has both sides: the
/// midpoint of the first bid and the first ask, keyed by outcome label,
/// in book order (a later entry for the same label overrides).
pub open spec fn implied_table(outcomes: Seq<Outcome>, books: Seq<OrderBookSnapshot>) -> Seq<(Seq<char>, int)>
    decreases books.len(),
{
    if books.len() == 0 {
        Seq::empty()
    } else {
        let b = books.last();
        implied_table(outcomes, books.drop_last()) + if b.bids@.len() > 0 && b.asks@.len() > 0 {
            seq![
                (
                    label_for(outcomes, b.outcome_id@),
                    halve(price_or_half(b.bids@[0].price@) + price_or_half(b.asks@[0].price@)),
                ),
            ]
        } else {
            Seq::empty()
        }
    }
}

fn find_label(outcomes: &Vec<Outcome>, id: &String) -> (r: String)
    ensures
        r@ == label_for(outcomes@, id@),
{
    let mut i: usize = 0;
    assert(outcomes@.skip(0) =~= outcomes@);
    while i < outcomes.len()
        invariant
            i <= outcomes@.len(),
            label_for(outcomes@.skip(i as int), id@) == label_for(outcomes@, id@),
        decreases outcomes@.len() - i,
    {
        assert(outcomes@.skip(i as int).drop_first() =~= outcomes@.skip(i as int + 1));
        if crate::text::str_eq(outcomes[i].id.as_str(), id.as_str()) {
            return outcomes[i].label.clone();
        }
        i = i + 1;
    }
    id.clone()
}

fn price_micros_or_half(p: &String) -> (r: i64)
    ensures
        r == price_or_half(p@),
        -crate::decimal::MAX_PRICE_MICROS <= r <= crate::decimal::MAX_PRICE_MICROS,
{
    proof {
        lemma_decimal_micros_bounded(p@);
    }
    match parse_price_micros(p.as_str()) {
        Some(v) => v,
        None => 500_000,
    }
}

/// Implied probabilities, in millionths, of the outcomes of a market from
/// its order books.
pub fn implied_probabilities(market: &Market, books: &Vec<OrderBookSnapshot>) -> (r: Vec<(String, i64)>)
    ensures
        r@.map_values(|e: (String, i64)| (e.0@, e.1 as int)) == implied_table(market.outcomes@, books@),
{
    let mut r: Vec<(String, i64)> = Vec::new();
    let mut i: usize = 0;
    assert(books@.take(0) =~= Seq::<OrderBookSnapshot>::empty());
    assert(r@.map_values(|e: (String, i64)| (e.0@, e.1 as int)) =~= Seq::<(Seq<char>, int)>::empty());
    while i < books.len()
        invariant
            i <= books@.len(),
            r@.map_values(|e: (String, i64)| (e.0@, e.1 as int)) == implied_table(market.outcomes@, books@.take(i as int)),
        decreases books@.len() - i,
    {
        let b = &books[i];
        let ghost before = r@.map_values(|e: (String, i64)| (e.0@, e.1 as int));
        assert(books@.take(i as int + 1).drop_last() =~= books@.take(i as int));
        if b.bids.len() > 0 && b.asks.len() > 0 {
            let label = find_label(&market.outcomes, &b.outcome_id);
            let sum: i64 = price_micros_or_half(&b.bids[0].price) + price_micros_or_half(&b.asks[0].price);
            let mid: i64 = if sum >= 0 { (sum + 1) / 2 } else { -((-sum + 1) / 2) };
            r.push((label, mid));
            assert(r@.map_values(|e: (String, i64)| (e.0@, e.1 as int)) =~= implied_table(market.outcomes@, books@.take(i as int + 1)));
        } else {
            assert(r@.map_values(|e: (String, i64)| (e.0@, e.1 as int)) =~= implied_table(market.outcomes@, books@.take(i as int + 1)));
        }
        i = i + 1;
    }
    assert(books@.take(books@.len() as int) =~= books@);
    r
}

} // verus!
