//! Request-side helpers of the HTTP and WebSocket surface: market-id
//! resolution, query-string enums, request bodies and client tiers.
use vstd::prelude::*;
use crate::text::{find_char_from, has_prefix, lacks_char, lowercase, starts_with, str_eq, substring, to_lowercase, to_uppercase, uppercase};
use crate::types::{MarketStatus, MarketType, OrderType, Side, TimeInForce};

verus! {

/// The identifier with a leading `upp:` removed, if it has one.
pub open spec fn without_upp_scheme(id: Seq<char>) -> Seq<char> {
    if has_prefix(id, seq!['u', 'p', 'p', ':']) {
        id.subrange(4, id.len() as int)
    } else {
        id
    }
}

/// The provider a bare native identifier (one without a colon) belongs to.
pub open spec fn default_provider_for(native: Seq<char>) -> Seq<char> {
    if has_prefix(native, seq!['0', 'x']) {
        "polymarket.com"@
    } else {
        "kalshi.com"@
    }
}

/// Split a market identifier into `(provider, native_id)`. A leading `upp:`
/// is dropped; then the part before the first colon is the provider. An id
/// without a colon is a Polymarket id when it starts with `0x` and a Kalshi
/// id otherwise.
pub fn parse_market_id(id: &str) -> (r: (String, String))
    ensures
        ({
            let rest = without_upp_scheme(id@);
            if lacks_char(rest, ':') {
                r.0@ == default_provider_for(rest) && r.1@ == rest
            } else {
                exists|c: int|
                    0 <= c < rest.len() && rest[c] == ':' && lacks_char(rest.subrange(0, c), ':')
                        && r.0@ == rest.subrange(0, c) && r.1@ == rest.subrange(c + 1, rest.len() as int)
            }
        }),
{
    proof {
        reveal_strlit("upp:");
        assert("upp:"@ =~= seq!['u', 'p', 'p', ':']);
    }
    let rest_owned: String = if starts_with(id, "upp:") {
        proof { reveal_strlit("upp:"); }
        substring(id, 4, id.unicode_len())
    } else {
        proof { reveal_strlit("upp:"); }
        String::from_str(id)
    };
    let rest = rest_owned.as_str();
    assert(rest@ == without_upp_scheme(id@));
    let n = rest.unicode_len();
    match find_char_from(rest, ':', 0) {
        Some(c) => {
            assert(rest@.subrange(0, n as int) =~= rest@);
            (substring(rest, 0, c), substring(rest, c + 1, n))
        },
        None => {
            assert(rest@.subrange(0, n as int) =~= rest@);
            proof {
                reveal_strlit("0x");
                assert("0x"@ =~= seq!['0', 'x']);
            }
            let provider = if starts_with(rest, "0x") {
                proof { reveal_strlit("0x"); reveal_strlit("polymarket.com"); }
                String::from_str("polymarket.com")
            } else {
                proof { reveal_strlit("0x"); reveal_strlit("kalshi.com"); }
                String::from_str("kalshi.com")
            };
            (provider, String::from_str(rest))
        },
    }
}

/// Market status named by an already lower-cased query value; anything
/// unknown reads as `Open`.
pub open spec fn status_named(lower: Seq<char>) -> MarketStatus {
    if lower == "open"@ || lower == "active"@ {
        MarketStatus::Open
    } else if lower == "closed"@ {
        MarketStatus::Closed
    } else if lower == "resolved"@ || lower == "settled"@ {
        MarketStatus::Resolved
    } else if lower == "halted"@ {
        MarketStatus::Halted
    } else if lower == "pending"@ {
        MarketStatus::Pending
    } else if lower == "voided"@ {
        MarketStatus::Voided
    } else {
        MarketStatus::Open
    }
}

/// Market status of a lower-cased query value.
pub fn status_from_lowercase(lower: &str) -> (r: MarketStatus)
    ensures
        r == status_named(lower@),
{
    if str_eq(lower, "open") || str_eq(lower, "active") {
        MarketStatus::Open
    } else if str_eq(lower, "closed") {
        MarketStatus::Closed
    } else if str_eq(lower, "resolved") || str_eq(lower, "settled") {
        MarketStatus::Resolved
    } else if str_eq(lower, "halted") {
        MarketStatus::Halted
    } else if str_eq(lower, "pending") {
        MarketStatus::Pending
    } else if str_eq(lower, "voided") {
        MarketStatus::Voided
    } else {
        MarketStatus::Open
    }
}

/// Market status of a query value, compared case-insensitively.
pub fn parse_status(s: &str) -> (r: MarketStatus)
    ensures
        r == status_named(lowercase(s@)),
{
    let lower = to_lowercase(s);
    status_from_lowercase(lower.as_str())
}

/// Market type named by an already lower-cased query value; anything
/// unknown reads as `Binary`.
pub open spec fn market_type_named(lower: Seq<char>) -> MarketType {
    if lower == "categorical"@ {
        MarketType::Categorical
    } else if lower == "scalar"@ {
        MarketType::Scalar
    } else {
        MarketType::Binary
    }
}

/// Market type of a lower-cased query value.
pub fn market_type_from_lowercase(lower: &str) -> (r: MarketType)
    ensures
        r == market_type_named(lower@),
{
    proof {
        reveal_strlit("categorical");
        reveal_strlit("scalar");
    }
    if str_eq(lower, "categorical") {
        MarketType::Categorical
    } else if str_eq(lower, "scalar") {
        MarketType::Scalar
    } else {
        MarketType::Binary
    }
}

/// Market type of a query value, compared case-insensitively.
pub fn parse_market_type(s: &str) -> (r: MarketType)
    ensures
        r == market_type_named(lowercase(s@)),
{
    let lower = to_lowercase(s);
    market_type_from_lowercase(lower.as_str())
}

/// Order side named by a lower-cased value.
pub open spec fn side_named(lower: Seq<char>) -> Option<Side> {
    if lower == "buy"@ {
        Some(Side::Buy)
    } else if lower == "sell"@ {
        Some(Side::Sell)
    } else {
        None
    }
}

/// Order side of a lower-cased value; `None` for anything but `buy` and `sell`.
pub fn side_from_lowercase(lower: &str) -> (r: Option<Side>)
    ensures
        r == side_named(lower@),
{
    if str_eq(lower, "buy") {
        Some(Side::Buy)
    } else if str_eq(lower, "sell") {
        Some(Side::Sell)
    } else {
        None
    }
}

/// Order side of a request value, compared case-insensitively.
pub fn parse_side(s: &str) -> (r: Option<Side>)
    ensures
        r == side_named(lowercase(s@)),
{
    let lower = to_lowercase(s);
    side_from_lowercase(lower.as_str())
}

/// Order type named by a lower-cased value.
pub open spec fn order_type_named(lower: Seq<char>) -> Option<OrderType> {
    if lower == "limit"@ {
        Some(OrderType::Limit)
    } else if lower == "market"@ {
        Some(OrderType::Market)
    } else {
        None
    }
}

/// Order type of a lower-cased value; `None` for anything but `limit` and `market`.
pub fn order_type_from_lowercase(lower: &str) -> (r: Option<OrderType>)
    ensures
        r == order_type_named(lower@),
{
    if str_eq(lower, "limit") {
        Some(OrderType::Limit)
    } else if str_eq(lower, "market") {
        Some(OrderType::Market)
    } else {
        None
    }
}

/// Order type of a request value, compared case-insensitively.
pub fn parse_order_type(s: &str) -> (r: Option<OrderType>)
    ensures
        r == order_type_named(lowercase(s@)),
{
    let lower = to_lowercase(s);
    order_type_from_lowercase(lower.as_str())
}

/// Time in force named by an upper-cased value; anything unknown is `Gtc`.
pub open spec fn tif_named(upper: Seq<char>) -> TimeInForce {
    if upper == "FOK"@ {
        TimeInForce::Fok
    } else if upper == "IOC"@ {
        TimeInForce::Ioc
    } else if upper == "GTD"@ {
        TimeInForce::Gtd
    } else {
        TimeInForce::Gtc
    }
}

/// Time in force of an upper-cased value.
pub fn tif_from_uppercase(upper: &str) -> (r: TimeInForce)
    ensures
        r == tif_named(upper@),
{
    proof {
        reveal_strlit("FOK");
        reveal_strlit("IOC");
        reveal_strlit("GTD");
    }
    if str_eq(upper, "FOK") {
        TimeInForce::Fok
    } else if str_eq(upper, "IOC") {
        TimeInForce::Ioc
    } else if str_eq(upper, "GTD") {
        TimeInForce::Gtd
    } else {
        TimeInForce::Gtc
    }
}

/// Time in force of an optional request value, compared case-insensitively;
/// absent means `GTC`.
pub fn parse_tif(s: Option<&str>) -> (r: TimeInForce)
    ensures
        match s {
            Some(v) => r == tif_named(uppercase(v@)),
            None => r == TimeInForce::Gtc,
        },
{
    match s {
        Some(v) => {
            let upper = to_uppercase(v);
            tif_from_uppercase(upper.as_str())
        },
        None => TimeInForce::Gtc,
    }
}

/// Query parameters of `GET /markets`.
#[derive(Debug, Default)]
pub struct ListMarketsParams {
    pub provider: Option<String>,
    pub status: Option<String>,
    pub category: Option<String>,
    pub market_type: Option<String>,
    pub sort_by: Option<String>,
    pub limit: Option<i32>,
    pub cursor: Option<String>,
}

/// Query parameters of `GET /markets/search`.
#[derive(Debug)]
pub struct SearchParams {
    pub q: String,
    pub provider: Option<String>,
    pub limit: Option<i32>,
    pub cursor: Option<String>,
}

/// Query parameters of the per-provider order book.
#[derive(Debug, Default)]
pub struct OrderbookParams {
    pub outcome: Option<String>,
    pub depth: Option<i32>,
}

/// Query parameters of the merged order book.
#[derive(Debug, Default)]
pub struct MergedOrderbookParams {
    pub outcome: Option<String>,
    pub depth: Option<i32>,
}

/// Body of `POST /orders`.
#[derive(Debug)]
pub struct CreateOrderBody {
    pub provider: String,
    pub market_id: String,
    pub outcome_id: String,
    pub side: String,
    pub order_type: String,
    pub tif: Option<String>,
    pub price: Option<String>,
    pub quantity: i64,
    pub client_order_id: Option<String>,
}

/// Query parameters of the order and trade listings.
#[derive(Debug, Default)]
pub struct OrderListParams {
    pub provider: Option<String>,
    pub market_id: Option<String>,
    pub status: Option<String>,
    pub limit: Option<i32>,
    pub cursor: Option<String>,
}

/// Body of `POST /orders/cancel-all`.
#[derive(Debug)]
pub struct CancelAllBody {
    pub provider: String,
    pub market_id: Option<String>,
}

/// Body of `POST /orders/estimate`.
#[derive(Debug)]
pub struct EstimateBody {
    pub provider: String,
    pub market_id: String,
    pub outcome_id: String,
    pub side: String,
    pub price: String,
    pub quantity: i64,
}

/// Body of the routing dry run.
#[derive(Debug)]
pub struct RouteRequest {
    pub market_native_id: String,
    pub outcome_id: String,
    pub side: String,
    pub quantity: i64,
    pub strategy: Option<String>,
    pub preferred_provider: Option<String>,
}

/// Body of routed execution.
#[derive(Debug)]
pub struct ExecuteRequest {
    pub market_native_id: String,
    pub outcome_id: String,
    pub side: String,
    pub quantity: i64,
    pub order_type: Option<String>,
    pub tif: Option<String>,
    pub strategy: Option<String>,
    pub preferred_provider: Option<String>,
}

/// Query parameters of the portfolio endpoints.
#[derive(Debug, Default)]
pub struct PortfolioParams {
    pub provider: Option<String>,
}

/// Query parameters of the candle endpoint.
#[derive(Debug, Default)]
pub struct CandleParams {
    pub outcome_id: Option<String>,
    pub resolution: Option<String>,
    pub from: Option<i64>,
    pub to: Option<i64>,
    pub limit: Option<usize>,
}

/// Query parameters of the WebSocket upgrade (`?token=...`).
#[derive(Debug)]
pub struct WsQuery {
    pub token: Option<String>,
}

/// Subscription tier of an authenticated client.
#[derive(Debug, Clone, Copy, PartialEq, Eq, Structural)]
pub enum ClientTier {
    Free,
    Standard,
    Pro,
    Enterprise,
}

/// Market-subscription limit of a tier (`usize::MAX` stands for unlimited).
pub open spec fn tier_subscription_limit(tier: ClientTier) -> usize {
    match tier {
        ClientTier::Free => 5,
        ClientTier::Standard => 50,
        ClientTier::Pro => 500,
        ClientTier::Enterprise => usize::MAX,
    }
}

/// Client info used to enforce WebSocket subscription limits.
#[derive(Debug, Clone)]
pub struct WsClientContext {
    pub tier: ClientTier,
    pub max_subscriptions: usize,
}

impl WsClientContext {
    /// Create the context of a client tier.
    pub fn from_tier(tier: ClientTier) -> (r: Self)
        ensures
            r.tier == tier,
            r.max_subscriptions == tier_subscription_limit(tier),
    {
        let max_subscriptions: usize = match tier {
            ClientTier::Free => 5,
            ClientTier::Standard => 50,
            ClientTier::Pro => 500,
            ClientTier::Enterprise => usize::MAX,
        };
        WsClientContext { tier, max_subscriptions }
    }
}

} // verus!
