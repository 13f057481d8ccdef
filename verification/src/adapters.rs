//! Records exchanged with provider adapters: order books, manifests,
//! filters, order requests and health reports.
use vstd::prelude::*;
use crate::text::texts;
use crate::types::{MarketStatus, MarketType, OrderStatus, OrderType, PaginationRequest, Side, TimeInForce};

verus! {

/// One price level of an order book; the price is a decimal string.
#[derive(Debug, Clone)]
pub struct OrderBookLevel {
    pub price: String,
    pub quantity: i64,
}

/// Provider capability manifest.
#[derive(Debug, Clone)]
pub struct ProviderManifest {
    pub upp_version: String,
    pub provider: ProviderInfo,
    pub capabilities: Vec<CapabilityDeclaration>,
    pub transport: TransportInfo,
    pub authentication: Vec<String>,
    pub rate_limits: Option<RateLimitInfo>,
}

#[derive(Debug, Clone)]
pub struct ProviderInfo {
    pub name: String,
    pub id: String,
    pub provider_type: String,
    pub jurisdictions: Vec<String>,
}

#[derive(Debug, Clone)]
pub struct CapabilityDeclaration {
    pub name: String,
    pub version: String,
    pub operations: Vec<String>,
    pub extensions: Vec<String>,
}

#[derive(Debug, Clone)]
pub struct TransportInfo {
    pub rest_base_url: Option<String>,
    pub websocket_url: Option<String>,
    pub grpc_endpoint: Option<String>,
}

#[derive(Debug, Clone)]
pub struct RateLimitInfo {
    pub requests_per_second: i32,
    pub requests_per_minute: i32,
    pub tier: String,
}

/// An account balance held at a provider.
#[derive(Debug, Clone)]
pub struct Balance {
    pub provider: String,
    pub instrument_type: String,
    pub available: String,
    pub reserved: String,
    pub total: String,
    pub currency: String,
}

/// Market listing filter.
#[derive(Debug, Clone, Default)]
pub struct MarketFilter {
    pub provider: Option<String>,
    pub category: Option<String>,
    pub status: Option<MarketStatus>,
    pub market_type: Option<MarketType>,
    pub tags: Vec<String>,
    pub sort_by: Option<String>,
    pub pagination: PaginationRequest,
}

/// Order book snapshot for one outcome.
#[derive(Debug, Clone)]
pub struct OrderBookSnapshot {
    pub outcome_id: String,
    pub bids: Vec<OrderBookLevel>,
    pub asks: Vec<OrderBookLevel>,
    pub asks_computed: bool,
}

/// Order creation request sent to a provider.
#[derive(Debug, Clone)]
pub struct CreateOrderRequest {
    pub market_native_id: String,
    pub outcome_id: String,
    pub side: Side,
    pub order_type: OrderType,
    pub tif: TimeInForce,
    pub price: Option<String>,
    pub quantity: i64,
    pub client_order_id: Option<String>,
}

/// Order listing filter.
#[derive(Debug, Clone, Default)]
pub struct OrderFilter {
    pub market_id: Option<String>,
    pub status: Option<OrderStatus>,
    pub side: Option<Side>,
    pub pagination: PaginationRequest,
}

/// Trade listing filter.
#[derive(Debug, Clone, Default)]
pub struct TradeFilter {
    pub market_id: Option<String>,
    pub order_id: Option<String>,
    pub pagination: PaginationRequest,
}

/// Provider health status.
#[derive(Debug, Clone)]
pub struct ProviderHealth {
    pub provider: String,
    pub healthy: bool,
    pub status: String,
    pub latency_ms: u64,
}


// ─── Manifests ──────────────────────────────────────────────

/// A capability as name, version, operations and extensions.
pub open spec fn capability_view(c: CapabilityDeclaration) -> (Seq<char>, Seq<char>, Seq<Seq<char>>, Seq<Seq<char>>) {
    (c.name@, c.version@, texts(c.operations@), texts(c.extensions@))
}

/// The capabilities of a manifest, in order.
pub open spec fn capabilities_view(m: ProviderManifest) -> Seq<(Seq<char>, Seq<char>, Seq<Seq<char>>, Seq<Seq<char>>)> {
    m.capabilities@.map_values(|c: CapabilityDeclaration| capability_view(c))
}

/// Literal texts as character sequences.
pub open spec fn str_views(items: Seq<&str>) -> Seq<Seq<char>> {
    items.map_values(|t: &str| t@)
}

/// Owned copies of some texts, in order.
pub fn owned_strings(items: Vec<&str>) -> (r: Vec<String>)
    ensures
        texts(r@) == str_views(items@),
{
    let mut r: Vec<String> = Vec::new();
    let mut i: usize = 0;
    while i < items.len()
        invariant
            i <= items@.len(),
            texts(r@) == str_views(items@.take(i as int)),
        decreases items@.len() - i,
    {
        let ghost before = texts(r@);
        r.push(items[i].to_string());
        assert(texts(r@) =~= before.push(items@[i as int]@));
        assert(str_views(items@.take(i as int + 1)) =~= str_views(items@.take(i as int)).push(items@[i as int]@));
        i = i + 1;
    }
    assert(items@.take(items@.len() as int) =~= items@);
    r
}

/// A capability at protocol version 2026-03-11.
pub fn capability(name: &str, operations: Vec<&str>, extensions: Vec<&str>) -> (c: CapabilityDeclaration)
    ensures
        capability_view(c) == (name@, "2026-03-11"@, str_views(operations@), str_views(extensions@)),
{
    CapabilityDeclaration {
        name: name.to_string(),
        version: "2026-03-11".to_string(),
        operations: owned_strings(operations),
        extensions: owned_strings(extensions),
    }
}

} // verus!
