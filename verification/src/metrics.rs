//! Request counters of the HTTP front end.
use std::sync::atomic::AtomicU64;
use vstd::prelude::*;
use crate::observability::{metric_block, push_block};

verus! {

/// Counters shared by every request handler. Each is an atomic that any
/// handler may bump concurrently, so their values are not part of the
/// verified model.
pub struct Metrics {
    pub requests_total: AtomicU64,
    pub requests_ok: AtomicU64,
    pub requests_err: AtomicU64,
    pub requests_rate_limited: AtomicU64,
    pub ws_connections: AtomicU64,
}

impl Metrics {
    /// All counters at zero.
    pub fn new() -> Metrics {
        Metrics {
            requests_total: AtomicU64::new(0),
            requests_ok: AtomicU64::new(0),
            requests_err: AtomicU64::new(0),
            requests_rate_limited: AtomicU64::new(0),
            ws_connections: AtomicU64::new(0),
        }
    }
}

/// Gateway-wide counts read at one moment, for the metrics endpoint.
#[derive(Debug, Clone, Copy)]
pub struct GatewayMetricValues {
    pub requests_total: u64,
    pub requests_ok: u64,
    pub requests_error: u64,
    pub requests_rate_limited: u64,
    pub ws_connections: u64,
    pub ws_active_channels: u64,
    pub ws_subscribers: u64,
    pub rate_limit_tracked_clients: u64,
    pub storage_orders_total: u64,
    pub storage_trades_total: u64,
    pub arbitrage_scans_total: u64,
    pub arbitrage_active: u64,
    pub arbitrage_detected_total: u64,
    pub price_index_ticks_total: u64,
    pub price_index_markets: u64,
    pub router_routes_computed: u64,
    pub router_orders_routed: u64,
    pub live_feed_messages_total: u64,
    pub live_feed_reconnects_total: u64,
    pub live_feed_providers: u64,
    pub ingestion_ticks_total: u64,
    pub ingestion_markets_processed: u64,
    pub api_keys_total: u64,
    pub api_keys_active: u64,
}

/// Metrics part 1 of the gateway's exposition.
pub open spec fn gateway_part1(v: GatewayMetricValues) -> Seq<char> {
    metric_block("upp_requests_total"@, "Total requests received"@, "counter"@, v.requests_total as int)
        + metric_block("upp_requests_ok"@, "Successful requests"@, "counter"@, v.requests_ok as int)
        + metric_block("upp_requests_error"@, "Failed requests"@, "counter"@, v.requests_error as int)
        + metric_block("upp_requests_rate_limited"@, "Rate-limited requests"@, "counter"@, v.requests_rate_limited as int)
        + metric_block("upp_ws_connections"@, "Total WebSocket connections"@, "counter"@, v.ws_connections as int)
        + metric_block("upp_ws_active_channels"@, "Active broadcast channels"@, "gauge"@, v.ws_active_channels as int)
}

/// Metrics part 2 of the gateway's exposition.
pub open spec fn gateway_part2(v: GatewayMetricValues) -> Seq<char> {
    metric_block("upp_ws_subscribers"@, "Total WebSocket subscribers"@, "gauge"@, v.ws_subscribers as int)
        + metric_block("upp_rate_limit_tracked_clients"@, "Tracked rate limit clients"@, "gauge"@, v.rate_limit_tracked_clients as int)
        + metric_block("upp_storage_orders_total"@, "Total orders in persistent storage"@, "gauge"@, v.storage_orders_total as int)
        + metric_block("upp_storage_trades_total"@, "Total trades in persistent storage"@, "gauge"@, v.storage_trades_total as int)
        + metric_block("upp_arbitrage_scans_total"@, "Total arbitrage scans performed"@, "counter"@, v.arbitrage_scans_total as int)
        + metric_block("upp_arbitrage_active"@, "Currently active arbitrage opportunities"@, "gauge"@, v.arbitrage_active as int)
}

/// Metrics part 3 of the gateway's exposition.
pub open spec fn gateway_part3(v: GatewayMetricValues) -> Seq<char> {
    metric_block("upp_arbitrage_detected_total"@, "Total arbitrage opportunities detected"@, "counter"@, v.arbitrage_detected_total as int)
        + metric_block("upp_price_index_ticks_total"@, "Total price ticks ingested"@, "counter"@, v.price_index_ticks_total as int)
        + metric_block("upp_price_index_markets"@, "Markets tracked by price indexer"@, "gauge"@, v.price_index_markets as int)
        + metric_block("upp_router_routes_computed"@, "Total routing plans computed"@, "counter"@, v.router_routes_computed as int)
        + metric_block("upp_router_orders_routed"@, "Total orders routed via smart router"@, "counter"@, v.router_orders_routed as int)
        + metric_block("upp_live_feed_messages_total"@, "Total messages received from live feeds"@, "counter"@, v.live_feed_messages_total as int)
}

/// Metrics part 4 of the gateway's exposition.
pub open spec fn gateway_part4(v: GatewayMetricValues) -> Seq<char> {
    metric_block("upp_live_feed_reconnects_total"@, "Total provider reconnections"@, "counter"@, v.live_feed_reconnects_total as int)
        + metric_block("upp_live_feed_providers"@, "Registered live feed providers"@, "gauge"@, v.live_feed_providers as int)
        + metric_block("upp_ingestion_ticks_total"@, "Total historical ticks ingested"@, "counter"@, v.ingestion_ticks_total as int)
        + metric_block("upp_ingestion_markets_processed"@, "Markets processed by ingestion pipeline"@, "counter"@, v.ingestion_markets_processed as int)
        + metric_block("upp_api_keys_total"@, "Total API keys created"@, "gauge"@, v.api_keys_total as int)
        + metric_block("upp_api_keys_active"@, "Active (non-revoked) API keys"@, "gauge"@, v.api_keys_active as int)
}

/// The gateway's metrics in the Prometheus text format.
pub open spec fn gateway_exposition(v: GatewayMetricValues) -> Seq<char> {
    gateway_part1(v) + gateway_part2(v) + gateway_part3(v) + gateway_part4(v)
}

fn push_part1(out: &mut String, v: GatewayMetricValues)
    ensures
        final(out)@ == old(out)@ + gateway_part1(v),
{
    let ghost start = out@;
    push_block(out, "upp_requests_total", "Total requests received", "counter", v.requests_total);
    push_block(out, "upp_requests_ok", "Successful requests", "counter", v.requests_ok);
    push_block(out, "upp_requests_error", "Failed requests", "counter", v.requests_error);
    push_block(out, "upp_requests_rate_limited", "Rate-limited requests", "counter", v.requests_rate_limited);
    push_block(out, "upp_ws_connections", "Total WebSocket connections", "counter", v.ws_connections);
    push_block(out, "upp_ws_active_channels", "Active broadcast channels", "gauge", v.ws_active_channels);
    assert(out@ =~= start + gateway_part1(v));
}

fn push_part2(out: &mut String, v: GatewayMetricValues)
    ensures
        final(out)@ == old(out)@ + gateway_part2(v),
{
    let ghost start = out@;
    push_block(out, "upp_ws_subscribers", "Total WebSocket subscribers", "gauge", v.ws_subscribers);
    push_block(out, "upp_rate_limit_tracked_clients", "Tracked rate limit clients", "gauge", v.rate_limit_tracked_clients);
    push_block(out, "upp_storage_orders_total", "Total orders in persistent storage", "gauge", v.storage_orders_total);
    push_block(out, "upp_storage_trades_total", "Total trades in persistent storage", "gauge", v.storage_trades_total);
    push_block(out, "upp_arbitrage_scans_total", "Total arbitrage scans performed", "counter", v.arbitrage_scans_total);
    push_block(out, "upp_arbitrage_active", "Currently active arbitrage opportunities", "gauge", v.arbitrage_active);
    assert(out@ =~= start + gateway_part2(v));
}

fn push_part3(out: &mut String, v: GatewayMetricValues)
    ensures
        final(out)@ == old(out)@ + gateway_part3(v),
{
    let ghost start = out@;
    push_block(out, "upp_arbitrage_detected_total", "Total arbitrage opportunities detected", "counter", v.arbitrage_detected_total);
    push_block(out, "upp_price_index_ticks_total", "Total price ticks ingested", "counter", v.price_index_ticks_total);
    push_block(out, "upp_price_index_markets", "Markets tracked by price indexer", "gauge", v.price_index_markets);
    push_block(out, "upp_router_routes_computed", "Total routing plans computed", "counter", v.router_routes_computed);
    push_block(out, "upp_router_orders_routed", "Total orders routed via smart router", "counter", v.router_orders_routed);
    push_block(out, "upp_live_feed_messages_total", "Total messages received from live feeds", "counter", v.live_feed_messages_total);
    assert(out@ =~= start + gateway_part3(v));
}

fn push_part4(out: &mut String, v: GatewayMetricValues)
    ensures
        final(out)@ == old(out)@ + gateway_part4(v),
{
    let ghost start = out@;
    push_block(out, "upp_live_feed_reconnects_total", "Total provider reconnections", "counter", v.live_feed_reconnects_total);
    push_block(out, "upp_live_feed_providers", "Registered live feed providers", "gauge", v.live_feed_providers);
    push_block(out, "upp_ingestion_ticks_total", "Total historical ticks ingested", "counter", v.ingestion_ticks_total);
    push_block(out, "upp_ingestion_markets_processed", "Markets processed by ingestion pipeline", "counter", v.ingestion_markets_processed);
    push_block(out, "upp_api_keys_total", "Total API keys created", "gauge", v.api_keys_total);
    push_block(out, "upp_api_keys_active", "Active (non-revoked) API keys", "gauge", v.api_keys_active);
    assert(out@ =~= start + gateway_part4(v));
}

/// The gateway's metrics in the Prometheus text format: per count its
/// help line, its type line and its value.
pub fn gateway_metrics_text(v: GatewayMetricValues) -> (text: String)
    ensures
        text@ == gateway_exposition(v),
{
    let mut out = String::new();
    push_part1(&mut out, v);
    push_part2(&mut out, v);
    push_part3(&mut out, v);
    push_part4(&mut out, v);
    assert(out@ =~= gateway_exposition(v));
    out
}

} // verus!
