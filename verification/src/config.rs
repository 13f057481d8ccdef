//! Defaults of the gateway configuration, used for every setting that the
//! configuration files and the environment leave unset.
use vstd::prelude::*;

verus! {

/// Deployment environment: `dev`.
pub fn default_environment() -> (s: String)
    ensures
        s@ == "dev"@,
{
    "dev".to_string()
}

/// Listen address: every interface.
pub fn default_host() -> (s: String)
    ensures
        s@ == "0.0.0.0"@,
{
    "0.0.0.0".to_string()
}

/// REST port.
pub fn default_port() -> (p: u16)
    ensures
        p == 9090,
{
    9090
}

/// gRPC port.
pub fn default_grpc_port() -> (p: u16)
    ensures
        p == 9091,
{
    9091
}

/// Log output format.
pub fn default_log_format() -> (s: String)
    ensures
        s@ == "pretty"@,
{
    "pretty".to_string()
}

/// Lifetime of a cached market, in seconds (five minutes).
pub fn default_market_cache_ttl() -> (t: u64)
    ensures
        t == 300,
{
    300
}

/// Lifetime of a cached order book, in milliseconds.
pub fn default_orderbook_cache_ttl() -> (t: u64)
    ensures
        t == 500,
{
    500
}

/// Burst allowance of the light tier (health, metrics, discovery files).
pub fn default_rate_limit_light_burst() -> (b: u32)
    ensures
        b == 200,
{
    200
}

/// Burst allowance of the standard tier (markets, search, discovery).
pub fn default_rate_limit_standard_burst() -> (b: u32)
    ensures
        b == 50,
{
    50
}

/// Burst allowance of the heavy tier (compute-intensive operations).
pub fn default_rate_limit_heavy_burst() -> (b: u32)
    ensures
        b == 10,
{
    10
}

/// Burst allowance of the WebSocket tier.
pub fn default_rate_limit_ws_burst() -> (b: u32)
    ensures
        b == 100,
{
    100
}

/// Authentication is off unless configured.
pub fn default_auth_required() -> (b: bool)
    ensures
        !b,
{
    false
}

/// Allowed CORS origins: any.
pub fn default_cors_origins() -> (v: Vec<String>)
    ensures
        v@.len() == 1,
        v@[0]@ == "*"@,
{
    let mut v: Vec<String> = Vec::new();
    v.push("*".to_string());
    v
}

/// Maximum simultaneous connections.
pub fn default_max_connections() -> (n: u32)
    ensures
        n == 10000,
{
    10000
}

/// Grace period for a graceful shutdown, in seconds.
pub fn default_graceful_shutdown_timeout_secs() -> (t: u64)
    ensures
        t == 30,
{
    30
}

} // verus!
