//! Observability: logging settings, request metrics in the Prometheus text
//! format, and health checks. Request durations are kept in microseconds.
use std::sync::atomic::AtomicU64;
use std::sync::atomic::Ordering;
use std::sync::Arc;
use dashmap::DashMap;
use vstd::prelude::*;
use crate::decimal::{fixed_text, format_micros, format_micros_unsigned, trim_fraction, trim_fraction_exec};
use crate::types::now_rfc3339;

verus! {

// ─── Logging settings ───────────────────────────────────────

/// How logs are written.
#[derive(Debug, Clone)]
pub struct TracingConfig {
    /// `json` or `pretty`.
    pub format: String,
    /// `debug`, `info`, `warn` or `error`.
    pub level: String,
    pub enable_otlp: bool,
    pub otlp_endpoint: String,
    /// Per-module levels, such as `upp_gateway=debug,tower_http=info`.
    pub module_levels: Option<String>,
}

impl Default for TracingConfig {
    fn default() -> (c: Self)
        ensures
            c.format@ == "json"@,
            c.level@ == "info"@,
            c.enable_otlp,
            c.otlp_endpoint@ == "http://localhost:4317"@,
            c.module_levels is None,
    {
        TracingConfig {
            format: "json".to_string(),
            level: "info".to_string(),
            enable_otlp: true,
            otlp_endpoint: "http://localhost:4317".to_string(),
            module_levels: None,
        }
    }
}

// ─── Rendering ──────────────────────────────────────────────

/// An integer in decimal.
pub open spec fn count_text(v: int) -> Seq<char> {
    fixed_text(v * 1_000_000, 0)
}

/// Microseconds written as seconds, as short as the value allows.
pub open spec fn seconds_text(us: int) -> Seq<char> {
    trim_fraction(fixed_text(us, 6))
}

/// One metric: its help line, its type line and its value line.
pub open spec fn metric_block(name: Seq<char>, help: Seq<char>, kind: Seq<char>, value: int) -> Seq<char> {
    "# HELP "@ + name + " "@ + help + "\n"@ + "# TYPE "@ + name + " "@ + kind + "\n"@ + name + " "@
        + count_text(value) + "\n"@
}

/// How many samples are at most `bound` microseconds.
pub open spec fn count_at_most(samples: Seq<u64>, bound: int) -> int
    decreases samples.len(),
{
    if samples.len() == 0 {
        0
    } else {
        count_at_most(samples.drop_last(), bound) + if samples.last() <= bound { 1int } else { 0int }
    }
}

/// Sum of some samples.
pub open spec fn samples_sum(samples: Seq<u64>) -> int
    decreases samples.len(),
{
    if samples.len() == 0 {
        0
    } else {
        samples_sum(samples.drop_last()) + samples.last()
    }
}

/// One histogram line of a path.
pub open spec fn bucket_line(path: Seq<char>, le: Seq<char>, n: int) -> Seq<char> {
    "request_duration_seconds_bucket{path=\""@ + path + "\",le=\""@ + le + "\"} "@ + count_text(n) + "\n"@
}

/// The histogram lines of one path; nothing for a path without samples.
pub open spec fn path_histogram(path: Seq<char>, samples: Seq<u64>) -> Seq<char> {
    if samples.len() == 0 {
        Seq::empty()
    } else {
        bucket_line(path, "0.001"@, count_at_most(samples, 1_000)) + bucket_line(
            path,
            "0.01"@,
            count_at_most(samples, 10_000),
        ) + bucket_line(path, "0.1"@, count_at_most(samples, 100_000)) + bucket_line(
            path,
            "1.0"@,
            count_at_most(samples, 1_000_000),
        ) + bucket_line(path, "+Inf"@, samples.len() as int) + histogram_tail(path, samples.len() as int, samples_sum(samples))
    }
}

/// The histogram lines of every path, in order.
pub open spec fn histograms(entries: Seq<(Seq<char>, Seq<u64>)>) -> Seq<char>
    decreases entries.len(),
{
    if entries.len() == 0 {
        Seq::empty()
    } else {
        histograms(entries.drop_last()) + path_histogram(entries.last().0, entries.last().1)
    }
}

/// Counter and gauge values read at one moment.
#[derive(Debug, Clone, Copy)]
pub struct MetricValues {
    pub requests_total: u64,
    pub ws_messages_total: u64,
    pub provider_requests_total: u64,
    pub active_ws_connections: u64,
    pub cache_size: u64,
    pub connected_providers: u64,
}

/// The whole Prometheus text for some values and latency samples.
pub open spec fn exposition(v: MetricValues, entries: Seq<(Seq<char>, Seq<u64>)>) -> Seq<char> {
    metric_block("requests_total"@, "Total HTTP requests"@, "counter"@, v.requests_total as int) + metric_block(
        "ws_messages_total"@,
        "Total WebSocket messages"@,
        "counter"@,
        v.ws_messages_total as int,
    ) + metric_block(
        "provider_requests_total"@,
        "Total provider requests"@,
        "counter"@,
        v.provider_requests_total as int,
    ) + metric_block(
        "active_ws_connections"@,
        "Active WebSocket connections"@,
        "gauge"@,
        v.active_ws_connections as int,
    ) + metric_block("cache_size"@, "Current cache size in bytes"@, "gauge"@, v.cache_size as int)
        + metric_block(
        "connected_providers"@,
        "Number of connected providers"@,
        "gauge"@,
        v.connected_providers as int,
    ) + "# HELP request_duration_seconds Request latency in seconds\n"@
        + "# TYPE request_duration_seconds histogram\n"@ + histograms(entries)
}

fn count_string(v: u64) -> (s: String)
    ensures
        s@ == count_text(v as int),
{
    format_micros((v as i128) * 1_000_000, 0)
}

fn push_bucket(out: &mut String, path: &str, le: &str, n: u64)
    ensures
        final(out)@ == old(out)@ + bucket_line(path@, le@, n as int),
{
    proof {
        reveal_strlit("request_duration_seconds_bucket{path=\"");
        reveal_strlit("\",le=\"");
        reveal_strlit("\"} ");
        reveal_strlit("\n");
    }
    let ghost start = out@;
    out.append("request_duration_seconds_bucket{path=\"");
    out.append(path);
    out.append("\",le=\"");
    out.append(le);
    out.append("\"} ");
    let c = count_string(n);
    out.append(c.as_str());
    out.append("\n");
    assert(out@ =~= start + bucket_line(path@, le@, n as int));
}

/// Bucket counts of some samples (at most 1 ms, 10 ms, 100 ms, 1 s) and
/// their sum.
fn tally(samples: &Vec<u64>) -> (t: (u64, u64, u64, u64, u128))
    ensures
        t.0 == count_at_most(samples@, 1_000),
        t.1 == count_at_most(samples@, 10_000),
        t.2 == count_at_most(samples@, 100_000),
        t.3 == count_at_most(samples@, 1_000_000),
        t.4 == samples_sum(samples@),
{
    let mut c1: u64 = 0;
    let mut c2: u64 = 0;
    let mut c3: u64 = 0;
    let mut c4: u64 = 0;
    let mut sum: u128 = 0;
    let mut i: usize = 0;
    while i < samples.len()
        invariant
            i <= samples@.len(),
            c1 == count_at_most(samples@.take(i as int), 1_000),
            c2 == count_at_most(samples@.take(i as int), 10_000),
            c3 == count_at_most(samples@.take(i as int), 100_000),
            c4 == count_at_most(samples@.take(i as int), 1_000_000),
            c1 <= i && c2 <= i && c3 <= i && c4 <= i,
            sum == samples_sum(samples@.take(i as int)),
            sum <= i * 0xFFFF_FFFF_FFFF_FFFFu64,
        decreases samples@.len() - i,
    {
        let ghost t = samples@.take(i as int + 1);
        assert(t.drop_last() =~= samples@.take(i as int));
        let d = samples[i];
        assert(i < 0x1_0000_0000_0000_0000);
        assert(sum + d <= (i + 1) * 0xFFFF_FFFF_FFFF_FFFFu64) by (nonlinear_arith)
            requires
                sum <= i * 0xFFFF_FFFF_FFFF_FFFFu64,
                d <= 0xFFFF_FFFF_FFFF_FFFFu64,
        ;
        assert((i + 1) * 0xFFFF_FFFF_FFFF_FFFFu64 <= 0xFFFF_FFFF_FFFF_FFFF_FFFF_FFFF_FFFF_FFFFu128) by (nonlinear_arith)
            requires
                i < 0x1_0000_0000_0000_0000,
        ;
        if d <= 1_000 {
            c1 = c1 + 1;
        }
        if d <= 10_000 {
            c2 = c2 + 1;
        }
        if d <= 100_000 {
            c3 = c3 + 1;
        }
        if d <= 1_000_000 {
            c4 = c4 + 1;
        }
        sum = sum + d as u128;
        i = i + 1;
    }
    assert(samples@.take(samples@.len() as int) =~= samples@);
    (c1, c2, c3, c4, sum)
}

/// The count and sum lines of a path's histogram.
pub open spec fn histogram_tail(path: Seq<char>, n: int, sum: int) -> Seq<char> {
    "request_duration_seconds_count{path=\""@ + path + "\"} "@ + count_text(n) + "\n"@
        + "request_duration_seconds_sum{path=\""@ + path + "\"} "@ + seconds_text(sum) + "\n"@
}

fn push_tail(out: &mut String, path: &str, n: u64, sum: u128)
    ensures
        final(out)@ == old(out)@ + histogram_tail(path@, n as int, sum as int),
{
    proof {
        reveal_strlit("request_duration_seconds_count{path=\"");
        reveal_strlit("\"} ");
        reveal_strlit("\n");
        reveal_strlit("request_duration_seconds_sum{path=\"");
    }
    let ghost start = out@;
    out.append("request_duration_seconds_count{path=\"");
    out.append(path);
    out.append("\"} ");
    let cs = count_string(n);
    out.append(cs.as_str());
    out.append("\n");
    out.append("request_duration_seconds_sum{path=\"");
    out.append(path);
    out.append("\"} ");
    let secs = trim_fraction_exec(format_micros_unsigned(sum));
    out.append(secs.as_str());
    out.append("\n");
    assert(out@ =~= start + histogram_tail(path@, n as int, sum as int));
}

fn push_path(out: &mut String, path: &str, samples: &Vec<u64>)
    ensures
        final(out)@ == old(out)@ + path_histogram(path@, samples@),
{
    let ghost start = out@;
    if samples.len() == 0 {
        assert(out@ =~= start + path_histogram(path@, samples@));
        return;
    }
    let (c1, c2, c3, c4, sum) = tally(samples);
    proof {
        reveal_strlit("0.001");
        reveal_strlit("0.01");
        reveal_strlit("0.1");
        reveal_strlit("1.0");
        reveal_strlit("+Inf");
    }
    push_bucket(out, path, "0.001", c1);
    push_bucket(out, path, "0.01", c2);
    push_bucket(out, path, "0.1", c3);
    push_bucket(out, path, "1.0", c4);
    let n = samples.len() as u64;
    push_bucket(out, path, "+Inf", n);
    push_tail(out, path, n, sum);
    assert(out@ =~= start + path_histogram(path@, samples@));
}

/// Append one metric's help, type and value lines.
pub(crate) fn push_block(out: &mut String, name: &str, help: &str, kind: &str, value: u64)
    ensures
        final(out)@ == old(out)@ + metric_block(name@, help@, kind@, value as int),
{
    proof {
        reveal_strlit("# HELP ");
        reveal_strlit("# TYPE ");
        reveal_strlit(" ");
        reveal_strlit("\n");
    }
    let ghost start = out@;
    out.append("# HELP ");
    out.append(name);
    out.append(" ");
    out.append(help);
    out.append("\n");
    out.append("# TYPE ");
    out.append(name);
    out.append(" ");
    out.append(kind);
    out.append("\n");
    out.append(name);
    out.append(" ");
    let c = count_string(value);
    out.append(c.as_str());
    out.append("\n");
    assert(out@ =~= start + metric_block(name@, help@, kind@, value as int));
}

/// The latency samples of each path, as texts and durations.
pub open spec fn sample_entries(v: Seq<(String, Vec<u64>)>) -> Seq<(Seq<char>, Seq<u64>)> {
    v.map_values(|e: (String, Vec<u64>)| (e.0@, e.1@))
}

/// The Prometheus text for some values and the latency samples of each path.
pub fn render_metrics(values: MetricValues, entries: &Vec<(String, Vec<u64>)>) -> (text: String)
    ensures
        text@ == exposition(values, sample_entries(entries@)),
{
    let mut out = String::new();
    push_block(&mut out, "requests_total", "Total HTTP requests", "counter", values.requests_total);
    push_block(&mut out, "ws_messages_total", "Total WebSocket messages", "counter", values.ws_messages_total);
    push_block(&mut out, "provider_requests_total", "Total provider requests", "counter", values.provider_requests_total);
    push_block(&mut out, "active_ws_connections", "Active WebSocket connections", "gauge", values.active_ws_connections);
    push_block(&mut out, "cache_size", "Current cache size in bytes", "gauge", values.cache_size);
    push_block(&mut out, "connected_providers", "Number of connected providers", "gauge", values.connected_providers);
    proof {
        reveal_strlit("# HELP request_duration_seconds Request latency in seconds\n");
        reveal_strlit("# TYPE request_duration_seconds histogram\n");
    }
    out.append("# HELP request_duration_seconds Request latency in seconds\n");
    out.append("# TYPE request_duration_seconds histogram\n");
    let ghost head = out@;
    let ghost ev = sample_entries(entries@);
    let mut i: usize = 0;
    while i < entries.len()
        invariant
            i <= entries@.len(),
            ev == sample_entries(entries@),
            out@ == head + histograms(ev.take(i as int)),
        decreases entries@.len() - i,
    {
        let ghost t = ev.take(i as int + 1);
        assert(t.drop_last() =~= ev.take(i as int));
        push_path(&mut out, entries[i].0.as_str(), &entries[i].1);
        assert(out@ =~= head + histograms(t));
        i = i + 1;
    }
    assert(ev.take(entries@.len() as int) =~= ev);
    out
}

// ─── Live metrics ───────────────────────────────────────────

/// What a map of latency samples holds: durations per path key.
pub uninterp spec fn sample_book(m: DashMap<String, Vec<u64>>) -> Map<Seq<char>, Seq<u64>>;

/// Latency samples per path key.
pub type SampleMap = DashMap<String, Vec<u64>>;

/// `DashMap::new`: no samples.
#[verifier::external_body]
fn new_sample_map() -> (m: SampleMap)
    ensures
        sample_book(m).dom() == Set::<Seq<char>>::empty(),
{
    DashMap::new()
}

/// `DashMap::entry(..).or_insert_with(Vec::new).push(..)`: one more sample
/// under the key, after those already there.
#[verifier::external_body]
fn push_sample(m: &mut SampleMap, key: String, us: u64)
    ensures
        sample_book(*final(m)) == sample_book(*old(m)).insert(
            key@,
            if sample_book(*old(m)).dom().contains(key@) { sample_book(*old(m))[key@].push(us) } else { seq![us] },
        ),
{
    m.entry(key).or_insert_with(Vec::new).push(us);
}

/// `DashMap::iter`, copying every key and its samples out in the map's own
/// order, which is left open: each key once.
#[verifier::external_body]
fn sample_pairs(m: &SampleMap) -> (r: Vec<(String, Vec<u64>)>)
    ensures
        lists_samples(sample_entries(r@), sample_book(*m)),
{
    m.iter().map(|e| (e.key().clone(), e.value().clone())).collect()
}

/// Entries listing exactly the keys of a sample map with their samples.
pub open spec fn lists_samples(es: Seq<(Seq<char>, Seq<u64>)>, book: Map<Seq<char>, Seq<u64>>) -> bool {
    &&& es.len() == book.dom().len()
    &&& forall|i: int| 0 <= i < es.len() ==> book.dom().contains((#[trigger] es[i]).0) && book[es[i].0] == es[i].1
    &&& forall|i: int, j: int| 0 <= i < j < es.len() ==> (#[trigger] es[i]).0 != (#[trigger] es[j]).0
    &&& forall|k: Seq<char>| #[trigger] book.dom().contains(k) ==> exists|i: int| 0 <= i < es.len() && es[i].0 == k
}

/// Request metrics. The counters and gauges are atomics shared by every
/// handler, so their values are not part of the verified model; the latency
/// samples are.
pub struct PrometheusMetrics {
    requests_total: Arc<AtomicU64>,
    ws_messages_total: Arc<AtomicU64>,
    provider_requests_total: Arc<AtomicU64>,
    active_ws_connections: Arc<AtomicU64>,
    cache_size: Arc<AtomicU64>,
    connected_providers: Arc<AtomicU64>,
    request_duration_samples: SampleMap,
}

/// Key of a request path: method and path joined by an underscore.
pub open spec fn sample_key(method: Seq<char>, path: Seq<char>) -> Seq<char> {
    method + seq!['_'] + path
}

impl PrometheusMetrics {
    /// Latency samples per request key.
    pub closed spec fn samples(&self) -> Map<Seq<char>, Seq<u64>> {
        sample_book(self.request_duration_samples)
    }

    /// Metrics with no samples.
    pub fn new() -> (m: Self)
        ensures
            m.samples().dom() == Set::<Seq<char>>::empty(),
    {
        PrometheusMetrics {
            requests_total: Arc::new(AtomicU64::new(0)),
            ws_messages_total: Arc::new(AtomicU64::new(0)),
            provider_requests_total: Arc::new(AtomicU64::new(0)),
            active_ws_connections: Arc::new(AtomicU64::new(0)),
            cache_size: Arc::new(AtomicU64::new(0)),
            connected_providers: Arc::new(AtomicU64::new(0)),
            request_duration_samples: new_sample_map(),
        }
    }

    /// Count a request and keep its duration, in microseconds, under
    /// `{method}_{path}`.
    pub fn record_request(&mut self, method: &str, path: &str, status: u16, duration_us: u64)
        ensures
            final(self).samples() == old(self).samples().insert(
                sample_key(method@, path@),
                if old(self).samples().dom().contains(sample_key(method@, path@)) {
                    old(self).samples()[sample_key(method@, path@)].push(duration_us)
                } else {
                    seq![duration_us]
                },
            ),
    {
        self.requests_total.fetch_add(1, Ordering::Relaxed);
        proof { reveal_strlit("_"); }
        let mut key = method.to_string();
        key.append("_");
        key.append(path);
        assert(key@ =~= sample_key(method@, path@));
        push_sample(&mut self.request_duration_samples, key, duration_us);
    }

    /// Count a WebSocket message.
    pub fn record_ws_message(&self) {
        self.ws_messages_total.fetch_add(1, Ordering::Relaxed);
    }

    /// Count a request sent to a provider.
    pub fn record_provider_request(&self) {
        self.provider_requests_total.fetch_add(1, Ordering::Relaxed);
    }

    /// One more open WebSocket connection.
    pub fn increment_ws_connections(&self) {
        self.active_ws_connections.fetch_add(1, Ordering::Relaxed);
    }

    /// One fewer open WebSocket connection.
    pub fn decrement_ws_connections(&self) {
        self.active_ws_connections.fetch_sub(1, Ordering::Relaxed);
    }

    /// Set the cache size gauge.
    pub fn set_cache_size(&self, size: u64) {
        self.cache_size.store(size, Ordering::Relaxed);
    }

    /// Set the connected-providers gauge.
    pub fn set_connected_providers(&self, count: u64) {
        self.connected_providers.store(count, Ordering::Relaxed);
    }

    /// Current counter and gauge values.
    pub fn values(&self) -> MetricValues {
        MetricValues {
            requests_total: self.requests_total.load(Ordering::Relaxed),
            ws_messages_total: self.ws_messages_total.load(Ordering::Relaxed),
            provider_requests_total: self.provider_requests_total.load(Ordering::Relaxed),
            active_ws_connections: self.active_ws_connections.load(Ordering::Relaxed),
            cache_size: self.cache_size.load(Ordering::Relaxed),
            connected_providers: self.connected_providers.load(Ordering::Relaxed),
        }
    }

    /// The metrics in the Prometheus text format: every counter and gauge
    /// as read now, then a latency histogram per request key, keys in the
    /// map's own order.
    pub fn metrics_handler(&self) -> (text: String)
        ensures
            exists|v: MetricValues, es: Seq<(Seq<char>, Seq<u64>)>|
                lists_samples(es, self.samples()) && text@ == exposition(v, es),
    {
        let v = self.values();
        let pairs = sample_pairs(&self.request_duration_samples);
        let text = render_metrics(v, &pairs);
        assert(lists_samples(sample_entries(pairs@), self.samples()) && text@ == exposition(v, sample_entries(pairs@)));
        text
    }
}

// ─── Health ─────────────────────────────────────────────────

/// Outcome of one check.
#[derive(Debug, Clone)]
pub struct CheckResult {
    /// `ok`, `warning` or `error`.
    pub status: String,
    pub message: String,
    pub latency_us: Option<u64>,
}

/// The checks of a health report.
#[derive(Debug, Clone)]
pub struct HealthChecks {
    pub redis: CheckResult,
    pub providers: CheckResult,
    pub cache: CheckResult,
}

/// A health report.
#[derive(Debug, Clone)]
pub struct HealthStatus {
    /// `healthy`, `degraded` or `unhealthy`.
    pub status: String,
    pub checks: HealthChecks,
    pub timestamp: String,
}

/// Overall status from three check statuses: unhealthy when any failed,
/// degraded when any warned, healthy otherwise.
pub open spec fn overall_status(a: Seq<char>, b: Seq<char>, c: Seq<char>) -> Seq<char> {
    if a == "error"@ || b == "error"@ || c == "error"@ {
        "unhealthy"@
    } else if a == "warning"@ || b == "warning"@ || c == "warning"@ {
        "degraded"@
    } else {
        "healthy"@
    }
}

/// Overall status of three checks.
pub fn combine_status(a: &str, b: &str, c: &str) -> (s: String)
    ensures
        s@ == overall_status(a@, b@, c@),
{
    proof {
        reveal_strlit("error");
        reveal_strlit("warning");
        reveal_strlit("unhealthy");
        reveal_strlit("degraded");
        reveal_strlit("healthy");
    }
    if crate::text::str_eq(a, "error") || crate::text::str_eq(b, "error") || crate::text::str_eq(c, "error") {
        "unhealthy".to_string()
    } else if crate::text::str_eq(a, "warning") || crate::text::str_eq(b, "warning") || crate::text::str_eq(c, "warning") {
        "degraded".to_string()
    } else {
        "healthy".to_string()
    }
}

/// The check of the provider connections for a count of connected providers.
pub fn providers_check(connected: u64) -> (r: CheckResult)
    ensures
        connected > 0 ==> r.status@ == "ok"@ && r.message@ == count_text(connected as int) + " providers connected"@,
        connected == 0 ==> r.status@ == "warning"@ && r.message@ == "No providers connected"@,
        r.latency_us is None,
{
    proof {
        reveal_strlit("ok");
        reveal_strlit("warning");
        reveal_strlit(" providers connected");
        reveal_strlit("No providers connected");
    }
    if connected > 0 {
        let mut m = count_string(connected);
        m.append(" providers connected");
        CheckResult { status: "ok".to_string(), message: m, latency_us: None }
    } else {
        CheckResult { status: "warning".to_string(), message: "No providers connected".to_string(), latency_us: None }
    }
}

/// The check of the cache for its size in bytes.
pub fn cache_check(size: u64) -> (r: CheckResult)
    ensures
        r.status@ == "ok"@,
        r.message@ == "Cache size: "@ + count_text(size as int) + " bytes"@,
        r.latency_us is None,
{
    proof {
        reveal_strlit("ok");
        reveal_strlit("Cache size: ");
        reveal_strlit(" bytes");
    }
    let mut m = "Cache size: ".to_string();
    let c = count_string(size);
    m.append(c.as_str());
    m.append(" bytes");
    CheckResult { status: "ok".to_string(), message: m, latency_us: None }
}

/// The check of the shared store; it is not probed and reports available.
pub fn redis_check() -> (r: CheckResult)
    ensures
        r.status@ == "ok"@,
        r.message@ == "Redis connection available"@,
        r.latency_us == Some(1_500u64),
{
    CheckResult { status: "ok".to_string(), message: "Redis connection available".to_string(), latency_us: Some(1_500) }
}

/// Health checks over the metrics.
pub struct HealthCheck {
    metrics: Arc<PrometheusMetrics>,
}

impl HealthCheck {
    /// The metrics the checks read.
    pub closed spec fn metrics(&self) -> Arc<PrometheusMetrics> {
        self.metrics
    }

    /// Checks over the given metrics.
    pub fn new(metrics: Arc<PrometheusMetrics>) -> (h: HealthCheck)
        ensures
            h.metrics() == metrics,
    {
        HealthCheck { metrics }
    }

    /// The gateway is running: every check reports ok.
    pub fn liveness(&self) -> (h: HealthStatus)
        ensures
            h.status@ == "healthy"@,
            h.checks.redis.status@ == "ok"@ && h.checks.redis.message@ == "Gateway is running"@,
            h.checks.providers.status@ == "ok"@ && h.checks.providers.message@ == "Providers service available"@,
            h.checks.cache.status@ == "ok"@ && h.checks.cache.message@ == "Cache service available"@,
    {
        HealthStatus {
            status: "healthy".to_string(),
            checks: HealthChecks {
                redis: CheckResult { status: "ok".to_string(), message: "Gateway is running".to_string(), latency_us: None },
                providers: CheckResult {
                    status: "ok".to_string(),
                    message: "Providers service available".to_string(),
                    latency_us: None,
                },
                cache: CheckResult { status: "ok".to_string(), message: "Cache service available".to_string(), latency_us: None },
            },
            timestamp: now_rfc3339(),
        }
    }

    /// The gateway can serve: the checks of the store, the providers (as
    /// connected now) and the cache (as sized now), and the status they add
    /// up to.
    pub fn readiness(&self) -> (h: HealthStatus)
        ensures
            h.status@ == overall_status(
                h.checks.redis.status@,
                h.checks.providers.status@,
                h.checks.cache.status@,
            ),
            h.checks.redis.status@ == "ok"@,
            h.checks.cache.status@ == "ok"@,
    {
        let redis = redis_check();
        let providers = providers_check(self.metrics.connected_providers.load(Ordering::Relaxed));
        let cache = cache_check(self.metrics.cache_size.load(Ordering::Relaxed));
        let status = combine_status(redis.status.as_str(), providers.status.as_str(), cache.status.as_str());
        HealthStatus { status, checks: HealthChecks { redis, providers, cache }, timestamp: now_rfc3339() }
    }
}

} // verus!
