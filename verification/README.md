# upp_gateway

A gateway that puts several prediction-market providers (Kalshi,
Polymarket, Opinion) behind one API: it normalises their markets and order
books, merges and searches them, finds cross-provider arbitrage, routes
orders over the merged book, keeps a price index with OHLCV candles, and
runs strategies over candle history for backtests.

The library in `src/` is written in Verus and verified. Its functions state
their results in `requires`/`ensures` contracts over mathematical models
(`Seq`, `Map`, integers in micros rather than floating point); the
exceptions are the request counters, gauges and the shutdown flag, which
live in std atomics whose values cannot be stated. The public proof
functions named `law_*` and `lemma_*` state properties that span several
calls: time buckets start their period, a half-open circuit breaker admits
at most its configured number of probes, retries stop after the configured
count, a merged book is ordered best first, and so on.

Calls into outside crates (chrono, serde_json, urlencoding, uuid, colored,
dashmap) sit behind small trusted wrappers whose contracts say what the
crate documents; each carries a doc comment naming the call.

Layout:

- `src/` – the verified library, one module per concern (`adapters`,
  `aggregation`, `arbitrage`, `hardening`, `price_index`, `smart_router`,
  `strategies`, ...).
- `tests/` – ordinary Rust tests run against the compiled library.
- `app/` – the server binary: HTTP handlers, provider I/O, configuration
  loading, the retry loop, and the floating-point backtest and portfolio
  analytics.
