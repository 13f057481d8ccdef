[package]
name = "upp_gateway"
version = "0.1.0"
edition = "2021"
publish = false

[dependencies]
uuid = { version = "=1.29.0", features = ["v4"] }
chrono = "=0.4.45"
colored = "=2.2.0"
serde = { version = "=1.0.229", features = ["derive"] }
serde_json = "=1.0.154"
tokio = { version = "=1.54.1", features = ["rt-multi-thread", "macros", "time", "sync", "signal", "net"] }
axum = "=0.7.9"
anyhow = "=1.0.104"
thiserror = "=1.0.69"
tracing = "=0.1.44"
tracing-subscriber = { version = "=0.3.23", features = ["env-filter", "json"] }
dashmap = "=5.5.3"
reqwest = { version = "=0.12.28", default-features = false, features = ["json", "rustls-tls"] }
async-trait = "=0.1.92"
futures = "=0.3.34"
tower-http = { version = "=0.5.2", features = ["cors", "trace"] }
dotenvy = "=0.15.7"
redis = { version = "=0.27.6", features = ["tokio-comp"] }
moka = { version = "=0.12.16", features = ["future"] }
urlencoding = "2"
clap = { version = "4", features = ["derive", "env"] }
tabled = "0.16"
dirs = "5"
toml = "0.8"
