//! Verified core of the Universal Prediction Protocol gateway.
pub mod text;
pub mod decimal;
pub mod types;
pub mod adapters;
pub mod requests;
pub mod hardening;
pub mod price_index;
pub mod historical;
pub mod shutdown;
pub mod config;
pub mod smart_router;
pub mod execution;
pub mod aggregation;
pub mod arbitrage;
pub mod cli;
pub mod mcp;
pub mod metrics;
pub mod strategies;
pub mod kalshi;
pub mod storage;
pub mod observability;
pub mod polymarket;
pub mod opinion;
pub mod listing;
