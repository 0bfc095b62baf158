//! Verified core of a prediction-market trading back end: fixed-point prices
//! and quantities, risk limits, profit-and-loss bookkeeping, position
//! monitoring, circuit breaking, token handling and request validation.
pub mod text;
pub mod decimal;
pub mod error;
pub mod auth;
pub mod http;
pub mod fills;
pub mod chain;
pub mod engine;
pub mod reconcile;
pub mod config;
pub mod analytics;
pub mod types;
pub mod circuit_breaker;
pub mod clock;
pub mod maps;
pub mod monitor;
pub mod pnl;
pub mod risk;
