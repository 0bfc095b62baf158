//! The service's settings that the library reads.
use crate::text::{int_text, u64_text};
use vstd::prelude::*;

verus! {

/// Where the HTTP server listens.
pub struct ServerConfig {
    pub host: String,
    pub port: u16,
    pub shutdown_timeout: u64,
}

/// The message bus and its subjects.
pub struct NatsConfig {
    pub url: String,
    pub order_subject: String,
    pub fill_subject: String,
    pub depth_subject: String,
    pub connect_timeout: u64,
    pub request_timeout: u64,
}

/// Timeouts and circuit-breaker settings of the trading engine.
#[derive(Clone, Copy, Debug, PartialEq, Eq, Structural)]
pub struct EngineConfig {
    pub submit_timeout_ms: u64,
    pub cancel_timeout_ms: u64,
    pub cb_failure_threshold: u32,
    pub cb_recovery_secs: u64,
}

impl ServerConfig {
    /// The address to listen on, `host:port`.
    pub fn server_addr(&self) -> (r: String)
        ensures
            r@ == self.host@ + seq![':'] + int_text(self.port as int),
    {
        let mut s = self.host.clone();
        s.append(":");
        proof {
            reveal_strlit(":");
        }
        s.append(u64_text(self.port as u64).as_str());
        s
    }
}

} // verus!
