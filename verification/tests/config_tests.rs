use predmarket::config::{EngineConfig, ServerConfig};

#[test]
fn server_address_is_host_colon_port() {
    let s = ServerConfig { host: "0.0.0.0".into(), port: 8080, shutdown_timeout: 30 };
    assert_eq!(s.server_addr(), "0.0.0.0:8080");
}

#[test]
fn engine_config_fields() {
    let e = EngineConfig { submit_timeout_ms: 1, cancel_timeout_ms: 2, cb_failure_threshold: 3, cb_recovery_secs: 4 };
    assert_eq!(e.cb_failure_threshold, 3);
}
