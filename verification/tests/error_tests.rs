use predmarket::text::{i64_text, u64_text};
use predmarket::error::AppError;

#[test]
fn status_codes_follow_the_error_kind() {
    assert_eq!(AppError::Internal("x".into()).status_code(), 500);
    assert_eq!(AppError::External("x".into()).status_code(), 502);
    assert_eq!(AppError::Validation("x".into()).status_code(), 400);
    assert_eq!(AppError::RiskLimitExceeded("x".into()).status_code(), 403);
    assert_eq!(AppError::SlippageExceeded.status_code(), 400);
    assert_eq!(AppError::CircuitBreakerOpen.status_code(), 503);
    assert_eq!(AppError::Database("x".into()).status_code(), 500);
    assert_eq!(AppError::Blockchain("x".into()).status_code(), 502);
    assert_eq!(AppError::Messaging("x".into()).status_code(), 503);
    assert_eq!(AppError::InsufficientBalance { needed: 1, available: 0 }.status_code(), 400);
    assert_eq!(AppError::MarketNotFound("x".into()).status_code(), 404);
    assert_eq!(AppError::OrderNotFound("x".into()).status_code(), 404);
    assert_eq!(AppError::MarketNotOpen.status_code(), 400);
    assert_eq!(AppError::NotFound("x".into()).status_code(), 404);
    assert_eq!(AppError::Unauthorized.status_code(), 401);
    assert_eq!(AppError::Forbidden.status_code(), 403);
    assert_eq!(AppError::Conflict("x".into()).status_code(), 409);
    assert_eq!(AppError::BadRequest("x".into()).status_code(), 400);
}

#[test]
fn body_text_of_each_kind() {
    assert_eq!(AppError::Validation("bad".into()).body_text(), "bad");
    assert_eq!(AppError::SlippageExceeded.body_text(), "Slippage limit exceeded");
    assert_eq!(AppError::CircuitBreakerOpen.body_text(), "Circuit breaker is open");
    assert_eq!(
        AppError::InsufficientBalance { needed: 500, available: 20 }.body_text(),
        "Insufficient balance: needed=500, available=20"
    );
    assert_eq!(AppError::MarketNotOpen.body_text(), "Market is not open");
    assert_eq!(AppError::Unauthorized.body_text(), "Unauthorized");
    assert_eq!(AppError::Forbidden.body_text(), "Forbidden");
}

#[test]
fn description_of_each_kind() {
    assert_eq!(AppError::Internal("boom".into()).describe(), "Internal error: boom");
    assert_eq!(AppError::External("x".into()).describe(), "External exchange error: x");
    assert_eq!(AppError::Validation("x".into()).describe(), "Validation failed: x");
    assert_eq!(AppError::RiskLimitExceeded("x".into()).describe(), "Risk limit exceeded: x");
    assert_eq!(AppError::Database("x".into()).describe(), "DB error: x");
    assert_eq!(AppError::Blockchain("x".into()).describe(), "Chain error: x");
    assert_eq!(AppError::Messaging("x".into()).describe(), "NATS error: x");
    assert_eq!(
        AppError::InsufficientBalance { needed: 7, available: 3 }.describe(),
        "Insufficient balance: needed 7, available 3"
    );
    assert_eq!(AppError::MarketNotFound("m".into()).describe(), "Market not found: m");
    assert_eq!(AppError::OrderNotFound("o".into()).describe(), "Order not found: o");
    assert_eq!(AppError::MarketNotOpen.describe(), "Market closed");
    assert_eq!(AppError::NotFound("r".into()).describe(), "Resource missing: r");
    assert_eq!(AppError::Unauthorized.describe(), "Unauthorized");
    assert_eq!(AppError::Forbidden.describe(), "Access forbidden");
    assert_eq!(AppError::Conflict("c".into()).describe(), "Conflict: c");
    assert_eq!(AppError::BadRequest("b".into()).describe(), "Invalid request: b");
    assert_eq!(AppError::SlippageExceeded.describe(), "Slippage limit exceeded");
    assert_eq!(AppError::CircuitBreakerOpen.describe(), "Circuit breaker is open");
}

#[test]
fn integer_texts_match_to_string() {
    for n in [0u64, 7, 10, 99, 100, 12_345, u64::MAX] {
        assert_eq!(u64_text(n), n.to_string());
    }
    for n in [0i64, -1, 9, -10, 123, -98_765, i64::MAX, i64::MIN] {
        assert_eq!(i64_text(n), n.to_string());
    }
}
