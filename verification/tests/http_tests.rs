use predmarket::decimal::Dec;
use predmarket::error::AppError;
use predmarket::http::{
    admin_gate, auth_context_of, check_order_owner, depth_step, health_response, idempotency_step,
    list_limit, normalize_path, order_request_from, try_order_request_from, parse_kind, parse_side, readiness_response,
    token_response, user_of_context, validate_registration, AuthContext, DepthAction, DepthEvent,
    IdempotencyStatus, IdempotencyStep, RegisterRequest,
};
use predmarket::types::{MarketId, OrderKind, Side, UserId};

fn reg(email: &str, password: &str) -> RegisterRequest {
    RegisterRequest { email: email.to_string(), password: password.to_string() }
}

#[test]
fn registration_checks_email_then_password() {
    assert_eq!(validate_registration(&reg("a@b.c", "12345678")), Ok(()));
    assert_eq!(
        validate_registration(&reg("", "12345678")),
        Err(AppError::Validation("invalid email".into()))
    );
    assert_eq!(
        validate_registration(&reg("nobody", "12345678")),
        Err(AppError::Validation("invalid email".into()))
    );
    assert_eq!(
        validate_registration(&reg("a@b.c", "1234567")),
        Err(AppError::Validation("password must be at least 8 characters".into()))
    );
    // Eight bytes in four characters pass.
    assert_eq!(validate_registration(&reg("a@b.c", "éééé")), Ok(()));
}

#[test]
fn side_and_kind_in_any_case() {
    assert_eq!(parse_side("BUY"), Ok(Side::Buy));
    assert_eq!(parse_side("Sell"), Ok(Side::Sell));
    assert_eq!(parse_side("hold"), Err(AppError::Validation("side must be buy or sell".into())));
    assert_eq!(parse_kind("LIMIT"), Ok(OrderKind::Limit));
    assert_eq!(parse_kind("market"), Ok(OrderKind::Market));
    assert_eq!(parse_kind("stop"), Err(AppError::Validation("kind must be limit or market".into())));
}

#[test]
fn order_request_is_built_from_a_valid_submission() {
    let m = MarketId(7);
    let req = order_request_from(m, "buy", Some("limit"), Some(550_000), Dec::new(10, 0)).unwrap();
    assert_eq!(req.market_id, m);
    assert_eq!(req.side, Side::Buy);
    assert_eq!(req.kind, OrderKind::Limit);
    assert_eq!(req.price.unwrap().0, 550_000);
    assert_eq!(req.quantity.0, 10_000_000);
    let req = order_request_from(m, "SELL", Some("Market"), None, Dec::new(1, 1)).unwrap();
    assert_eq!(req.kind, OrderKind::Market);
    assert!(req.price.is_none());
    assert_eq!(req.quantity.0, 100_000);
}

#[test]
fn order_submission_without_kind_at_price_5000_is_accepted() {
    // The submission `{"side": "buy", "price": 5000, "quantity": 1000}`.
    let m = MarketId(9);
    let req = order_request_from(m, "buy", None, Some(5000), Dec::new(1000, 0)).unwrap();
    assert_eq!(req.market_id, m);
    assert_eq!(req.side, Side::Buy);
    assert_eq!(req.kind, OrderKind::Limit);
    assert_eq!(req.price.unwrap().0, 5000);
    assert_eq!(req.quantity.0, 1_000_000_000);
    let req = order_request_from(m, "sell", None, None, Dec::new(1, 0)).unwrap();
    assert_eq!(req.kind, OrderKind::Market);
}

#[test]
fn order_request_errors_in_order() {
    let m = MarketId(1);
    let q = Dec::new(1, 0);
    assert_eq!(
        order_request_from(m, "x", Some("y"), None, q).map(|r| r.quantity.0),
        Err(AppError::Validation("side must be buy or sell".into()))
    );
    assert_eq!(
        order_request_from(m, "buy", Some("y"), None, q).map(|r| r.quantity.0),
        Err(AppError::Validation("kind must be limit or market".into()))
    );
    assert_eq!(
        order_request_from(m, "buy", Some("limit"), Some(999), q).map(|r| r.quantity.0),
        Err(AppError::Validation("price must be in (0, 1)".into()))
    );
    assert_eq!(
        order_request_from(m, "buy", Some("limit"), Some(10_000_000), q).map(|r| r.quantity.0),
        Err(AppError::Validation("price must be in (0, 1)".into()))
    );
    assert_eq!(
        order_request_from(m, "buy", Some("limit"), None, Dec::new(0, 0)).map(|r| r.quantity.0),
        Err(AppError::Validation("quantity must be positive".into()))
    );
    assert_eq!(
        order_request_from(m, "buy", Some("limit"), None, Dec::new(-3, 0)).map(|r| r.quantity.0),
        Err(AppError::Validation("quantity must be positive".into()))
    );
}

#[test]
fn order_request_with_an_unscalable_quantity() {
    let m = MarketId(1);
    let huge = Dec { mantissa: 79_228_162_514_264_337_593_543_950_335, scale: 0 };
    assert!(try_order_request_from(m, "buy", None, Some(5000), huge).is_none());
    // A refused side is reported before the quantity is scaled.
    assert_eq!(
        try_order_request_from(m, "hold", None, Some(5000), huge).unwrap().map(|r| r.quantity.0),
        Err(AppError::Validation("side must be buy or sell".into()))
    );
}

#[test]
fn idempotency_decisions() {
    assert_eq!(idempotency_step(IdempotencyStatus::Complete, true), Ok(IdempotencyStep::ReplayCached));
    assert_eq!(idempotency_step(IdempotencyStatus::Complete, false), Ok(IdempotencyStep::Proceed));
    assert_eq!(idempotency_step(IdempotencyStatus::Fresh, false), Ok(IdempotencyStep::Proceed));
    assert_eq!(
        idempotency_step(IdempotencyStatus::Processing, true),
        Err(AppError::Conflict("duplicate request in flight".into()))
    );
}

#[test]
fn listing_limit_defaults_and_caps() {
    assert_eq!(list_limit(None), 50);
    assert_eq!(list_limit(Some(10)), 10);
    assert_eq!(list_limit(Some(500)), 200);
    assert_eq!(list_limit(Some(-1)), u32::MAX);
}

#[test]
fn context_user_must_be_a_uuid() {
    let ok = AuthContext { user_id: "00000000-0000-0000-0000-00000000002a".into(), is_admin: false };
    assert_eq!(user_of_context(&ok), Ok(UserId(42)));
    let bad = AuthContext { user_id: "42".into(), is_admin: false };
    assert_eq!(user_of_context(&bad), Err(AppError::Unauthorized));
}

#[test]
fn only_the_owner_reads_an_order() {
    assert_eq!(check_order_owner(UserId(1), UserId(1)), Ok(()));
    assert_eq!(check_order_owner(UserId(1), UserId(2)), Err(AppError::Forbidden));
}

#[test]
fn token_response_carries_user_text() {
    let r = token_response("tok".into(), UserId(42), true);
    assert_eq!(r.token, "tok");
    assert_eq!(r.user_id, "00000000-0000-0000-0000-00000000002a");
    assert!(r.is_admin);
}

#[test]
fn bearer_header_reading() {
    let id = "123e4567-e89b-12d3-a456-426614174000";
    let c = auth_context_of(&format!("Bearer admin_{}extra", id)).unwrap();
    assert_eq!(c.user_id, id);
    assert!(c.is_admin);
    let c = auth_context_of(&format!("Bearer {}tail", id)).unwrap();
    assert_eq!(c.user_id, id);
    assert!(!c.is_admin);
    let c = auth_context_of("Bearer abcdefghijk").unwrap();
    assert_eq!(c.user_id, "abcdefghijk");
    assert!(auth_context_of("Bearer short").is_none());
    assert!(auth_context_of("Basic abcdefghijklmnop").is_none());
    let c = auth_context_of("Bearer admin_").unwrap();
    assert_eq!(c.user_id, "");
    assert!(c.is_admin);
}

#[test]
fn admin_gate_statuses() {
    let admin = AuthContext { user_id: "a".into(), is_admin: true };
    let user = AuthContext { user_id: "u".into(), is_admin: false };
    assert_eq!(admin_gate(Some(&admin)), Ok(()));
    assert_eq!(admin_gate(Some(&user)), Err(403));
    assert_eq!(admin_gate(None), Err(401));
}

#[test]
fn health_report() {
    let h = health_response(true, true, "1.0".into(), "now".into());
    assert_eq!(h.status, "healthy");
    assert_eq!(h.components.database, "healthy");
    assert_eq!(h.components.analytics, "healthy");
    let h = health_response(true, false, "1.0".into(), "now".into());
    assert_eq!(h.status, "degraded");
    assert_eq!(h.components.nats, "unhealthy");
    assert_eq!(h.version, "1.0");
    assert_eq!(h.timestamp, "now");
}

#[test]
fn readiness_report() {
    let r = readiness_response(true, true);
    assert!(r.ready);
    assert_eq!(r.checks, vec!["database: connected", "nats: connected", "analytics: ready"]);
    let r = readiness_response(false, true);
    assert!(!r.ready);
    assert_eq!(r.checks[0], "database: disconnected");
    let r = readiness_response(true, false);
    assert!(!r.ready);
    assert_eq!(r.checks[1], "nats: disconnected");
}

#[test]
fn path_labels_hide_ids() {
    assert_eq!(
        normalize_path("/v1/orders/123e4567-e89b-12d3-a456-426614174000"),
        "/v1/orders/:id"
    );
    assert_eq!(
        normalize_path("/v1/markets/123e4567-e89b-12d3-a456-426614174000/orders"),
        "/v1/markets/:id/orders"
    );
    assert_eq!(normalize_path("/health"), "/health");
    assert_eq!(normalize_path(""), "");
    assert_eq!(normalize_path("/"), "/");
    // The first segment is kept as it is.
    assert_eq!(
        normalize_path("123e4567-e89b-12d3-a456-426614174000/x"),
        "123e4567-e89b-12d3-a456-426614174000/x"
    );
    // 36 bytes without a hyphen are kept.
    assert_eq!(
        normalize_path("/abcdefghijabcdefghijabcdefghijabcdef"),
        "/abcdefghijabcdefghijabcdefghijabcdef"
    );
}

#[test]
fn depth_socket_reactions() {
    assert!(matches!(depth_step(DepthEvent::Quiet), DepthAction::SendText(t) if t == "{\"type\":\"ping\"}"));
    assert!(matches!(depth_step(DepthEvent::Update("d".into())), DepthAction::SendText(t) if t == "d"));
    assert!(matches!(depth_step(DepthEvent::FeedEnded), DepthAction::Close));
    assert!(matches!(depth_step(DepthEvent::ClientClosed), DepthAction::Close));
    assert!(matches!(depth_step(DepthEvent::ClientPong), DepthAction::Nothing));
    assert!(matches!(depth_step(DepthEvent::ClientPing(vec![1, 2])), DepthAction::SendPong(p) if p == vec![1, 2]));
    assert!(matches!(depth_step(DepthEvent::ClientError), DepthAction::Close));
    assert!(matches!(depth_step(DepthEvent::ClientOther), DepthAction::Nothing));
}
