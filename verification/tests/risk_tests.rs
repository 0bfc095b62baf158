use predmarket::decimal::Dec;
use predmarket::risk::{RiskLimits, RiskManager, UserRiskState};
use predmarket::types::{
    Fill, FillId, MarketId, Order, OrderId, OrderKind, OrderStatus, Price, Quantity, Side, UserId,
};

fn same(a: Dec, b: Dec) -> bool {
    let (x, y) = if a.scale >= b.scale {
        (a.mantissa, b.mantissa * 10i128.pow(a.scale - b.scale))
    } else {
        (a.mantissa * 10i128.pow(b.scale - a.scale), b.mantissa)
    };
    x == y
}

fn order(qty: u64) -> Order {
    Order {
        id: OrderId(1),
        market_id: MarketId(2),
        user_id: UserId(3),
        side: Side::Buy,
        kind: OrderKind::Limit,
        price: Some(Price(500_000)),
        quantity: Quantity(qty),
        filled_quantity: Quantity(0),
        status: OrderStatus::Open,
        sequence: 0,
        created_at: 0,
        updated_at: 0,
    }
}

fn fill(qty: u64, price: u32, side: Side) -> Fill {
    Fill {
        id: FillId(1),
        market_id: MarketId(2),
        maker_order_id: OrderId(3),
        taker_order_id: OrderId(4),
        maker_user_id: UserId(5),
        taker_user_id: UserId(6),
        price: Price(price),
        quantity: Quantity(qty),
        aggressor: side,
        sequence: 0,
        filled_at: 0,
        transaction_id: None,
    }
}

#[test]
fn default_limits() {
    let l = RiskLimits::default();
    assert!(same(l.max_position_size_usd, Dec::new(100_000, 0)));
    assert!(same(l.max_daily_loss_usd, Dec::new(50_000, 0)));
    assert!(same(l.max_total_exposure_usd, Dec::new(500_000, 0)));
    assert!(same(l.max_drawdown_pct, Dec::new(2, 1)));
    assert_eq!(l.max_positions_per_market, 5);
}

#[test]
fn unknown_user_is_allowed_with_zero_score() {
    let rm = RiskManager::new(RiskLimits::default());
    let r = rm.check_order_risk(UserId(9), &order(100), Dec::new(5, 1));
    assert!(r.allowed);
    assert!(r.reason.is_none());
    assert!(same(r.risk_score, Dec::new(0, 0)));
}

#[test]
fn oversized_order_is_refused() {
    let rm = RiskManager::new(RiskLimits::default());
    let r = rm.check_order_risk(UserId(9), &order(300_000), Dec::new(5, 1));
    assert!(!r.allowed);
    assert_eq!(r.reason.as_deref(), Some("Order value $150000.0 exceeds max position size $100000.0"));
    assert!(same(r.risk_score, Dec::new(1, 0)));
}

#[test]
fn breaker_refuses_everything() {
    let mut rm = RiskManager::new(RiskLimits::default());
    rm.circuit_breaker = true;
    let r = rm.check_order_risk(UserId(9), &order(1), Dec::new(5, 1));
    assert!(!r.allowed);
    assert_eq!(r.reason.as_deref(), Some("Global circuit breaker is active"));
}

#[test]
fn fills_move_exposure_and_reset_clears_the_day() {
    let mut rm = RiskManager::new(RiskLimits::default());
    let u = UserId(6);
    rm.update_on_fill(u, &fill(100, 400_000, Side::Buy), Dec::new(5, 1));
    assert!(same(rm.get_user_exposure(u), Dec::new(50, 0)));
    rm.update_on_fill(u, &fill(40, 400_000, Side::Sell), Dec::new(5, 1));
    assert!(same(rm.get_user_exposure(u), Dec::new(30, 0)));
    assert!(same(rm.get_user_exposure(UserId(77)), Dec::new(0, 0)));
    assert!(same(rm.get_user_pnl(UserId(77)), Dec::new(0, 0)));
    rm.reset_daily_stats();
    assert!(same(rm.get_user_pnl(u), Dec::new(0, 0)));
    assert!(!rm.circuit_breaker);
    let st: &UserRiskState = rm.user_states.get(&u.0).unwrap();
    assert!(st.fills_today.is_empty());
}

#[test]
fn known_user_gets_a_score() {
    let mut rm = RiskManager::new(RiskLimits::default());
    let u = UserId(6);
    rm.update_on_fill(u, &fill(100, 400_000, Side::Buy), Dec::new(5, 1));
    rm.reset_daily_stats();
    let r = rm.check_order_risk(u, &order(100), Dec::new(5, 1));
    assert!(r.allowed);
    assert!(r.reason.is_none());
    assert!(r.risk_score.mantissa >= 0);
}
