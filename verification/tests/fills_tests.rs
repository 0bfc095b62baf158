use predmarket::error::AppError;
use predmarket::fills::{
    dlq_step, fill_cost, insufficient_balance, market_gate, order_after_fill, partition_subject,
    plan_fill, BalanceRow, DlqStep, InsertFillOutcome, DLQ_RETRY_COUNT,
};
use predmarket::types::{
    Fill, FillId, MarketId, OrderId, OrderStatus, Price, Quantity, Side, UserId,
};

fn fill(price: u32, qty: u64) -> Fill {
    Fill {
        id: FillId(1),
        market_id: MarketId(2),
        maker_order_id: OrderId(3),
        taker_order_id: OrderId(4),
        maker_user_id: UserId(5),
        taker_user_id: UserId(6),
        price: Price(price),
        quantity: Quantity(qty),
        aggressor: Side::Buy,
        sequence: 9,
        filled_at: 0,
        transaction_id: None,
    }
}

#[test]
fn fill_cost_is_price_times_quantity_over_ten_thousand() {
    assert_eq!(fill_cost(Price(500_000), Quantity(2_000)), 100_000);
    assert_eq!(fill_cost(Price(3), Quantity(3_333)), 0);
    assert_eq!(fill_cost(Price(7), Quantity(10_000)), 7);
}

#[test]
fn fill_cost_overflow_gives_zero() {
    assert_eq!(fill_cost(Price(u32::MAX), Quantity(i64::MAX as u64)), 0);
}

#[test]
fn fill_cost_of_huge_quantity_reads_it_signed() {
    // u64::MAX read as i64 is -1.
    assert_eq!(fill_cost(Price(20_000), Quantity(u64::MAX)), -2);
}

#[test]
fn duplicate_fill_plans_nothing() {
    assert!(plan_fill(&fill(10, 10), InsertFillOutcome::Duplicate).is_none());
}

#[test]
fn new_fill_moves_cost_and_positions() {
    let p = plan_fill(&fill(500_000, 2_000), InsertFillOutcome::Inserted).unwrap();
    assert_eq!(p.cost, 100_000);
    assert_eq!(p.taker, UserId(6));
    assert_eq!(p.maker, UserId(5));
    assert_eq!(p.market, MarketId(2));
    assert_eq!(p.taker_delta, 2_000);
    assert_eq!(p.maker_delta, -2_000);
    assert_eq!(p.taker_delta + p.maker_delta, 0);
    assert_eq!(p.maker_order, OrderId(3));
    assert_eq!(p.taker_order, OrderId(4));
}

#[test]
fn order_fill_progress() {
    assert_eq!(order_after_fill(Quantity(10), Quantity(2), Quantity(3)), (OrderStatus::Partial, Quantity(5)));
    assert_eq!(order_after_fill(Quantity(10), Quantity(7), Quantity(3)), (OrderStatus::Filled, Quantity(10)));
    assert_eq!(order_after_fill(Quantity(10), Quantity(7), Quantity(30)), (OrderStatus::Filled, Quantity(37)));
    assert_eq!(
        order_after_fill(Quantity(u64::MAX), Quantity(u64::MAX - 1), Quantity(5)),
        (OrderStatus::Filled, Quantity(u64::MAX))
    );
}

#[test]
fn dlq_retries_then_drops() {
    assert_eq!(DLQ_RETRY_COUNT, 3);
    assert_eq!(dlq_step(0), DlqStep::RetryAfter(100));
    assert_eq!(dlq_step(1), DlqStep::RetryAfter(200));
    assert_eq!(dlq_step(2), DlqStep::RetryAfter(300));
    assert_eq!(dlq_step(3), DlqStep::Drop);
    assert_eq!(dlq_step(100), DlqStep::Drop);
}

#[test]
fn only_open_markets_take_orders() {
    let m = MarketId(0x2a);
    assert_eq!(market_gate(Some("open"), m), Ok(()));
    assert_eq!(market_gate(Some("paused"), m), Err(AppError::MarketNotOpen));
    assert_eq!(
        market_gate(None, m),
        Err(AppError::MarketNotFound("00000000-0000-0000-0000-00000000002a".into()))
    );
}

#[test]
fn insufficient_balance_reports_unsigned_amounts() {
    assert_eq!(
        insufficient_balance(500, 20),
        AppError::InsufficientBalance { needed: 500, available: 20 }
    );
    assert_eq!(
        insufficient_balance(5, -1),
        AppError::InsufficientBalance { needed: 5, available: u64::MAX }
    );
}

#[test]
fn missing_balance_row_is_zero() {
    assert_eq!(BalanceRow::default(), BalanceRow { available: 0, reserved: 0 });
}

#[test]
fn worker_subjects() {
    assert_eq!(partition_subject("fills", 3), "fills.3");
    assert_eq!(partition_subject("engine.fills", 12), "engine.fills.12");
}

#[test]
fn duplicate_of_any_quantity_is_skipped() {
    assert!(plan_fill(&fill(10, 0x8000_0000_0000_0000), InsertFillOutcome::Duplicate).is_none());
}
